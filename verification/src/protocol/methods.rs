//! The names of the methods.
use vstd::prelude::*;

verus! {

pub const COMPILE: &'static str = "compile";

pub const QUERY: &'static str = "query";

pub const STATUS: &'static str = "status";

pub const SHUTDOWN: &'static str = "shutdown";

pub const INVALIDATE: &'static str = "invalidate";

} // verus!
