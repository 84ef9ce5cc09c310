//! What the library's functions promise, each stated by what its results must
//! satisfy.
pub mod client;
pub mod daemon;
pub mod messages;
pub mod path;
pub mod protocol;
pub mod query;
pub mod session;
pub mod text;
pub mod transport;
pub mod vsrocq;
