//! A caching daemon for Rocq compilation.
//!
//! The library holds everything that the daemon and its command line decide:
//! the messages, how they are framed and read, what becomes of a file that is
//! checked, and which answer a request gets. Sockets, files and processes are
//! left to the program.
pub mod client;
pub mod daemon;
pub mod json;
pub mod laws;
pub mod lsp;
pub mod path;
pub mod protocol;
pub mod session;
pub mod text;
