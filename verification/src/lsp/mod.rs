//! The language server protocol, as far as `vsrocqtop` needs it.
pub mod jsonrpc;
pub mod transport;
pub mod types;
pub mod vsrocq;
