//! The ways to reach the operator: a terminal, or a program across a socket.
pub mod jsonrpc;
pub mod select;
pub mod tty;
