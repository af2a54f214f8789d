//! Which way the operator is reached.
use crate::text::cat4;
use vstd::prelude::*;

verus! {

/// The ways to reach the operator.
#[derive(Clone, Copy, Debug, PartialEq, Eq, Structural)]
pub enum FrontendKind {
    /// The terminal, with an askpass program for secrets.
    Tty,
    /// A program across a socket.
    Jsonrpc,
}

/// What is to be set up for that.
#[derive(Debug, PartialEq, Eq)]
pub enum FrontendPlan {
    Tty,
    /// Connect to the socket at this path.
    Connect(String),
}

/// Decides how the operator is reached, before any card is touched: a socket
/// is asked for only where it is named.
pub fn build_frontend(kind: FrontendKind, socket: Option<String>) -> (r: Result<FrontendPlan, String>)
    ensures
        match (kind, socket) {
            (FrontendKind::Tty, _) => r == Ok::<FrontendPlan, String>(FrontendPlan::Tty),
            (FrontendKind::Jsonrpc, Some(path)) => r == Ok::<FrontendPlan, String>(
                FrontendPlan::Connect(path),
            ),
            (FrontendKind::Jsonrpc, None) => r is Err && r->Err_0@
                == "--frontend jsonrpc requires --socket <PATH>"@,
        },
{
    match kind {
        FrontendKind::Tty => Ok(FrontendPlan::Tty),
        FrontendKind::Jsonrpc => match socket {
            Some(path) => Ok(FrontendPlan::Connect(path)),
            None => Err("--frontend jsonrpc requires --socket <PATH>".to_owned()),
        },
    }
}

/// The words for a socket that cannot be reached.
pub fn connect_failed(path: &str, error: &str) -> (r: String)
    ensures
        r@ == "connect frontend socket "@ + path@ + ": "@ + error@,
{
    cat4("connect frontend socket ", path, ": ", error)
}

} // verus!
