//! Reaching the operator across a socket: one JSON-RPC object per line, one
//! request at a time, and a handshake before the first.
//!
//! The messages themselves are encoded and decoded elsewhere. What is here is
//! what is sent when, and what a reply means.
use crate::card::protocol::{FrontendError, FrontendView, PROTOCOL_VERSION};
use crate::text::{cat2, cat4, debug_str, debug_text, dec_i64, dec_int, same, trim, trimmed};
use vstd::prelude::*;

verus! {

/// The error code by which the other side declines.
pub const INTERACTION_DECLINED: i64 = -32010;

/// What can be asked of the other side.
#[derive(Clone, Copy, Debug, PartialEq, Eq, Structural)]
pub enum Request {
    Secret,
    MgmtKey,
    Confirm,
    SelectCard,
}

/// What the other side is told without an answer.
#[derive(Clone, Copy, Debug, PartialEq, Eq, Structural)]
pub enum Notice {
    Progress,
    Completed,
}

/// The frame of a message: a request has a number, a notice has none.
#[derive(Debug, PartialEq, Eq)]
pub struct Envelope {
    pub id: Option<u64>,
    pub method: String,
}

/// The method of a request.
pub open spec fn request_method(r: Request) -> Seq<char> {
    match r {
        Request::Secret => "secret.request"@,
        Request::MgmtKey => "mgmt_key.request"@,
        Request::Confirm => "confirm.request"@,
        Request::SelectCard => "card_select.request"@,
    }
}

/// The method of a notice.
pub open spec fn notice_method(n: Notice) -> Seq<char> {
    match n {
        Notice::Progress => "progress"@,
        Notice::Completed => "completed"@,
    }
}

/// An error that the other side answered with.
pub struct RpcError {
    pub code: i64,
    pub message: String,
}

/// What a reply with an error means.
pub open spec fn error_meaning(e: RpcError) -> FrontendView {
    if e.code == INTERACTION_DECLINED {
        FrontendView::Declined(e.message@)
    } else {
        FrontendView::Protocol("JSON-RPC error "@ + dec_int(e.code as int) + ": "@ + e.message@)
    }
}

/// The message that gets a request through.
pub open spec fn method_of(initialized: bool, request: Request) -> Seq<char> {
    if initialized {
        request_method(request)
    } else {
        "initialize"@
    }
}

/// What a reply means.
pub open spec fn settled<T>(error: Option<RpcError>, result: Option<T>) -> Result<T, FrontendView> {
    match (error, result) {
        (Some(e), _) => Err(error_meaning(e)),
        (None, Some(v)) => Ok(v),
        (None, None) => Err(FrontendView::Protocol("response missing both result and error"@)),
    }
}

/// Reads a reply: an error wins over a result.
pub fn settle<T>(error: Option<RpcError>, result: Option<T>) -> (r: Result<T, FrontendError>)
    ensures
        match r {
            Ok(v) => settled(error, result) == Ok::<T, FrontendView>(v),
            Err(e) => settled(error, result) == Err::<T, FrontendView>(e@),
        },
        match (error, result) {
            (Some(e), _) => r is Err && r->Err_0@ == error_meaning(e),
            (None, Some(v)) => r == Ok::<T, FrontendError>(v),
            (None, None) => r is Err && r->Err_0@ == FrontendView::Protocol(
                "response missing both result and error"@,
            ),
        },
{
    match error {
        Some(e) => {
            if e.code == INTERACTION_DECLINED {
                Err(FrontendError::Declined(e.message))
            } else {
                Err(
                    FrontendError::Protocol(
                        cat4("JSON-RPC error ", dec_i64(e.code).as_str(), ": ", e.message.as_str()),
                    ),
                )
            }
        },
        None => match result {
            Some(v) => Ok(v),
            None => Err(
                FrontendError::Protocol("response missing both result and error".to_owned()),
            ),
        },
    }
}

/// What was read from the channel.
#[derive(Debug, PartialEq, Eq)]
pub enum LineRead {
    /// Nothing to see; read on.
    Blank,
    /// A line that should hold an object.
    Object,
}

/// Reads a line: the end of the channel is an error, and a line without
/// anything on it does not count.
pub fn read_line(line: Option<&str>) -> (r: Result<LineRead, FrontendError>)
    ensures
        match line {
            None => r is Err && r->Err_0@ == FrontendView::Transport("channel closed"@),
            Some(l) => r is Ok && (r->Ok_0 is Blank <==> trimmed(l@).len() == 0),
        },
{
    match line {
        None => Err(FrontendError::Transport("channel closed".to_owned())),
        Some(l) => {
            let t: String = trim(l);
            if t.as_str().is_empty() {
                Ok(LineRead::Blank)
            } else {
                Ok(LineRead::Object)
            }
        },
    }
}

/// A message as it goes over the channel: one line of it.
pub fn write_line(encoded: &str) -> (r: String)
    ensures
        r@ == encoded@ + "\n"@,
{
    cat2(encoded, "\n")
}

/// The other side of the channel, as far as it is known.
pub struct JsonRpcFrontend {
    pub next_id: u64,
    pub initialized: bool,
    pub operation: String,
}

impl JsonRpcFrontend {
    /// A channel that nothing was said on; the handshake comes before the
    /// first request. `operation` is named in it.
    pub fn new(operation: String) -> (r: JsonRpcFrontend)
        ensures
            r.next_id == 0,
            !r.initialized,
            r.operation == operation,
    {
        JsonRpcFrontend { next_id: 0, initialized: false, operation }
    }

    /// A channel whose handshake is done.
    pub fn already_initialized(operation: String) -> (r: JsonRpcFrontend)
        ensures
            r.next_id == 0,
            r.initialized,
            r.operation == operation,
    {
        JsonRpcFrontend { next_id: 0, initialized: true, operation }
    }

    /// The message to send so that a request gets through: the handshake
    /// where it is still to be done, else the request itself. Each message
    /// has the next number.
    pub fn call(&mut self, request: Request) -> (r: Envelope)
        requires
            old(self).next_id < u64::MAX,
        ensures
            r.id == Some(old(self).next_id),
            r.method@ == method_of(old(self).initialized, request),
            r.method@ == if old(self).initialized {
                request_method(request)
            } else {
                "initialize"@
            },
            final(self).next_id == old(self).next_id + 1,
            final(self).initialized == old(self).initialized,
            final(self).operation == old(self).operation,
    {
        let id: u64 = self.next_id;
        self.next_id = id + 1;
        let method: &str = if !self.initialized {
            "initialize"
        } else {
            match request {
                Request::Secret => "secret.request",
                Request::MgmtKey => "mgmt_key.request",
                Request::Confirm => "confirm.request",
                Request::SelectCard => "card_select.request",
            }
        };
        Envelope { id: Some(id), method: method.to_owned() }
    }

    /// A notice to send: it has no number and is not answered.
    pub fn notify(&self, notice: Notice) -> (r: Envelope)
        ensures
            r.id is None,
            r.method@ == notice_method(notice),
    {
        let method: &str = match notice {
            Notice::Progress => "progress",
            Notice::Completed => "completed",
        };
        Envelope { id: None, method: method.to_owned() }
    }

    /// Takes the version that the other side answered the handshake with.
    /// Only the very same version will do.
    pub fn greeted(&mut self, protocol: &str) -> (r: Result<(), FrontendError>)
        ensures
            r is Ok <==> protocol@ == PROTOCOL_VERSION@,
            r is Err ==> r->Err_0@ == FrontendView::Protocol(
                "frontend speaks "@ + debug_text(protocol@) + ", expected "@ + PROTOCOL_VERSION@,
            ),
            final(self).initialized == (old(self).initialized || r is Ok),
            final(self).next_id == old(self).next_id,
            final(self).operation == old(self).operation,
    {
        if same(protocol, PROTOCOL_VERSION) {
            self.initialized = true;
            Ok(())
        } else {
            Err(
                FrontendError::Protocol(
                    cat4(
                        "frontend speaks ",
                        debug_str(protocol).as_str(),
                        ", expected ",
                        PROTOCOL_VERSION,
                    ),
                ),
            )
        }
    }
}

// --------------------------------------------------------------------- laws

/// A reply gives its result exactly where it holds no error, and the very
/// result that it holds; a declined question is told apart from a fault.
pub proof fn law_error_wins_over_a_result<T>(error: Option<RpcError>, result: Option<T>)
    ensures
        settled(error, result) is Ok <==> error is None && result is Some,
        settled(error, result) matches Ok(v) ==> result == Some(v),
        error matches Some(e) ==> (settled(error, result)->Err_0 is Declined <==> e.code == -32010),
        error is Some && settled(error, result)->Err_0 is Declined
            ==> settled(error, result)->Err_0->Declined_0 == error->0.message@,
{
}

/// Nothing is asked before the handshake, and no request is taken for another
/// or for the handshake.
pub proof fn law_requests_differ(a: Request, b: Request)
    ensures
        method_of(false, a) == "initialize"@,
        method_of(true, a) != "initialize"@,
        method_of(true, a) == method_of(true, b) ==> a == b,
{
    reveal_strlit("secret.request");
    reveal_strlit("mgmt_key.request");
    reveal_strlit("confirm.request");
    reveal_strlit("card_select.request");
    reveal_strlit("initialize");
    assert("secret.request"@[0] == 's' && "mgmt_key.request"@[0] == 'm' && "confirm.request"@[1]
        == 'o' && "card_select.request"@[1] == 'a' && "initialize"@[0] == 'i'
        && "confirm.request"@[0] == 'c' && "card_select.request"@[0] == 'c');
}

} // verus!
