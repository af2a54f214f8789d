//! What an operation on a card asks of, and tells, the person at the other
//! end. The operation does not know whether that is a terminal or a program
//! across a socket.
use crate::card::engine::{Action, Event, Exchange};
use crate::text::{cat2, cat3, dec, dec_u64, opt_text, same};
use vstd::prelude::*;

verus! {

/// The version of the protocol that is spoken across a socket.
pub const PROTOCOL_VERSION: &'static str = "piggy-mgmt/1";

/// Which card an interaction is about.
#[derive(Debug, PartialEq, Eq)]
pub struct CardId {
    /// Thirty-two upper-case hexadecimal digits; all zeros for a card that
    /// was never set up.
    pub guid: String,
    pub serial: Option<u32>,
    /// The name in the certificate of the slot in question.
    pub cn: Option<String>,
}

/// [`CardId`] over plain text.
pub struct CardIdView {
    pub guid: Seq<char>,
    pub serial: Option<u32>,
    pub cn: Option<Seq<char>>,
}

impl View for CardId {
    type V = CardIdView;

    open spec fn view(&self) -> CardIdView {
        CardIdView { guid: self.guid@, serial: self.serial, cn: opt_text(self.cn) }
    }
}

/// The first characters of a text, up to `n`.
pub open spec fn first_chars(s: Seq<char>, n: int) -> Seq<char> {
    if s.len() <= n {
        s
    } else {
        s.subrange(0, n)
    }
}

/// The first characters of a text, up to `n`.
pub fn take_chars(s: &str, n: usize) -> (r: String)
    ensures
        r@ == first_chars(s@, n as int),
{
    if s.unicode_len() <= n {
        s.to_owned()
    } else {
        s.substring_char(0, n).to_owned()
    }
}

/// The shortest label that tells a card from others: its serial number, or
/// the start of its GUID.
pub open spec fn label_of(c: CardIdView) -> Seq<char> {
    match c.serial {
        Some(s) => "serial "@ + dec(s as nat),
        None => "card "@ + first_chars(c.guid, 8) + "…"@,
    }
}

impl CardId {
    /// The shortest label that tells a card from others.
    pub fn short_label(&self) -> (r: String)
        ensures
            r@ == label_of(self@),
    {
        match self.serial {
            Some(s) => cat2("serial ", dec_u64(s as u64).as_str()),
            None => cat3("card ", take_chars(self.guid.as_str(), 8).as_str(), "…"),
        }
    }

    /// A second copy.
    pub fn copy(&self) -> (r: CardId)
        ensures
            r@ == self@,
    {
        CardId { guid: self.guid.clone(), serial: self.serial, cn: self.cn.clone() }
    }
}

/// Which secret is asked for.
#[derive(Clone, Copy, Debug, PartialEq, Eq, Structural)]
pub enum SecretKind {
    CurrentPin,
    NewPin,
    ConfirmNewPin,
    CurrentPuk,
    NewPuk,
    ConfirmNewPuk,
    ManagementKey,
    Generic,
}

/// A request for a secret.
#[derive(Debug, PartialEq, Eq)]
pub struct SecretRequest {
    pub kind: SecretKind,
    /// What a simple frontend shows.
    pub prompt: String,
    /// The card, for a secret that belongs to one.
    pub card: Option<CardId>,
    /// The slot in question.
    pub slot: Option<String>,
    /// Tries left before the card locks, where that is known.
    pub attempts_remaining: Option<u32>,
    /// What the operator authorises, shown beside the card.
    pub detail: Option<String>,
}

/// [`SecretRequest`] over plain text.
pub struct SecretView {
    pub kind: SecretKind,
    pub prompt: Seq<char>,
    pub card: Option<CardIdView>,
    pub slot: Option<Seq<char>>,
    pub attempts_remaining: Option<u32>,
    pub detail: Option<Seq<char>>,
}

impl View for SecretRequest {
    type V = SecretView;

    open spec fn view(&self) -> SecretView {
        SecretView {
            kind: self.kind,
            prompt: self.prompt@,
            card: match self.card {
                Some(c) => Some(c@),
                None => None,
            },
            slot: opt_text(self.slot),
            attempts_remaining: self.attempts_remaining,
            detail: opt_text(self.detail),
        }
    }
}

/// A request to choose where the management key comes from.
#[derive(Debug, PartialEq, Eq)]
pub struct MgmtKeyRequest {
    pub prompt: String,
    pub card: CardId,
}

/// Where the management key comes from.
#[derive(Debug, PartialEq, Eq)]
pub enum MgmtKeyChoice {
    /// The factory key stays.
    Default,
    /// The operator's own key, in hexadecimal.
    Hex { key: String },
    /// A new random key.
    Random,
}

/// [`MgmtKeyChoice`] over plain text.
pub enum ChoiceView {
    Default,
    Hex(Seq<char>),
    Random,
}

impl View for MgmtKeyChoice {
    type V = ChoiceView;

    open spec fn view(&self) -> ChoiceView {
        match self {
            MgmtKeyChoice::Default => ChoiceView::Default,
            MgmtKeyChoice::Hex { key } => ChoiceView::Hex(key@),
            MgmtKeyChoice::Random => ChoiceView::Random,
        }
    }
}

/// A yes-or-no question.
#[derive(Debug, PartialEq, Eq)]
pub struct ConfirmRequest {
    pub message: String,
    pub default: Option<bool>,
}

/// The answer to a yes-or-no question.
#[derive(Clone, Copy, Debug, PartialEq, Eq, Structural)]
pub struct ConfirmResponse {
    pub confirmed: bool,
}

/// Whether a card was set up before.
#[derive(Clone, Copy, Debug, PartialEq, Eq, Structural)]
pub enum CardState {
    Provisioned,
    Uninitialized,
}

/// One card to choose from.
#[derive(Debug, PartialEq, Eq)]
pub struct CardCandidate {
    pub card: CardId,
    pub state: CardState,
}

/// A request to choose a card.
#[derive(Debug, PartialEq, Eq)]
pub struct CardSelectRequest {
    pub reason: String,
    pub candidates: Vec<CardCandidate>,
}

/// The chosen card.
#[derive(Debug, PartialEq, Eq)]
pub struct CardSelectResponse {
    pub guid: String,
}

/// Whether one of the candidates has the given GUID.
pub open spec fn is_candidate(req: CardSelectRequest, guid: Seq<char>) -> bool {
    exists|i: int|
        0 <= i < req.candidates@.len() && (#[trigger] req.candidates@[i]).card.guid@ == guid
}

/// Takes the card that was chosen; it has to be one of the candidates.
pub fn selected_card(req: &CardSelectRequest, guid: String) -> (r: Result<String, FrontendError>)
    ensures
        if is_candidate(*req, guid@) {
            r == Ok::<String, FrontendError>(guid)
        } else {
            r is Err && (r->Err_0)@ == FrontendView::Protocol(
                "selected card is not one of the candidates: "@ + guid@,
            )
        },
{
    for i in 0..req.candidates.len()
        invariant
            forall|j: int|
                0 <= j < i ==> (#[trigger] req.candidates@[j]).card.guid@ != guid@,
    {
        if same(req.candidates[i].card.guid.as_str(), guid.as_str()) {
            return Ok(guid);
        }
    }
    Err(
        FrontendError::Protocol(
            cat2("selected card is not one of the candidates: ", guid.as_str()),
        ),
    )
}

/// Tells how far an operation has got.
#[derive(Debug, PartialEq, Eq)]
pub struct ProgressEvent {
    /// A word for programs.
    pub step: String,
    /// Words for people.
    pub message: String,
    pub current: Option<u32>,
    pub total: Option<u32>,
}

/// [`ProgressEvent`] over plain text.
pub struct ProgressView {
    pub step: Seq<char>,
    pub message: Seq<char>,
    pub current: Option<u32>,
    pub total: Option<u32>,
}

impl View for ProgressEvent {
    type V = ProgressView;

    open spec fn view(&self) -> ProgressView {
        ProgressView {
            step: self.step@,
            message: self.message@,
            current: self.current,
            total: self.total,
        }
    }
}

/// How an operation ended.
#[derive(Clone, Copy, Debug, PartialEq, Eq, Structural)]
pub enum CompletedStatus {
    Success,
    Error,
}

/// What a successful operation is told with: the card, and where its
/// management key was sealed, if it was.
#[derive(Debug, PartialEq, Eq)]
pub struct Summary {
    pub guid: String,
    pub sealed_management_key: Option<String>,
}

/// Tells that an operation ended. No secret is ever part of it.
#[derive(Debug, PartialEq, Eq)]
pub struct CompletedEvent {
    pub status: CompletedStatus,
    pub summary: Option<Summary>,
    pub error: Option<String>,
}

/// [`CompletedEvent`] over plain text.
pub struct CompletedView {
    pub status: CompletedStatus,
    pub summary: Option<(Seq<char>, Option<Seq<char>>)>,
    pub error: Option<Seq<char>>,
}

impl View for CompletedEvent {
    type V = CompletedView;

    open spec fn view(&self) -> CompletedView {
        CompletedView {
            status: self.status,
            summary: match self.summary {
                Some(s) => Some((s.guid@, opt_text(s.sealed_management_key))),
                None => None,
            },
            error: opt_text(self.error),
        }
    }
}

/// Why an interaction came to nothing.
#[derive(Debug, PartialEq, Eq)]
pub enum FrontendError {
    /// The operator declined: the operation is given up and not retried.
    Declined(String),
    /// The channel failed.
    Transport(String),
    /// The other side said something that makes no sense.
    Protocol(String),
}

/// [`FrontendError`] over plain text.
pub enum FrontendView {
    Declined(Seq<char>),
    Transport(Seq<char>),
    Protocol(Seq<char>),
}

impl View for FrontendError {
    type V = FrontendView;

    open spec fn view(&self) -> FrontendView {
        match self {
            FrontendError::Declined(e) => FrontendView::Declined(e@),
            FrontendError::Transport(e) => FrontendView::Transport(e@),
            FrontendError::Protocol(e) => FrontendView::Protocol(e@),
        }
    }
}

/// The words of an interaction error.
pub open spec fn frontend_text(e: FrontendView) -> Seq<char> {
    match e {
        FrontendView::Declined(s) => "interaction declined: "@ + s,
        FrontendView::Transport(s) => "transport error: "@ + s,
        FrontendView::Protocol(s) => "protocol error: "@ + s,
    }
}

impl FrontendError {
    /// The words of the error.
    pub fn text(&self) -> (r: String)
        ensures
            r@ == frontend_text(self@),
    {
        match self {
            FrontendError::Declined(e) => cat2("interaction declined: ", e.as_str()),
            FrontendError::Transport(e) => cat2("transport error: ", e.as_str()),
            FrontendError::Protocol(e) => cat2("protocol error: ", e.as_str()),
        }
    }
}

/// What a value remembers that does not say how it does.
pub open spec fn untold<T, R>(x: T) -> R {
    let f = arbitrary::<spec_fn(T) -> R>();
    f(x)
}

/// The person, or the program, at the other end.
pub trait Frontend: Sized {
    /// What was asked and told so far, each with the answer.
    open spec fn heard(&self) -> Seq<Exchange> {
        untold(*self)
    }

    /// Asks for a secret.
    fn request_secret(&mut self, req: SecretRequest) -> (r: Result<String, FrontendError>)
        ensures
            final(self).heard() == old(self).heard().push(
                Exchange { asked: Action::RequestSecret(req)@, answer: Event::Secret(r)@ },
            ),
    ;

    /// Asks where the management key comes from.
    fn request_mgmt_key(&mut self, req: MgmtKeyRequest) -> (r: Result<
        MgmtKeyChoice,
        FrontendError,
    >)
        ensures
            final(self).heard() == old(self).heard().push(
                Exchange { asked: Action::RequestMgmtKey(req)@, answer: Event::Choice(r)@ },
            ),
    ;

    /// Asks a yes-or-no question.
    fn confirm(&mut self, req: ConfirmRequest) -> (r: Result<bool, FrontendError>)
        ensures
            final(self).heard() == old(self).heard().push(
                Exchange { asked: Action::Confirm(req)@, answer: Event::Answer(r)@ },
            ),
    ;

    /// Asks for one of several cards, by its GUID.
    fn select_card(&mut self, req: CardSelectRequest) -> Result<String, FrontendError>;

    /// Tells how far an operation has got.
    fn progress(&mut self, ev: ProgressEvent)
        ensures
            final(self).heard() == old(self).heard().push(
                Exchange { asked: Action::Progress(ev)@, answer: Event::Done@ },
            ),
    ;

    /// Tells that an operation ended.
    fn completed(&mut self, ev: CompletedEvent)
        ensures
            final(self).heard() == old(self).heard().push(
                Exchange { asked: Action::Completed(ev)@, answer: Event::Done@ },
            ),
    ;
}

} // verus!
