//! Setting up a card, step by step.
//!
//! The engine owns the sequence: confirm, authenticate, write the card's
//! identifier, make the keys and certificates of slots 9D and 9A, change the
//! PIN and the PUK, replace the management key. It asks for one thing at a
//! time ([`Engine::action`]) and is told what came of it ([`Engine::on`]);
//! the card, the operator and the password store are on the other side, and
//! [`run`] stands between.
//!
//! A management key that is to be sealed is sealed before the card gets it
//! and taken out of the store again if the card refuses it: no key is ever
//! applied without its seal, and no seal outlives a refused key.
use crate::card::protocol::{
    first_chars, frontend_text, label_of, take_chars, untold, CardId, CardIdView, ChoiceView,
    CompletedEvent, CompletedStatus, CompletedView, ConfirmRequest, Frontend, FrontendError,
    FrontendView, MgmtKeyChoice, MgmtKeyRequest, ProgressEvent, ProgressView, SecretKind,
    SecretRequest, SecretView, Summary,
};
use crate::card::laws::{law_setup_advances, law_stages_are_sound};
use crate::card::seal::KeyEscrow;
use crate::crypto::{
    discard, discard_key, hex_bytes, hex_decode, hex_encode_upper, hex_error_text, hex_text, is_hex, random_bytes,
};
use crate::piv::PivAlgorithm;
use crate::text::{cat2, cat3, cat5, dec, dec_usize, opt_text, same, trim, trimmed};
use vstd::prelude::*;
use vstd::slice::slice_to_vec;

verus! {

/// The PIN of a card that was never set up.
pub const DEFAULT_PIN: &'static str = "123456";

/// The PUK of a card that was never set up.
pub const DEFAULT_PUK: &'static str = "12345678";

/// The slot of the key that entries are encrypted to.
pub const SLOT_KEY_MGMT: u8 = 0x9D;

/// The slot of the key that logs in.
pub const SLOT_PIV_AUTH: u8 = 0x9A;

/// The number of steps that are counted for the operator.
pub const TOTAL_STEPS: u32 = 6;

/// The length of a management key.
pub const MGMT_KEY_LEN: usize = 24;

/// What is to be set up.
pub struct ProvisionConfig {
    /// The identifier that the card gets.
    pub guid: [u8; 16],
    /// Whether the card is in use already.
    pub reprovision: bool,
}

/// What the operator is told of the place where a new management key can be
/// sealed.
pub struct Escrow {
    pub pass_name: String,
    /// How many keys can read it there.
    pub recipients: usize,
    /// Whether the operator is asked first.
    pub ask: bool,
}

/// Where a management key was sealed.
#[derive(Debug, PartialEq, Eq)]
pub struct SealedKey {
    pub pass_name: String,
    pub recipients: usize,
}

/// What setting up a card gave.
pub struct ProvisionOutcome {
    pub guid: String,
    /// The new management key in hexadecimal, where it was made up here and
    /// not sealed: it is shown once.
    pub generated_mgmt_key: Option<String>,
    pub sealed_mgmt_key: Option<SealedKey>,
}

/// Why a card could not be set up.
#[derive(Debug, PartialEq, Eq)]
pub enum ProvisionError {
    /// It did not come to the first step.
    Setup(String),
    Card(String),
    Frontend(FrontendError),
    Aborted(String),
    PinMismatch,
    PukMismatch,
    BadMgmtKey(String),
    /// The key could not be sealed, and the card's key was left alone.
    Seal(String),
}

/// [`ProvisionError`] over plain text.
pub enum ErrorView {
    Setup(Seq<char>),
    Card(Seq<char>),
    Frontend(FrontendView),
    Aborted(Seq<char>),
    PinMismatch,
    PukMismatch,
    BadMgmtKey(Seq<char>),
    Seal(Seq<char>),
}

impl View for ProvisionError {
    type V = ErrorView;

    open spec fn view(&self) -> ErrorView {
        match self {
            ProvisionError::Setup(e) => ErrorView::Setup(e@),
            ProvisionError::Card(e) => ErrorView::Card(e@),
            ProvisionError::Frontend(e) => ErrorView::Frontend(e@),
            ProvisionError::Aborted(e) => ErrorView::Aborted(e@),
            ProvisionError::PinMismatch => ErrorView::PinMismatch,
            ProvisionError::PukMismatch => ErrorView::PukMismatch,
            ProvisionError::BadMgmtKey(e) => ErrorView::BadMgmtKey(e@),
            ProvisionError::Seal(e) => ErrorView::Seal(e@),
        }
    }
}

/// The words of an error.
pub open spec fn error_text(e: ErrorView) -> Seq<char> {
    match e {
        ErrorView::Setup(s) => s,
        ErrorView::Card(s) => "card error: "@ + s,
        ErrorView::Frontend(f) => "frontend error: "@ + frontend_text(f),
        ErrorView::Aborted(s) => "operator aborted: "@ + s,
        ErrorView::PinMismatch => "the two PIN entries did not match"@,
        ErrorView::PukMismatch => "the two PUK entries did not match"@,
        ErrorView::BadMgmtKey(s) => "supplied management key is not valid 24-byte hex: "@ + s,
        ErrorView::Seal(s) =>
            "sealing the management key failed (the card's management key was not rotated): "@ + s,
    }
}

impl ProvisionError {
    /// The words of the error.
    pub fn text(&self) -> (r: String)
        ensures
            r@ == error_text(self@),
    {
        match self {
            ProvisionError::Setup(s) => s.clone(),
            ProvisionError::Card(s) => cat2("card error: ", s.as_str()),
            ProvisionError::Frontend(f) => cat2("frontend error: ", f.text().as_str()),
            ProvisionError::Aborted(s) => cat2("operator aborted: ", s.as_str()),
            ProvisionError::PinMismatch => "the two PIN entries did not match".to_owned(),
            ProvisionError::PukMismatch => "the two PUK entries did not match".to_owned(),
            ProvisionError::BadMgmtKey(s) => cat2(
                "supplied management key is not valid 24-byte hex: ",
                s.as_str(),
            ),
            ProvisionError::Seal(s) => cat2(
                "sealing the management key failed (the card's management key was not rotated): ",
                s.as_str(),
            ),
        }
    }
}

/// The name in the certificate of a slot: a prefix and the start of the
/// card's identifier.
pub open spec fn cn_of(prefix: Seq<char>, guid_hex: Seq<char>) -> Seq<char> {
    prefix + "@"@ + first_chars(guid_hex, 8)
}

/// The name in the certificate of a slot.
pub fn slot_cn(prefix: &str, guid_hex: &str) -> (r: String)
    ensures
        r@ == cn_of(prefix@, guid_hex@),
{
    cat3(prefix, "@", take_chars(guid_hex, 8).as_str())
}

// ------------------------------------------------------------------ stages

/// What becomes of a management key that the card is given.
#[derive(Clone, Copy, Debug, PartialEq, Eq, Structural)]
pub enum KeyFate {
    /// The operator knows it.
    Supplied,
    /// It is shown once.
    Shown,
    /// It is in the store.
    Sealed,
}

/// One of the two slots that are set up.
#[derive(Clone, Copy, Debug, PartialEq, Eq, Structural)]
pub enum Slot {
    KeyMgmt,
    PivAuth,
}

/// One of the two secrets that are changed.
#[derive(Clone, Copy, Debug, PartialEq, Eq, Structural)]
pub enum Code {
    Pin,
    Puk,
}

/// How it ended.
pub enum Ending {
    /// With the key to show, if any, and whether one was sealed.
    Success(Option<String>, bool),
    Failure(ProvisionError),
}

/// Where the operation stands: what is to be done next.
pub enum Stage {
    /// Ask whether to go ahead.
    Confirm,
    /// Tell that this step begins.
    Step(u32),
    AdminAuth,
    VerifyPin,
    WriteChuid,
    Generate(Slot),
    /// Make the certificate of the key with this point.
    Certify(Slot, Vec<u8>),
    PutCert(Slot, Vec<u8>),
    /// Ask for a new secret.
    NewSecret(Code),
    /// Ask for it again.
    ConfirmSecret(Code, String),
    ChangeSecret(Code, String),
    ChooseKey,
    /// Make up a management key.
    RandomKey,
    /// Ask whether to seal it.
    OfferSeal(Vec<u8>),
    /// Tell that it is being sealed.
    SealStep(Vec<u8>),
    Seal(Vec<u8>),
    SetKey(Vec<u8>, KeyFate),
    /// Tell that a key was not sealed though that was asked for.
    NoteUnsealed,
    /// Take the seal back; the card's error.
    Rollback(String),
    Commit,
    /// Tell how it ended.
    Complete(Ending),
    Finished(Ending),
}

/// [`Ending`] over plain values.
pub enum EndingView {
    Success(Option<Seq<char>>, bool),
    Failure(ErrorView),
}

/// [`Stage`] over plain values.
pub enum StageView {
    Confirm,
    Step(u32),
    AdminAuth,
    VerifyPin,
    WriteChuid,
    Generate(Slot),
    Certify(Slot, Seq<u8>),
    PutCert(Slot, Seq<u8>),
    NewSecret(Code),
    ConfirmSecret(Code, Seq<char>),
    ChangeSecret(Code, Seq<char>),
    ChooseKey,
    RandomKey,
    OfferSeal(Seq<u8>),
    SealStep(Seq<u8>),
    Seal(Seq<u8>),
    SetKey(Seq<u8>, KeyFate),
    NoteUnsealed,
    Rollback(Seq<char>),
    Commit,
    Complete(EndingView),
    Finished(EndingView),
}

impl View for Ending {
    type V = EndingView;

    open spec fn view(&self) -> EndingView {
        match self {
            Ending::Success(k, s) => EndingView::Success(opt_text(*k), *s),
            Ending::Failure(e) => EndingView::Failure(e@),
        }
    }
}

impl View for Stage {
    type V = StageView;

    open spec fn view(&self) -> StageView {
        match self {
            Stage::Confirm => StageView::Confirm,
            Stage::Step(n) => StageView::Step(*n),
            Stage::AdminAuth => StageView::AdminAuth,
            Stage::VerifyPin => StageView::VerifyPin,
            Stage::WriteChuid => StageView::WriteChuid,
            Stage::Generate(s) => StageView::Generate(*s),
            Stage::Certify(s, p) => StageView::Certify(*s, p@),
            Stage::PutCert(s, c) => StageView::PutCert(*s, c@),
            Stage::NewSecret(c) => StageView::NewSecret(*c),
            Stage::ConfirmSecret(c, f) => StageView::ConfirmSecret(*c, f@),
            Stage::ChangeSecret(c, n) => StageView::ChangeSecret(*c, n@),
            Stage::ChooseKey => StageView::ChooseKey,
            Stage::RandomKey => StageView::RandomKey,
            Stage::OfferSeal(k) => StageView::OfferSeal(k@),
            Stage::SealStep(k) => StageView::SealStep(k@),
            Stage::Seal(k) => StageView::Seal(k@),
            Stage::SetKey(k, f) => StageView::SetKey(k@, *f),
            Stage::NoteUnsealed => StageView::NoteUnsealed,
            Stage::Rollback(e) => StageView::Rollback(e@),
            Stage::Commit => StageView::Commit,
            Stage::Complete(e) => StageView::Complete(e@),
            Stage::Finished(e) => StageView::Finished(e@),
        }
    }
}

/// What came of the last action.
pub enum Event {
    /// Something that cannot fail was done.
    Done,
    /// The operator's yes or no.
    Answer(Result<bool, FrontendError>),
    /// The secret that was asked for.
    Secret(Result<String, FrontendError>),
    /// Where the management key comes from.
    Choice(Result<MgmtKeyChoice, FrontendError>),
    /// What the card said.
    Card(Result<(), String>),
    /// A point or certificate.
    Bytes(Result<Vec<u8>, String>),
    /// A key that was made up.
    Random(Result<Vec<u8>, String>),
    /// What the store said.
    Sealed(Result<(), String>),
}

/// [`Event`] over plain values.
pub enum EventView {
    Done,
    Answer(Result<bool, FrontendView>),
    Secret(Result<Seq<char>, FrontendView>),
    Choice(Result<ChoiceView, FrontendView>),
    Card(Result<(), Seq<char>>),
    Bytes(Result<Seq<u8>, Seq<char>>),
    Random(Result<Seq<u8>, Seq<char>>),
    Sealed(Result<(), Seq<char>>),
}

impl View for Event {
    type V = EventView;

    open spec fn view(&self) -> EventView {
        match self {
            Event::Done => EventView::Done,
            Event::Answer(Ok(b)) => EventView::Answer(Ok(*b)),
            Event::Answer(Err(e)) => EventView::Answer(Err(e@)),
            Event::Secret(Ok(s)) => EventView::Secret(Ok(s@)),
            Event::Secret(Err(e)) => EventView::Secret(Err(e@)),
            Event::Choice(Ok(c)) => EventView::Choice(Ok(c@)),
            Event::Choice(Err(e)) => EventView::Choice(Err(e@)),
            Event::Card(Ok(_)) => EventView::Card(Ok(())),
            Event::Card(Err(e)) => EventView::Card(Err(e@)),
            Event::Bytes(Ok(b)) => EventView::Bytes(Ok(b@)),
            Event::Bytes(Err(e)) => EventView::Bytes(Err(e@)),
            Event::Random(Ok(b)) => EventView::Random(Ok(b@)),
            Event::Random(Err(e)) => EventView::Random(Err(e@)),
            Event::Sealed(Ok(_)) => EventView::Sealed(Ok(())),
            Event::Sealed(Err(e)) => EventView::Sealed(Err(e@)),
        }
    }
}

/// Which event answers the action of a stage.
pub open spec fn fits(s: StageView, e: EventView) -> bool {
    match s {
        StageView::Confirm => e is Answer,
        StageView::OfferSeal(_) => e is Answer,
        StageView::NewSecret(_) => e is Secret,
        StageView::ConfirmSecret(_, _) => e is Secret,
        StageView::ChooseKey => e is Choice,
        StageView::RandomKey => e is Random && (e->Random_0 is Ok ==> e->Random_0->Ok_0.len()
            == MGMT_KEY_LEN),
        StageView::Seal(_) => e is Sealed,
        StageView::Generate(_) => e is Bytes,
        StageView::Certify(_, _) => e is Bytes,
        StageView::AdminAuth => e is Card,
        StageView::VerifyPin => e is Card,
        StageView::WriteChuid => e is Card,
        StageView::PutCert(_, _) => e is Card,
        StageView::ChangeSecret(_, _) => e is Card,
        StageView::SetKey(_, _) => e is Card,
        StageView::Step(n) => e is Done && 1 <= n <= TOTAL_STEPS,
        StageView::SealStep(_) => e is Done,
        StageView::NoteUnsealed => e is Done,
        StageView::Rollback(_) => e is Done,
        StageView::Commit => e is Done,
        StageView::Complete(_) => e is Done,
        StageView::Finished(_) => false,
    }
}

/// The end with an error.
pub open spec fn failed(e: ErrorView) -> StageView {
    StageView::Complete(EndingView::Failure(e))
}

/// The end of an interaction that came to nothing.
pub open spec fn refused(e: FrontendView) -> StageView {
    failed(ErrorView::Frontend(e))
}

/// The stage behind the one that announces a step.
pub open spec fn first_of_step(n: u32) -> StageView {
    if n <= 1 {
        StageView::AdminAuth
    } else if n == 2 {
        StageView::WriteChuid
    } else if n == 3 {
        StageView::Generate(Slot::KeyMgmt)
    } else if n == 4 {
        StageView::Generate(Slot::PivAuth)
    } else if n == 5 {
        StageView::NewSecret(Code::Pin)
    } else {
        StageView::ChooseKey
    }
}

/// The operator's own key: an even number of digits around which white
/// space does not count, for exactly as many bytes as a key has.
pub open spec fn supplied_key(key: Seq<char>) -> Result<Seq<u8>, Seq<char>> {
    let t = trimmed(key);
    if !is_hex(t) {
        Err(hex_error_text(t))
    } else if hex_bytes(t).len() != MGMT_KEY_LEN {
        Err("expected 24 bytes, got "@ + dec(hex_bytes(t).len()))
    } else {
        Ok(hex_bytes(t))
    }
}

/// The stage after a key that is not sealed was dealt with: where sealing
/// was asked for, that is told.
pub open spec fn after_unsealed(seal_required: bool) -> StageView {
    if seal_required {
        StageView::NoteUnsealed
    } else {
        StageView::Complete(EndingView::Success(None, false))
    }
}

/// The next stage. `escrow` says whether a key can be sealed and, if so,
/// whether the operator is asked first.
pub open spec fn next(s: StageView, e: EventView, escrow: Option<bool>) -> StageView {
    let required = escrow == Some(false);
    match (s, e) {
        (StageView::Confirm, EventView::Answer(Ok(yes))) => if yes {
            StageView::Step(1)
        } else {
            failed(ErrorView::Aborted("declined at confirmation"@))
        },
        (StageView::Confirm, EventView::Answer(Err(f))) => refused(f),
        (StageView::Step(n), _) => first_of_step(n),
        (StageView::AdminAuth, EventView::Card(Ok(_))) => StageView::VerifyPin,
        (StageView::VerifyPin, EventView::Card(Ok(_))) => StageView::Step(2),
        (StageView::WriteChuid, EventView::Card(Ok(_))) => StageView::Step(3),
        (StageView::Generate(slot), EventView::Bytes(Ok(p))) => StageView::Certify(slot, p),
        (StageView::Certify(slot, _), EventView::Bytes(Ok(c))) => StageView::PutCert(slot, c),
        (StageView::PutCert(slot, _), EventView::Card(Ok(_))) => if slot is KeyMgmt {
            StageView::Step(4)
        } else {
            StageView::Step(5)
        },
        (StageView::NewSecret(c), EventView::Secret(Ok(v))) => StageView::ConfirmSecret(c, v),
        (StageView::ConfirmSecret(c, first), EventView::Secret(Ok(v))) => if first == v {
            StageView::ChangeSecret(c, first)
        } else if c is Pin {
            failed(ErrorView::PinMismatch)
        } else {
            failed(ErrorView::PukMismatch)
        },
        (StageView::NewSecret(_), EventView::Secret(Err(f))) => refused(f),
        (StageView::ConfirmSecret(_, _), EventView::Secret(Err(f))) => refused(f),
        (StageView::ChangeSecret(c, _), EventView::Card(Ok(_))) => if c is Pin {
            StageView::NewSecret(Code::Puk)
        } else {
            StageView::Step(6)
        },
        (StageView::ChooseKey, EventView::Choice(Err(f))) => refused(f),
        (StageView::ChooseKey, EventView::Choice(Ok(ChoiceView::Default))) => after_unsealed(
            required,
        ),
        (StageView::ChooseKey, EventView::Choice(Ok(ChoiceView::Hex(key)))) => match supplied_key(
            key,
        ) {
            Ok(k) => StageView::SetKey(k, KeyFate::Supplied),
            Err(e) => failed(ErrorView::BadMgmtKey(e)),
        },
        (StageView::ChooseKey, EventView::Choice(Ok(ChoiceView::Random))) => StageView::RandomKey,
        (StageView::RandomKey, EventView::Random(Err(e))) => failed(
            ErrorView::BadMgmtKey("rng: "@ + e),
        ),
        (StageView::RandomKey, EventView::Random(Ok(k))) => match escrow {
            None => StageView::SetKey(k, KeyFate::Shown),
            Some(true) => StageView::OfferSeal(k),
            Some(false) => StageView::SealStep(k),
        },
        (StageView::OfferSeal(k), EventView::Answer(Ok(true))) => StageView::SealStep(k),
        (StageView::OfferSeal(k), EventView::Answer(_)) => StageView::SetKey(k, KeyFate::Shown),
        (StageView::SealStep(k), _) => StageView::Seal(k),
        (StageView::Seal(k), EventView::Sealed(Ok(_))) => StageView::SetKey(k, KeyFate::Sealed),
        (StageView::Seal(_), EventView::Sealed(Err(e))) => failed(ErrorView::Seal(e)),
        (StageView::SetKey(k, fate), EventView::Card(Ok(_))) => match fate {
            KeyFate::Supplied => after_unsealed(required),
            KeyFate::Shown => StageView::Complete(
                EndingView::Success(Some(hex_text(k, true)), false),
            ),
            KeyFate::Sealed => StageView::Commit,
        },
        (StageView::SetKey(_, KeyFate::Sealed), EventView::Card(Err(e))) => StageView::Rollback(e),
        (StageView::NoteUnsealed, _) => StageView::Complete(EndingView::Success(None, false)),
        (StageView::Rollback(e), _) => failed(ErrorView::Card(e)),
        (StageView::Commit, _) => StageView::Complete(EndingView::Success(None, true)),
        (StageView::Complete(end), _) => StageView::Finished(end),
        (_, EventView::Card(Err(e))) => failed(ErrorView::Card(e)),
        (_, EventView::Bytes(Err(e))) => failed(ErrorView::Card(e)),
        (s, _) => s,
    }
}

// ------------------------------------------------------------------ engine

/// A card being set up.
pub struct Engine {
    pub guid: [u8; 16],
    pub guid_hex: String,
    pub serial: Option<u32>,
    pub reprovision: bool,
    pub escrow: Option<Escrow>,
    pub stage: Stage,
}

/// [`Escrow`] over plain values.
pub struct EscrowView {
    pub pass_name: Seq<char>,
    pub recipients: nat,
    pub ask: bool,
}

/// What does not change from step to step of setting up a card.
pub struct SetupView {
    pub guid: Seq<u8>,
    pub guid_hex: Seq<char>,
    pub serial: Option<u32>,
    pub reprovision: bool,
    pub escrow: Option<EscrowView>,
}

impl SetupView {
    /// The card as it is named to the operator.
    pub open spec fn card(self) -> CardIdView {
        CardIdView { guid: self.guid_hex, serial: self.serial, cn: None }
    }

    /// The name that a key is sealed under.
    pub open spec fn pass_name(self) -> Seq<char> {
        match self.escrow {
            Some(e) => e.pass_name,
            None => seq![],
        }
    }

    /// How many keys can read a sealed key.
    pub open spec fn recipients(self) -> nat {
        match self.escrow {
            Some(e) => e.recipients,
            None => 0,
        }
    }

    /// Whether a key can be sealed, and whether the operator is asked first.
    pub open spec fn mode(self) -> Option<bool> {
        match self.escrow {
            Some(e) => Some(e.ask),
            None => None,
        }
    }
}

/// Whether a key can be sealed, and whether the operator is asked first.
pub open spec fn escrow_mode(e: Option<Escrow>) -> Option<bool> {
    match e {
        Some(x) => Some(x.ask),
        None => None,
    }
}

fn start_of_step(n: u32) -> (r: Stage)
    ensures
        r@ == first_of_step(n),
{
    if n <= 1 {
        Stage::AdminAuth
    } else if n == 2 {
        Stage::WriteChuid
    } else if n == 3 {
        Stage::Generate(Slot::KeyMgmt)
    } else if n == 4 {
        Stage::Generate(Slot::PivAuth)
    } else if n == 5 {
        Stage::NewSecret(Code::Pin)
    } else {
        Stage::ChooseKey
    }
}

fn fail(e: ProvisionError) -> (r: Stage)
    ensures
        r@ == failed(e@),
{
    Stage::Complete(Ending::Failure(e))
}

fn unsealed(seal_required: bool) -> (r: Stage)
    ensures
        r@ == after_unsealed(seal_required),
{
    if seal_required {
        Stage::NoteUnsealed
    } else {
        Stage::Complete(Ending::Success(None, false))
    }
}

fn read_supplied_key(key: &str) -> (r: Result<Vec<u8>, String>)
    ensures
        match r {
            Ok(k) => supplied_key(key@) == Ok::<Seq<u8>, Seq<char>>(k@),
            Err(e) => supplied_key(key@) == Err::<Seq<u8>, Seq<char>>(e@),
        },
{
    match hex_decode(trim(key).as_str()) {
        Err(e) => Err(e),
        Ok(bytes) => {
            if bytes.len() != MGMT_KEY_LEN {
                return Err(cat2("expected 24 bytes, got ", dec_usize(bytes.len()).as_str()));
            }
            Ok(bytes)
        },
    }
}

fn next_stage(stage: Stage, ev: Event, escrow: Option<bool>) -> (r: Stage)
    requires
        fits(stage@, ev@),
    ensures
        r@ == next(stage@, ev@, escrow),
{
    let required: bool = match escrow {
        Some(ask) => !ask,
        None => false,
    };
    match (stage, ev) {
        (Stage::Confirm, Event::Answer(Ok(yes))) => {
            if yes {
                Stage::Step(1)
            } else {
                fail(ProvisionError::Aborted("declined at confirmation".to_owned()))
            }
        },
        (Stage::Confirm, Event::Answer(Err(f))) => fail(ProvisionError::Frontend(f)),
        (Stage::Step(n), _) => start_of_step(n),
        (Stage::AdminAuth, Event::Card(Ok(_))) => Stage::VerifyPin,
        (Stage::VerifyPin, Event::Card(Ok(_))) => Stage::Step(2),
        (Stage::WriteChuid, Event::Card(Ok(_))) => Stage::Step(3),
        (Stage::Generate(slot), Event::Bytes(Ok(p))) => Stage::Certify(slot, p),
        (Stage::Certify(slot, _), Event::Bytes(Ok(c))) => Stage::PutCert(slot, c),
        (Stage::PutCert(slot, _), Event::Card(Ok(_))) => match slot {
            Slot::KeyMgmt => Stage::Step(4),
            Slot::PivAuth => Stage::Step(5),
        },
        (Stage::NewSecret(c), Event::Secret(Ok(v))) => Stage::ConfirmSecret(c, v),
        (Stage::ConfirmSecret(c, first), Event::Secret(Ok(v))) => {
            let agree: bool = same(first.as_str(), v.as_str());
            discard(v);
            if agree {
                Stage::ChangeSecret(c, first)
            } else {
                discard(first);
                match c {
                    Code::Pin => fail(ProvisionError::PinMismatch),
                    Code::Puk => fail(ProvisionError::PukMismatch),
                }
            }
        },
        (Stage::NewSecret(_), Event::Secret(Err(f))) => fail(ProvisionError::Frontend(f)),
        (Stage::ConfirmSecret(_, first), Event::Secret(Err(f))) => {
            discard(first);
            fail(ProvisionError::Frontend(f))
        },
        (Stage::ChangeSecret(c, secret), Event::Card(done)) => {
            discard(secret);
            match (done, c) {
                (Err(e), _) => fail(ProvisionError::Card(e)),
                (Ok(_), Code::Pin) => Stage::NewSecret(Code::Puk),
                (Ok(_), Code::Puk) => Stage::Step(6),
            }
        },
        (Stage::ChooseKey, Event::Choice(Err(f))) => fail(ProvisionError::Frontend(f)),
        (Stage::ChooseKey, Event::Choice(Ok(MgmtKeyChoice::Default))) => unsealed(required),
        (Stage::ChooseKey, Event::Choice(Ok(MgmtKeyChoice::Hex { key }))) => {
            let supplied: Result<Vec<u8>, String> = read_supplied_key(key.as_str());
            discard(key);
            match supplied {
                Ok(k) => Stage::SetKey(k, KeyFate::Supplied),
                Err(e) => fail(ProvisionError::BadMgmtKey(e)),
            }
        },
        (Stage::ChooseKey, Event::Choice(Ok(MgmtKeyChoice::Random))) => Stage::RandomKey,
        (Stage::RandomKey, Event::Random(Err(e))) => fail(
            ProvisionError::BadMgmtKey(cat2("rng: ", e.as_str())),
        ),
        (Stage::RandomKey, Event::Random(Ok(k))) => match escrow {
            None => Stage::SetKey(k, KeyFate::Shown),
            Some(true) => Stage::OfferSeal(k),
            Some(false) => Stage::SealStep(k),
        },
        (Stage::OfferSeal(k), Event::Answer(Ok(true))) => Stage::SealStep(k),
        (Stage::OfferSeal(k), Event::Answer(_)) => Stage::SetKey(k, KeyFate::Shown),
        (Stage::SealStep(k), _) => Stage::Seal(k),
        (Stage::Seal(k), Event::Sealed(Ok(_))) => Stage::SetKey(k, KeyFate::Sealed),
        (Stage::Seal(k), Event::Sealed(Err(e))) => {
            discard_key(k);
            fail(ProvisionError::Seal(e))
        },
        (Stage::SetKey(k, fate), Event::Card(done)) => {
            let following: Stage = match (done, fate) {
                (Ok(_), KeyFate::Supplied) => unsealed(required),
                (Ok(_), KeyFate::Shown) => Stage::Complete(
                    Ending::Success(Some(hex_encode_upper(k.as_slice())), false),
                ),
                (Ok(_), KeyFate::Sealed) => Stage::Commit,
                (Err(e), KeyFate::Sealed) => Stage::Rollback(e),
                (Err(e), _) => fail(ProvisionError::Card(e)),
            };
            discard_key(k);
            following
        },
        (Stage::NoteUnsealed, _) => Stage::Complete(Ending::Success(None, false)),
        (Stage::Rollback(e), _) => fail(ProvisionError::Card(e)),
        (Stage::Commit, _) => Stage::Complete(Ending::Success(None, true)),
        (Stage::Complete(end), _) => Stage::Finished(end),
        (_, Event::Card(Err(e))) => fail(ProvisionError::Card(e)),
        (_, Event::Bytes(Err(e))) => fail(ProvisionError::Card(e)),
        (s, _) => s,
    }
}

impl Engine {
    /// Starts setting up a card.
    pub fn new(cfg: &ProvisionConfig, serial: Option<u32>, escrow: Option<Escrow>) -> (r: Engine)
        ensures
            r.guid == cfg.guid,
            r.guid_hex@ == hex_text(cfg.guid@, true),
            r.serial == serial,
            r.reprovision == cfg.reprovision,
            r.escrow == escrow,
            r.stage is Confirm,
    {
        Engine {
            guid: cfg.guid,
            guid_hex: hex_encode_upper(cfg.guid.as_slice()),
            serial,
            reprovision: cfg.reprovision,
            escrow,
            stage: Stage::Confirm,
        }
    }

    /// Takes what came of the last action.
    pub fn on(self, ev: Event) -> (r: Engine)
        requires
            fits(self.stage@, ev@),
        ensures
            r.stage@ == next(self.stage@, ev@, escrow_mode(self.escrow)),
            r.setup() == self.setup(),
            r.guid == self.guid,
            r.guid_hex == self.guid_hex,
            r.serial == self.serial,
            r.reprovision == self.reprovision,
            r.escrow == self.escrow,
    {
        let mode: Option<bool> = match &self.escrow {
            Some(e) => Some(e.ask),
            None => None,
        };
        let stage: Stage = next_stage(self.stage, ev, mode);
        Engine {
            guid: self.guid,
            guid_hex: self.guid_hex,
            serial: self.serial,
            reprovision: self.reprovision,
            escrow: self.escrow,
            stage,
        }
    }

    /// What does not change from step to step.
    pub open spec fn setup(self) -> SetupView {
        SetupView {
            guid: self.guid@,
            guid_hex: self.guid_hex@,
            serial: self.serial,
            reprovision: self.reprovision,
            escrow: match self.escrow {
                Some(e) => Some(EscrowView {
                    pass_name: e.pass_name@,
                    recipients: e.recipients as nat,
                    ask: e.ask,
                }),
                None => None,
            },
        }
    }

    fn card_id(&self) -> (r: CardId)
        ensures
            r@ == self.setup().card(),
    {
        CardId { guid: self.guid_hex.clone(), serial: self.serial, cn: None }
    }
}

// ----------------------------------------------------------------- actions

/// An operation on the card.
pub enum CardOp {
    /// With the factory management key.
    AuthenticateAdmin,
    VerifyPin(String),
    WriteChuid([u8; 16]),
    GenerateKey(u8, PivAlgorithm),
    /// A self-signed certificate for the slot's key, which the card signs.
    Certify { slot: u8, cn: String, point: Vec<u8> },
    PutCert(u8, Vec<u8>),
    ChangePin(String, String),
    ChangePuk(String, String),
    SetManagementKey(Vec<u8>),
}

/// [`CardOp`] over plain values.
pub enum CardOpView {
    AuthenticateAdmin,
    VerifyPin(Seq<char>),
    WriteChuid(Seq<u8>),
    GenerateKey(u8, PivAlgorithm),
    Certify(u8, Seq<char>, Seq<u8>),
    PutCert(u8, Seq<u8>),
    ChangePin(Seq<char>, Seq<char>),
    ChangePuk(Seq<char>, Seq<char>),
    SetManagementKey(Seq<u8>),
}

impl View for CardOp {
    type V = CardOpView;

    open spec fn view(&self) -> CardOpView {
        match self {
            CardOp::AuthenticateAdmin => CardOpView::AuthenticateAdmin,
            CardOp::VerifyPin(p) => CardOpView::VerifyPin(p@),
            CardOp::WriteChuid(g) => CardOpView::WriteChuid(g@),
            CardOp::GenerateKey(s, a) => CardOpView::GenerateKey(*s, *a),
            CardOp::Certify { slot, cn, point } => CardOpView::Certify(*slot, cn@, point@),
            CardOp::PutCert(s, c) => CardOpView::PutCert(*s, c@),
            CardOp::ChangePin(a, b) => CardOpView::ChangePin(a@, b@),
            CardOp::ChangePuk(a, b) => CardOpView::ChangePuk(a@, b@),
            CardOp::SetManagementKey(k) => CardOpView::SetManagementKey(k@),
        }
    }
}

/// What is to be done next.
pub enum Action {
    Progress(ProgressEvent),
    Confirm(ConfirmRequest),
    RequestSecret(SecretRequest),
    RequestMgmtKey(MgmtKeyRequest),
    Card(CardOp),
    RandomKey,
    /// Seal this key, in hexadecimal.
    Seal(String),
    Rollback,
    Commit,
    Completed(CompletedEvent),
    Finished,
}

/// [`Action`] over plain values.
pub enum ActionView {
    Progress(ProgressView),
    Confirm(Seq<char>, Option<bool>),
    RequestSecret(SecretView),
    RequestMgmtKey(Seq<char>, CardIdView),
    Card(CardOpView),
    RandomKey,
    Seal(Seq<char>),
    Rollback,
    Commit,
    Completed(CompletedView),
    Finished,
}

impl View for Action {
    type V = ActionView;

    open spec fn view(&self) -> ActionView {
        match self {
            Action::Progress(p) => ActionView::Progress(p@),
            Action::Confirm(c) => ActionView::Confirm(c.message@, c.default),
            Action::RequestSecret(s) => ActionView::RequestSecret(s@),
            Action::RequestMgmtKey(m) => ActionView::RequestMgmtKey(m.prompt@, m.card@),
            Action::Card(op) => ActionView::Card(op@),
            Action::RandomKey => ActionView::RandomKey,
            Action::Seal(k) => ActionView::Seal(k@),
            Action::Rollback => ActionView::Rollback,
            Action::Commit => ActionView::Commit,
            Action::Completed(c) => ActionView::Completed(c@),
            Action::Finished => ActionView::Finished,
        }
    }
}

/// The question before anything is touched. A card that is in use is told
/// apart: its keys are destroyed.
pub open spec fn confirm_message(card: CardIdView, reprovision: bool) -> Seq<char> {
    if reprovision {
        "Card "@ + label_of(card)
            + " is ALREADY PROVISIONED — reprovisioning DESTROYS its existing 9A + 9D keys and overwrites their certs (and resets PIN/PUK/management key). Proceed?"@
    } else {
        "Provision card "@ + label_of(card)
            + " — this generates new 9A + 9D keys and overwrites their certs. Proceed?"@
    }
}

/// The word and the words of each step.
pub open spec fn step_words(n: u32) -> (Seq<char>, Seq<char>) {
    if n <= 1 {
        ("admin-auth"@, "Authenticating management key"@)
    } else if n == 2 {
        ("write-chuid"@, "Writing CHUID"@)
    } else if n == 3 {
        ("generate-9d"@, "Generating key-management key (9D)"@)
    } else if n == 4 {
        ("generate-9a"@, "Generating authentication key (9A)"@)
    } else if n == 5 {
        ("change-secrets"@, "Setting new PIN and PUK"@)
    } else {
        ("rotate-mgmt-key"@, "Rotating management key"@)
    }
}

/// The number of a slot.
pub open spec fn slot_id(s: Slot) -> u8 {
    match s {
        Slot::KeyMgmt => SLOT_KEY_MGMT,
        Slot::PivAuth => SLOT_PIV_AUTH,
    }
}

/// The name in a slot's certificate.
pub open spec fn slot_name(s: Slot, guid_hex: Seq<char>) -> Seq<char> {
    match s {
        Slot::KeyMgmt => cn_of("piv-key-mgmt"@, guid_hex),
        Slot::PivAuth => cn_of("piv-auth"@, guid_hex),
    }
}

/// The question whether to seal a key.
pub open spec fn offer_message(card: CardIdView, pass_name: Seq<char>, n: nat) -> Seq<char> {
    "Seal "@ + label_of(card) + "'s new management key into the password store at "@ + pass_name
        + " ("@ + dec(n) + " recipient"@ + (if n == 1 {
        ""@
    } else {
        "s"@
    }) + ")? Otherwise it is shown once and is NOT recoverable."@
}

/// The notice that ends an operation.
pub open spec fn completed_of(e: EndingView, guid_hex: Seq<char>, pass_name: Seq<char>) -> CompletedView {
    match e {
        EndingView::Success(_, sealed) => CompletedView {
            status: CompletedStatus::Success,
            summary: Some(
                (
                    guid_hex,
                    if sealed {
                        Some(pass_name)
                    } else {
                        None
                    },
                ),
            ),
            error: None,
        },
        EndingView::Failure(x) => CompletedView {
            status: CompletedStatus::Error,
            summary: None,
            error: Some(error_text(x)),
        },
    }
}

/// A notice without a place among the counted steps.
pub open spec fn plain_notice(step: Seq<char>, message: Seq<char>) -> ActionView {
    ActionView::Progress(ProgressView { step, message, current: None, total: None })
}

/// A request for a secret of the card, with nothing more to say of it.
pub open spec fn secret_request(kind: SecretKind, prompt: Seq<char>, card: CardIdView)
    -> ActionView {
    ActionView::RequestSecret(
        SecretView {
            kind,
            prompt,
            card: Some(card),
            slot: None,
            attempts_remaining: None,
            detail: None,
        },
    )
}

impl SetupView {
    /// What is to be done at a stage.
    pub open spec fn action(self, stage: StageView) -> ActionView {
        let card = self.card();
        match stage {
            StageView::Confirm => ActionView::Confirm(
                confirm_message(card, self.reprovision),
                Some(false),
            ),
            StageView::Step(n) => ActionView::Progress(
                ProgressView {
                    step: step_words(n).0,
                    message: step_words(n).1,
                    current: Some(n),
                    total: Some(TOTAL_STEPS),
                },
            ),
            StageView::AdminAuth => ActionView::Card(CardOpView::AuthenticateAdmin),
            StageView::VerifyPin => ActionView::Card(CardOpView::VerifyPin(DEFAULT_PIN@)),
            StageView::WriteChuid => ActionView::Card(CardOpView::WriteChuid(self.guid)),
            StageView::Generate(s) => ActionView::Card(
                CardOpView::GenerateKey(slot_id(s), PivAlgorithm::EcP256),
            ),
            StageView::Certify(s, p) => ActionView::Card(
                CardOpView::Certify(slot_id(s), slot_name(s, self.guid_hex), p),
            ),
            StageView::PutCert(s, c) => ActionView::Card(CardOpView::PutCert(slot_id(s), c)),
            StageView::NewSecret(Code::Pin) => secret_request(
                SecretKind::NewPin,
                "Choose a new PIN"@,
                card,
            ),
            StageView::NewSecret(Code::Puk) => secret_request(
                SecretKind::NewPuk,
                "Choose a new PUK"@,
                card,
            ),
            StageView::ConfirmSecret(Code::Pin, _) => secret_request(
                SecretKind::ConfirmNewPin,
                "Re-enter to confirm"@,
                card,
            ),
            StageView::ConfirmSecret(Code::Puk, _) => secret_request(
                SecretKind::ConfirmNewPuk,
                "Re-enter to confirm"@,
                card,
            ),
            StageView::ChangeSecret(Code::Pin, n) => ActionView::Card(
                CardOpView::ChangePin(DEFAULT_PIN@, n),
            ),
            StageView::ChangeSecret(Code::Puk, n) => ActionView::Card(
                CardOpView::ChangePuk(DEFAULT_PUK@, n),
            ),
            StageView::ChooseKey => ActionView::RequestMgmtKey(
                "Management key for the card"@,
                card,
            ),
            StageView::RandomKey => ActionView::RandomKey,
            StageView::OfferSeal(_) => ActionView::Confirm(
                offer_message(card, self.pass_name(), self.recipients()),
                Some(false),
            ),
            StageView::SealStep(_) => plain_notice(
                "seal-mgmt-key"@,
                "Sealing management key to "@ + self.pass_name(),
            ),
            StageView::Seal(k) => ActionView::Seal(hex_text(k, true)),
            StageView::SetKey(k, _) => ActionView::Card(CardOpView::SetManagementKey(k)),
            StageView::NoteUnsealed => plain_notice(
                "seal-skipped"@,
                "Management key not sealed: only a generated (random) key is escrowed"@,
            ),
            StageView::Rollback(_) => ActionView::Rollback,
            StageView::Commit => ActionView::Commit,
            StageView::Complete(e) => ActionView::Completed(
                completed_of(e, self.guid_hex, self.pass_name()),
            ),
            StageView::Finished(_) => ActionView::Finished,
        }
    }
}

impl Engine {
    fn secret_action(&self, kind: SecretKind, prompt: &str) -> (r: Action)
        ensures
            r@ == secret_request(kind, prompt@, self.setup().card()),
    {
        Action::RequestSecret(
            SecretRequest {
                kind,
                prompt: prompt.to_owned(),
                card: Some(self.card_id()),
                slot: None,
                attempts_remaining: None,
                detail: None,
            },
        )
    }

    fn notice(&self, step: &str, message: String) -> (r: Action)
        ensures
            r@ == plain_notice(step@, message@),
    {
        Action::Progress(
            ProgressEvent { step: step.to_owned(), message, current: None, total: None },
        )
    }

    fn escrow_name(&self) -> (r: String)
        ensures
            r@ == self.setup().pass_name(),
    {
        match &self.escrow {
            Some(e) => e.pass_name.clone(),
            None => {
                let s: String = String::new();
                assert(s@ =~= seq![]);
                s
            },
        }
    }

    fn offer_action(&self) -> (r: Action)
        ensures
            r@ == ActionView::Confirm(
                offer_message(
                    self.setup().card(),
                    self.setup().pass_name(),
                    self.setup().recipients(),
                ),
                Some(false),
            ),
    {
        let n: usize = match &self.escrow {
            Some(e) => e.recipients,
            None => 0,
        };
        let mut s: String = cat5(
            "Seal ",
            self.card_id().short_label().as_str(),
            "'s new management key into the password store at ",
            self.escrow_name().as_str(),
            " (",
        );
        s.append(dec_usize(n).as_str());
        s.append(" recipient");
        if n == 1 {
            s.append("");
        } else {
            s.append("s");
        }
        s.append(")? Otherwise it is shown once and is NOT recoverable.");
        Action::Confirm(ConfirmRequest { message: s, default: Some(false) })
    }

    fn step_action(&self, n: u32) -> (r: Action)
        ensures
            r@ == ActionView::Progress(
                ProgressView {
                    step: step_words(n).0,
                    message: step_words(n).1,
                    current: Some(n),
                    total: Some(TOTAL_STEPS),
                },
            ),
    {
        let (step, message): (&str, &str) = if n <= 1 {
            ("admin-auth", "Authenticating management key")
        } else if n == 2 {
            ("write-chuid", "Writing CHUID")
        } else if n == 3 {
            ("generate-9d", "Generating key-management key (9D)")
        } else if n == 4 {
            ("generate-9a", "Generating authentication key (9A)")
        } else if n == 5 {
            ("change-secrets", "Setting new PIN and PUK")
        } else {
            ("rotate-mgmt-key", "Rotating management key")
        };
        Action::Progress(
            ProgressEvent {
                step: step.to_owned(),
                message: message.to_owned(),
                current: Some(n),
                total: Some(TOTAL_STEPS),
            },
        )
    }

    fn completed_action(&self, end: &Ending) -> (r: Action)
        ensures
            r@ == ActionView::Completed(
                completed_of(end@, self.guid_hex@, self.setup().pass_name()),
            ),
    {
        match end {
            Ending::Success(_, sealed) => {
                let name: Option<String> = if *sealed {
                    Some(self.escrow_name())
                } else {
                    None
                };
                Action::Completed(
                    CompletedEvent {
                        status: CompletedStatus::Success,
                        summary: Some(
                            Summary { guid: self.guid_hex.clone(), sealed_management_key: name },
                        ),
                        error: None,
                    },
                )
            },
            Ending::Failure(e) => Action::Completed(
                CompletedEvent {
                    status: CompletedStatus::Error,
                    summary: None,
                    error: Some(e.text()),
                },
            ),
        }
    }

    /// Decides what is to be done next.
    pub fn action(&self) -> (r: Action)
        ensures
            r@ == self.setup().action(self.stage@),
    {
        match &self.stage {
            Stage::Confirm => {
                let label: String = self.card_id().short_label();
                let message: String = if self.reprovision {
                    cat3(
                        "Card ",
                        label.as_str(),
                        " is ALREADY PROVISIONED — reprovisioning DESTROYS its existing 9A + 9D keys and overwrites their certs (and resets PIN/PUK/management key). Proceed?",
                    )
                } else {
                    cat3(
                        "Provision card ",
                        label.as_str(),
                        " — this generates new 9A + 9D keys and overwrites their certs. Proceed?",
                    )
                };
                Action::Confirm(ConfirmRequest { message, default: Some(false) })
            },
            Stage::Step(n) => self.step_action(*n),
            Stage::AdminAuth => Action::Card(CardOp::AuthenticateAdmin),
            Stage::VerifyPin => Action::Card(CardOp::VerifyPin(DEFAULT_PIN.to_owned())),
            Stage::WriteChuid => Action::Card(CardOp::WriteChuid(self.guid)),
            Stage::Generate(Slot::KeyMgmt) => Action::Card(
                CardOp::GenerateKey(SLOT_KEY_MGMT, PivAlgorithm::EcP256),
            ),
            Stage::Generate(Slot::PivAuth) => Action::Card(
                CardOp::GenerateKey(SLOT_PIV_AUTH, PivAlgorithm::EcP256),
            ),
            Stage::Certify(Slot::KeyMgmt, p) => Action::Card(
                CardOp::Certify {
                    slot: SLOT_KEY_MGMT,
                    cn: slot_cn("piv-key-mgmt", self.guid_hex.as_str()),
                    point: slice_to_vec(p.as_slice()),
                },
            ),
            Stage::Certify(Slot::PivAuth, p) => Action::Card(
                CardOp::Certify {
                    slot: SLOT_PIV_AUTH,
                    cn: slot_cn("piv-auth", self.guid_hex.as_str()),
                    point: slice_to_vec(p.as_slice()),
                },
            ),
            Stage::PutCert(Slot::KeyMgmt, c) => Action::Card(
                CardOp::PutCert(SLOT_KEY_MGMT, slice_to_vec(c.as_slice())),
            ),
            Stage::PutCert(Slot::PivAuth, c) => Action::Card(
                CardOp::PutCert(SLOT_PIV_AUTH, slice_to_vec(c.as_slice())),
            ),
            Stage::NewSecret(Code::Pin) => self.secret_action(
                SecretKind::NewPin,
                "Choose a new PIN",
            ),
            Stage::NewSecret(Code::Puk) => self.secret_action(
                SecretKind::NewPuk,
                "Choose a new PUK",
            ),
            Stage::ConfirmSecret(Code::Pin, _) => self.secret_action(
                SecretKind::ConfirmNewPin,
                "Re-enter to confirm",
            ),
            Stage::ConfirmSecret(Code::Puk, _) => self.secret_action(
                SecretKind::ConfirmNewPuk,
                "Re-enter to confirm",
            ),
            Stage::ChangeSecret(Code::Pin, n) => Action::Card(
                CardOp::ChangePin(DEFAULT_PIN.to_owned(), n.clone()),
            ),
            Stage::ChangeSecret(Code::Puk, n) => Action::Card(
                CardOp::ChangePuk(DEFAULT_PUK.to_owned(), n.clone()),
            ),
            Stage::ChooseKey => Action::RequestMgmtKey(
                MgmtKeyRequest {
                    prompt: "Management key for the card".to_owned(),
                    card: self.card_id(),
                },
            ),
            Stage::RandomKey => Action::RandomKey,
            Stage::OfferSeal(_) => self.offer_action(),
            Stage::SealStep(_) => self.notice(
                "seal-mgmt-key",
                cat2("Sealing management key to ", self.escrow_name().as_str()),
            ),
            Stage::Seal(k) => Action::Seal(hex_encode_upper(k.as_slice())),
            Stage::SetKey(k, _) => Action::Card(
                CardOp::SetManagementKey(slice_to_vec(k.as_slice())),
            ),
            Stage::NoteUnsealed => self.notice(
                "seal-skipped",
                "Management key not sealed: only a generated (random) key is escrowed".to_owned(),
            ),
            Stage::Rollback(_) => Action::Rollback,
            Stage::Commit => Action::Commit,
            Stage::Complete(e) => self.completed_action(e),
            Stage::Finished(_) => Action::Finished,
        }
    }

    /// What setting up the card came to.
    pub fn outcome(self) -> (r: Result<ProvisionOutcome, ProvisionError>)
        requires
            self.stage is Finished,
        ensures
            match self.stage->Finished_0 {
                Ending::Success(key, sealed) => {
                    &&& r is Ok
                    &&& r->Ok_0.guid == self.guid_hex
                    &&& r->Ok_0.generated_mgmt_key == key
                    &&& r->Ok_0.sealed_mgmt_key is Some == sealed
                    &&& sealed ==> r->Ok_0.sealed_mgmt_key->0.pass_name@
                        == self.setup().pass_name() && r->Ok_0.sealed_mgmt_key->0.recipients
                        == self.setup().recipients()
                },
                Ending::Failure(e) => r == Err::<ProvisionOutcome, ProvisionError>(e),
            },
    {
        let name: String = self.escrow_name();
        let n: usize = match &self.escrow {
            Some(e) => e.recipients,
            None => 0,
        };
        match self.stage {
            Stage::Finished(Ending::Success(key, sealed)) => Ok(
                ProvisionOutcome {
                    guid: self.guid_hex,
                    generated_mgmt_key: key,
                    sealed_mgmt_key: if sealed {
                        Some(SealedKey { pass_name: name, recipients: n })
                    } else {
                        None
                    },
                },
            ),
            Stage::Finished(Ending::Failure(e)) => Err(e),
            _ => Err(ProvisionError::Setup("unfinished".to_owned())),
        }
    }
}

// --------------------------------------------------------------------- run

/// One thing that was asked for, and the answer.
pub struct Exchange {
    pub asked: ActionView,
    pub answer: EventView,
}

/// The card that is set up. An error is given by its words.
pub trait ProvisionCard: Sized {
    /// The serial number, for naming the card to the operator.
    open spec fn number(&self) -> Option<u32> {
        untold(*self)
    }

    /// What was asked of the card so far, each with the answer.
    open spec fn done(&self) -> Seq<Exchange> {
        untold(*self)
    }

    /// The serial number, for naming the card to the operator.
    fn serial(&self) -> (r: Option<u32>)
        ensures
            r == self.number(),
    ;

    /// Authenticates with the factory management key.
    fn authenticate_admin(&mut self) -> (r: Result<(), String>)
        ensures
            final(self).done() == old(self).done().push(
                Exchange {
                    asked: ActionView::Card(CardOpView::AuthenticateAdmin),
                    answer: Event::Card(r)@,
                },
            ),
    ;

    /// Verifies the PIN, so that the card can sign.
    fn verify_pin(&mut self, pin: &str) -> (r: Result<(), String>)
        ensures
            final(self).done() == old(self).done().push(
                Exchange {
                    asked: ActionView::Card(CardOpView::VerifyPin(pin@)),
                    answer: Event::Card(r)@,
                },
            ),
    ;

    /// Writes the card's identifier.
    fn write_chuid(&mut self, guid: &[u8; 16]) -> (r: Result<(), String>)
        ensures
            final(self).done() == old(self).done().push(
                Exchange {
                    asked: ActionView::Card(CardOpView::WriteChuid(guid@)),
                    answer: Event::Card(r)@,
                },
            ),
    ;

    /// Makes a key in a slot; its public point, uncompressed.
    fn generate_key(&mut self, slot: u8, alg: PivAlgorithm) -> (r: Result<Vec<u8>, String>)
        ensures
            final(self).done() == old(self).done().push(
                Exchange {
                    asked: ActionView::Card(CardOpView::GenerateKey(slot, alg)),
                    answer: Event::Bytes(r)@,
                },
            ),
    ;

    /// Makes the certificate of a slot's key, which the card itself signs.
    fn self_signed_cert(&mut self, slot: u8, cn: &str, point: &Vec<u8>) -> (r: Result<Vec<u8>, String>)
        ensures
            final(self).done() == old(self).done().push(
                Exchange {
                    asked: ActionView::Card(CardOpView::Certify(slot, cn@, point@)),
                    answer: Event::Bytes(r)@,
                },
            ),
    ;

    /// Writes a slot's certificate.
    fn put_cert(&mut self, slot: u8, cert_der: &Vec<u8>) -> (r: Result<(), String>)
        ensures
            final(self).done() == old(self).done().push(
                Exchange {
                    asked: ActionView::Card(CardOpView::PutCert(slot, cert_der@)),
                    answer: Event::Card(r)@,
                },
            ),
    ;

    /// Changes the PIN.
    fn change_pin(&mut self, old_pin: &str, new_pin: &str) -> (r: Result<(), String>)
        ensures
            final(self).done() == old(self).done().push(
                Exchange {
                    asked: ActionView::Card(CardOpView::ChangePin(old_pin@, new_pin@)),
                    answer: Event::Card(r)@,
                },
            ),
    ;

    /// Changes the PUK.
    fn change_puk(&mut self, old_puk: &str, new_puk: &str) -> (r: Result<(), String>)
        ensures
            final(self).done() == old(self).done().push(
                Exchange {
                    asked: ActionView::Card(CardOpView::ChangePuk(old_puk@, new_puk@)),
                    answer: Event::Card(r)@,
                },
            ),
    ;

    /// Replaces the management key.
    fn set_management_key_3des(&mut self, key: &Vec<u8>) -> (r: Result<(), String>)
        ensures
            final(self).done() == old(self).done().push(
                Exchange {
                    asked: ActionView::Card(CardOpView::SetManagementKey(key@)),
                    answer: Event::Card(r)@,
                },
            ),
    ;
}

/// What can happen between the start and a stage.
pub open spec fn played(evs: Seq<EventView>, escrow: Option<bool>) -> StageView
    decreases evs.len(),
{
    if evs.len() == 0 {
        StageView::Confirm
    } else {
        next(played(evs.drop_last(), escrow), evs.last(), escrow)
    }
}

/// Whether each event answers what was asked for at its time.
pub open spec fn playable(evs: Seq<EventView>, escrow: Option<bool>) -> bool
    decreases evs.len(),
{
    evs.len() == 0 || (playable(evs.drop_last(), escrow) && fits(
        played(evs.drop_last(), escrow),
        evs.last(),
    ))
}

/// How far the operation has got.
pub open spec fn rank(s: StageView) -> nat {
    match s {
        StageView::Confirm => 0,
        StageView::Step(n) => if n <= 1 {
            1
        } else if n == 2 {
            4
        } else if n == 3 {
            6
        } else if n == 4 {
            10
        } else if n == 5 {
            14
        } else {
            21
        },
        StageView::AdminAuth => 2,
        StageView::VerifyPin => 3,
        StageView::WriteChuid => 5,
        StageView::Generate(Slot::KeyMgmt) => 7,
        StageView::Certify(Slot::KeyMgmt, _) => 8,
        StageView::PutCert(Slot::KeyMgmt, _) => 9,
        StageView::Generate(Slot::PivAuth) => 11,
        StageView::Certify(Slot::PivAuth, _) => 12,
        StageView::PutCert(Slot::PivAuth, _) => 13,
        StageView::NewSecret(Code::Pin) => 15,
        StageView::ConfirmSecret(Code::Pin, _) => 16,
        StageView::ChangeSecret(Code::Pin, _) => 17,
        StageView::NewSecret(Code::Puk) => 18,
        StageView::ConfirmSecret(Code::Puk, _) => 19,
        StageView::ChangeSecret(Code::Puk, _) => 20,
        StageView::ChooseKey => 22,
        StageView::RandomKey => 23,
        StageView::OfferSeal(_) => 24,
        StageView::SealStep(_) => 25,
        StageView::Seal(_) => 26,
        StageView::SetKey(_, _) => 27,
        StageView::NoteUnsealed => 28,
        StageView::Rollback(_) => 28,
        StageView::Commit => 28,
        StageView::Complete(_) => 29,
        StageView::Finished(_) => 30,
    }
}

/// The answers of a run, in order.
pub open spec fn answers(x: Seq<Exchange>) -> Seq<EventView> {
    x.map_values(|e: Exchange| e.answer)
}

/// The stage that a run has come to.
pub open spec fn reached(x: Seq<Exchange>, setup: SetupView) -> StageView {
    played(answers(x), setup.mode())
}

/// Whether a run goes by the rules: what was asked for is what its stage asks
/// for, and each answer is one to that.
pub open spec fn goes_by(x: Seq<Exchange>, setup: SetupView) -> bool
    decreases x.len(),
{
    x.len() == 0 || {
        let before = reached(x.drop_last(), setup);
        &&& goes_by(x.drop_last(), setup)
        &&& x.last().asked == setup.action(before)
        &&& fits(before, x.last().answer)
    }
}

/// Who is asked.
pub enum Side {
    Card,
    Operator,
    Store,
    /// Nobody: a key is made up.
    Chance,
}

/// Who an action goes to.
pub open spec fn side_of(a: ActionView) -> Side {
    match a {
        ActionView::Card(_) => Side::Card,
        ActionView::RandomKey => Side::Chance,
        ActionView::Seal(_) => Side::Store,
        ActionView::Rollback => Side::Store,
        ActionView::Commit => Side::Store,
        _ => Side::Operator,
    }
}

/// The part of a run that one side takes part in.
pub open spec fn part(x: Seq<Exchange>, side: Side) -> Seq<Exchange>
    decreases x.len(),
{
    if x.len() == 0 {
        seq![]
    } else if side_of(x.last().asked) == side {
        part(x.drop_last(), side).push(x.last())
    } else {
        part(x.drop_last(), side)
    }
}

/// A run that goes by the rules has answers that fit.
pub proof fn lemma_answers_fit(x: Seq<Exchange>, setup: SetupView)
    requires
        goes_by(x, setup),
    ensures
        playable(answers(x), setup.mode()),
    decreases x.len(),
{
    if x.len() > 0 {
        lemma_answers_fit(x.drop_last(), setup);
        assert(answers(x).drop_last() =~= answers(x.drop_last()));
    }
}

/// One more exchange that goes by the rules.
pub proof fn lemma_one_more(x: Seq<Exchange>, e: Exchange, setup: SetupView)
    requires
        goes_by(x, setup),
        e.asked == setup.action(reached(x, setup)),
        fits(reached(x, setup), e.answer),
    ensures
        goes_by(x.push(e), setup),
        reached(x.push(e), setup) == next(reached(x, setup), e.answer, setup.mode()),
        rank(reached(x.push(e), setup)) > rank(reached(x, setup)),
        rank(reached(x, setup)) < 30,
        forall|side: Side| #[trigger]
            part(x.push(e), side) == if side_of(e.asked) == side {
                part(x, side).push(e)
            } else {
                part(x, side)
            },
{
    let y = x.push(e);
    assert(y.drop_last() =~= x);
    assert(answers(y).drop_last() =~= answers(x));
    assert(answers(y).last() == e.answer);
    lemma_answers_fit(x, setup);
    law_setup_advances(answers(x), e.answer, setup.mode());
}

/// Whether a result is the one that an ending stands for.
pub open spec fn is_outcome(
    r: Result<ProvisionOutcome, ProvisionError>,
    end: EndingView,
    setup: SetupView,
) -> bool {
    match end {
        EndingView::Success(key, sealed) => {
            &&& r is Ok
            &&& r->Ok_0.guid@ == setup.guid_hex
            &&& opt_text(r->Ok_0.generated_mgmt_key) == key
            &&& r->Ok_0.sealed_mgmt_key is Some == sealed
            &&& sealed ==> r->Ok_0.sealed_mgmt_key->0.pass_name@ == setup.pass_name()
                && r->Ok_0.sealed_mgmt_key->0.recipients == setup.recipients()
        },
        EndingView::Failure(e) => r is Err && r->Err_0@ == e,
    }
}

fn do_card_op<C: ProvisionCard>(card: &mut C, op: CardOp) -> (r: Event)
    ensures
        final(card).done() == old(card).done().push(
            Exchange { asked: ActionView::Card(op@), answer: r@ },
        ),
        match op {
            CardOp::GenerateKey(_, _) => r is Bytes,
            CardOp::Certify { .. } => r is Bytes,
            _ => r is Card,
        },
{
    match op {
        CardOp::AuthenticateAdmin => Event::Card(card.authenticate_admin()),
        CardOp::VerifyPin(pin) => Event::Card(card.verify_pin(pin.as_str())),
        CardOp::WriteChuid(guid) => Event::Card(card.write_chuid(&guid)),
        CardOp::GenerateKey(slot, alg) => Event::Bytes(card.generate_key(slot, alg)),
        CardOp::Certify { slot, cn, point } => Event::Bytes(
            card.self_signed_cert(slot, cn.as_str(), &point),
        ),
        CardOp::PutCert(slot, cert) => Event::Card(card.put_cert(slot, &cert)),
        CardOp::ChangePin(o, n) => {
            let done: Result<(), String> = card.change_pin(o.as_str(), n.as_str());
            discard(n);
            Event::Card(done)
        },
        CardOp::ChangePuk(o, n) => {
            let done: Result<(), String> = card.change_puk(o.as_str(), n.as_str());
            discard(n);
            Event::Card(done)
        },
        CardOp::SetManagementKey(key) => {
            let done: Result<(), String> = card.set_management_key_3des(&key);
            discard_key(key);
            Event::Card(done)
        },
    }
}

/// What a card is set up with: the identifier that it gets, the serial number
/// that it has, and the place for its key.
pub open spec fn setup_of(
    cfg: ProvisionConfig,
    serial: Option<u32>,
    pass_name: Seq<char>,
    recipients: nat,
    ask: Option<bool>,
) -> SetupView {
    SetupView {
        guid: cfg.guid@,
        guid_hex: hex_text(cfg.guid@, true),
        serial,
        reprovision: cfg.reprovision,
        escrow: match ask {
            Some(ask) => Some(EscrowView { pass_name, recipients, ask }),
            None => None,
        },
    }
}

/// Sets up a card: does what the engine asks for until it is finished.
/// `ask` says whether a made-up management key can be sealed into `sink` and,
/// if so, whether the operator is asked first. The card, the operator and the
/// store were each asked for exactly their part of one run that goes by the
/// rules, and what comes back is the outcome of that run.
pub fn run<C: ProvisionCard, F: Frontend, E: KeyEscrow>(
    card: &mut C,
    fe: &mut F,
    cfg: &ProvisionConfig,
    sink: &mut E,
    ask: Option<bool>,
) -> (r: Result<ProvisionOutcome, ProvisionError>)
    ensures
        ({
            let setup = setup_of(
                *cfg,
                old(card).number(),
                old(sink).name(),
                old(sink).readers().len(),
                ask,
            );
            exists|x: Seq<Exchange>| #[trigger]
                goes_by(x, setup) && reached(x, setup) is Finished && is_outcome(
                    r,
                    reached(x, setup)->Finished_0,
                    setup,
                ) && final(card).done() == old(card).done() + part(x, Side::Card)
                    && final(fe).heard() == old(fe).heard() + part(x, Side::Operator)
                    && final(sink).kept() == old(sink).kept() + part(x, Side::Store)
        }),
{
    let ghost setup = setup_of(
        *cfg,
        card.number(),
        sink.name(),
        sink.readers().len(),
        ask,
    );
    let escrow: Option<Escrow> = match ask {
        Some(a) => Some(
            Escrow { pass_name: sink.pass_name(), recipients: sink.recipients().len(), ask: a },
        ),
        None => None,
    };
    let mut engine: Engine = Engine::new(cfg, card.serial(), escrow);
    let ghost mut x: Seq<Exchange> = seq![];
    proof {
        assert(answers(x) =~= seq![]);
        assert(card.done() + part(x, Side::Card) =~= card.done());
        assert(fe.heard() + part(x, Side::Operator) =~= fe.heard());
        assert(sink.kept() + part(x, Side::Store) =~= sink.kept());
    }
    loop
        invariant
            engine.setup() == setup,
            goes_by(x, setup),
            reached(x, setup) == engine.stage@,
            setup == setup_of(
                *cfg,
                old(card).number(),
                old(sink).name(),
                old(sink).readers().len(),
                ask,
            ),
            card.done() == old(card).done() + part(x, Side::Card),
            fe.heard() == old(fe).heard() + part(x, Side::Operator),
            sink.kept() == old(sink).kept() + part(x, Side::Store),
        decreases 31 - rank(engine.stage@),
    {
        let action: Action = engine.action();
        let ghost asked = action@;
        let ev: Event = match action {
            Action::Progress(p) => {
                fe.progress(p);
                Event::Done
            },
            Action::Confirm(q) => Event::Answer(fe.confirm(q)),
            Action::RequestSecret(q) => Event::Secret(fe.request_secret(q)),
            Action::RequestMgmtKey(q) => Event::Choice(fe.request_mgmt_key(q)),
            Action::Card(op) => do_card_op(card, op),
            Action::RandomKey => Event::Random(random_bytes(MGMT_KEY_LEN)),
            Action::Seal(key_hex) => {
                let sealed: Result<(), String> = sink.seal(key_hex.as_str());
                discard(key_hex);
                Event::Sealed(sealed)
            },
            Action::Rollback => {
                sink.rollback();
                Event::Done
            },
            Action::Commit => {
                sink.commit();
                Event::Done
            },
            Action::Completed(c) => {
                fe.completed(c);
                Event::Done
            },
            Action::Finished => {
                return engine.outcome();
            },
        };
        proof {
            let e = Exchange { asked, answer: ev@ };
            lemma_answers_fit(x, setup);
            law_stages_are_sound(answers(x), ask);
            lemma_one_more(x, e, setup);
            let y = x.push(e);
            assert(card.done() =~= old(card).done() + part(y, Side::Card));
            assert(fe.heard() =~= old(fe).heard() + part(y, Side::Operator));
            assert(sink.kept() =~= old(sink).kept() + part(y, Side::Store));
            x = y;
        }
        engine = engine.on(ev);
    }
}

} // verus!
