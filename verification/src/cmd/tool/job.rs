//! An operation of `piggy tool` from the first step to the last. The job
//! says what is to be done next and takes what came of it; a step that
//! failed ends it.
use crate::cmd::tool::{
    can_ecdh, card_choice, change_sources, cmd_change_secret, cmd_pubkey,
    cmd_reset_pin, comment_of, digest_outcome, get_pin, is_subject, op_name,
    parse_openssh_ec_point, pem_error, pin_source, point_of_key, print_cert_pem, reset_sources, secret_source, select_token, sign_digest, slot_arg,
    slot_outcome, ChangeOutcome, Credential, CredentialView, Invocation, InvocationView, Secret,
    ToolOp,
};
use crate::crypto::{discard, openssh_key_of, openssh_line_of, pem_of, KeyView, PublicKey};
use crate::piv::{Guid, PivAlgorithm};
use crate::text::{cat2, cat3, cat4, dec, hex2, hex2_str, trimmed};
use vstd::prelude::*;

verus! {

// ------------------------------------------------------------------ stages

/// What is to be done next.
pub enum JobStage {
    /// The cards have to be listed.
    Cards,
    /// The job's slot has to be read on the card with this GUID.
    Slot { guid: Guid },
    /// The data to sign has to be read, for a key of this algorithm.
    Data { algorithm: PivAlgorithm },
    /// The public key of the other side has to be read.
    PeerKey,
    /// The PIN has to be asked for.
    Pin { material: Vec<u8>, prompt: String, context: String },
    /// A session has to begin on the card.
    Session { material: Vec<u8>, pin: String },
    /// The PIN has to be verified.
    Verify { material: Vec<u8>, pin: String },
    /// The key has to be used: on a digest to sign or a point to derive with.
    Use { material: Vec<u8> },
    /// The result has to be written.
    Write { bytes: Vec<u8> },
    /// The card has to attest to the key of the job's slot.
    Attest,
    /// A text has to be printed.
    Print { text: String, last: bool },
    /// The slot of the card's own certificate has to be read.
    Device,
    /// The current credential has to be asked for.
    Current { prompt: String, context: String },
    /// The new credential has to be asked for.
    New { current: String, prompt: String, context: String },
    /// The cards have to be listed, to change a credential.
    ChangeCards { current: String, new: String },
    /// A session has to begin on the card, to change a credential.
    ChangeSession { current: String, new: String },
    /// The credential has to be changed.
    Change { current: String, new: String },
    /// Nothing is left to do; the exit code and what is said.
    Ended { code: i32, said: Option<String> },
}

/// [`JobStage`] over plain values.
pub enum StageView {
    Cards,
    Slot(Seq<u8>),
    Data(PivAlgorithm),
    PeerKey,
    Pin(Seq<u8>, Seq<char>, Seq<char>),
    Session(Seq<u8>, Seq<char>),
    Verify(Seq<u8>, Seq<char>),
    Use(Seq<u8>),
    Write(Seq<u8>),
    Attest,
    Print(Seq<char>, bool),
    Device,
    Current(Seq<char>, Seq<char>),
    New(Seq<char>, Seq<char>, Seq<char>),
    ChangeCards(Seq<char>, Seq<char>),
    ChangeSession(Seq<char>, Seq<char>),
    Change(Seq<char>, Seq<char>),
    Ended(int, Option<Seq<char>>),
}

impl View for JobStage {
    type V = StageView;

    open spec fn view(&self) -> StageView {
        match self {
            JobStage::Cards => StageView::Cards,
            JobStage::Slot { guid } => StageView::Slot(guid@),
            JobStage::Data { algorithm } => StageView::Data(*algorithm),
            JobStage::PeerKey => StageView::PeerKey,
            JobStage::Pin { material, prompt, context } => StageView::Pin(
                material@,
                prompt@,
                context@,
            ),
            JobStage::Session { material, pin } => StageView::Session(material@, pin@),
            JobStage::Verify { material, pin } => StageView::Verify(material@, pin@),
            JobStage::Use { material } => StageView::Use(material@),
            JobStage::Write { bytes } => StageView::Write(bytes@),
            JobStage::Attest => StageView::Attest,
            JobStage::Print { text, last } => StageView::Print(text@, *last),
            JobStage::Device => StageView::Device,
            JobStage::Current { prompt, context } => StageView::Current(prompt@, context@),
            JobStage::New { current, prompt, context } => StageView::New(
                current@,
                prompt@,
                context@,
            ),
            JobStage::ChangeCards { current, new } => StageView::ChangeCards(current@, new@),
            JobStage::ChangeSession { current, new } => StageView::ChangeSession(current@, new@),
            JobStage::Change { current, new } => StageView::Change(current@, new@),
            JobStage::Ended { code, said } => StageView::Ended(
                *code as int,
                crate::text::opt_text(*said),
            ),
        }
    }
}

/// What was read from a slot.
pub struct SlotRead {
    pub algorithm: PivAlgorithm,
    pub cert_der: Vec<u8>,
    pub key: PublicKey,
}

/// [`SlotRead`] over plain values.
pub struct SlotView {
    pub algorithm: PivAlgorithm,
    pub cert_der: Seq<u8>,
    pub key: KeyView,
}

impl View for SlotRead {
    type V = SlotView;

    open spec fn view(&self) -> SlotView {
        SlotView { algorithm: self.algorithm, cert_der: self.cert_der@, key: self.key@ }
    }
}

/// What came of a step; a step that failed comes with the words for it.
pub enum JobEvent {
    Cards(Result<Vec<Guid>, String>),
    Slot(Result<SlotRead, String>),
    Data(Result<Vec<u8>, String>),
    PeerKey(Result<String, String>),
    Secret(Result<String, String>),
    Done(Result<(), String>),
    Output(Result<Vec<u8>, String>),
    Printed,
    Changed(ChangeOutcome),
}

/// [`ChangeOutcome`] over plain values.
pub enum ChangeView {
    Done,
    Incorrect(nat),
    Failed(Seq<char>),
}

/// [`JobEvent`] over plain values.
pub enum EventView {
    Cards(Result<Seq<Guid>, Seq<char>>),
    Slot(Result<SlotView, Seq<char>>),
    Data(Result<Seq<u8>, Seq<char>>),
    PeerKey(Result<Seq<char>, Seq<char>>),
    Secret(Result<Seq<char>, Seq<char>>),
    Done(Option<Seq<char>>),
    Output(Result<Seq<u8>, Seq<char>>),
    Printed,
    Changed(ChangeView),
}

/// A text or an error, over plain text.
pub open spec fn text_or(r: Result<String, String>) -> Result<Seq<char>, Seq<char>> {
    match r {
        Ok(s) => Ok(s@),
        Err(e) => Err(e@),
    }
}

/// Bytes or an error, over plain values.
pub open spec fn bytes_or(r: Result<Vec<u8>, String>) -> Result<Seq<u8>, Seq<char>> {
    match r {
        Ok(b) => Ok(b@),
        Err(e) => Err(e@),
    }
}

/// What was read from a slot, or an error, over plain values.
pub open spec fn slot_or(r: Result<SlotRead, String>) -> Result<SlotView, Seq<char>> {
    match r {
        Ok(s) => Ok(s@),
        Err(e) => Err(e@),
    }
}

impl View for JobEvent {
    type V = EventView;

    open spec fn view(&self) -> EventView {
        match self {
            JobEvent::Cards(Ok(g)) => EventView::Cards(Ok(g@)),
            JobEvent::Cards(Err(e)) => EventView::Cards(Err(e@)),
            JobEvent::Slot(r) => EventView::Slot(slot_or(*r)),
            JobEvent::Data(r) => EventView::Data(bytes_or(*r)),
            JobEvent::PeerKey(r) => EventView::PeerKey(text_or(*r)),
            JobEvent::Secret(r) => EventView::Secret(text_or(*r)),
            JobEvent::Done(Ok(_)) => EventView::Done(None),
            JobEvent::Done(Err(e)) => EventView::Done(Some(e@)),
            JobEvent::Output(r) => EventView::Output(bytes_or(*r)),
            JobEvent::Printed => EventView::Printed,
            JobEvent::Changed(ChangeOutcome::Done) => EventView::Changed(ChangeView::Done),
            JobEvent::Changed(ChangeOutcome::Incorrect(n)) => EventView::Changed(
                ChangeView::Incorrect(*n as nat),
            ),
            JobEvent::Changed(ChangeOutcome::Failed(e)) => EventView::Changed(
                ChangeView::Failed(e@),
            ),
        }
    }
}

// --------------------------------------------------------------- the rules

/// A job: the operation, its slot, the invocation, the card once it is
/// chosen, and what is to be done next.
pub struct CardJob {
    pub op: ToolOp,
    pub slot: u8,
    pub inv: Invocation,
    /// The place of the card among those that were listed.
    pub card: Option<usize>,
    pub stage: JobStage,
}

/// [`CardJob`] over plain values.
pub struct JobView {
    pub op: ToolOp,
    pub slot: u8,
    pub inv: InvocationView,
    pub card: Option<int>,
    pub stage: StageView,
}

impl View for CardJob {
    type V = JobView;

    open spec fn view(&self) -> JobView {
        JobView {
            op: self.op,
            slot: self.slot,
            inv: self.inv@,
            card: match self.card {
                Some(i) => Some(i as int),
                None => None,
            },
            stage: self.stage@,
        }
    }
}

/// Whether an event answers a stage.
pub open spec fn fits(stage: StageView, e: EventView) -> bool {
    match stage {
        StageView::Cards => e is Cards,
        StageView::ChangeCards(_, _) => e is Cards,
        StageView::Slot(_) => e is Slot,
        StageView::Device => e is Slot,
        StageView::Data(_) => e is Data,
        StageView::PeerKey => e is PeerKey,
        StageView::Pin(_, _, _) => e is Secret,
        StageView::Current(_, _) => e is Secret,
        StageView::New(_, _, _) => e is Secret,
        StageView::Session(_, _) => e is Done,
        StageView::Verify(_, _) => e is Done,
        StageView::Write(_) => e is Done,
        StageView::ChangeSession(_, _) => e is Done,
        StageView::Use(_) => e is Output,
        StageView::Attest => e is Output,
        StageView::Print(_, _) => e is Printed,
        StageView::Change(_, _) => e is Changed,
        StageView::Ended(_, _) => false,
    }
}

/// The job at another stage.
pub open spec fn at(j: JobView, stage: StageView) -> JobView {
    JobView { stage, ..j }
}

/// The job, given up with the code one and these words.
pub open spec fn failed(j: JobView, words: Seq<char>) -> JobView {
    at(j, StageView::Ended(1, Some("piggy tool "@ + op_name(j.op) + ": "@ + words)))
}

/// The job, done.
pub open spec fn finished(j: JobView) -> JobView {
    at(j, StageView::Ended(0, None))
}

/// What the two credentials of an operation are called.
pub open spec fn labels(op: ToolOp) -> (Seq<char>, Seq<char>) {
    match op {
        ToolOp::Change(Secret::Pin) => ("PIN"@, "PIN"@),
        ToolOp::Change(Secret::Puk) => ("PUK"@, "PUK"@),
        _ => ("PUK"@, "PIN"@),
    }
}

/// On to the PIN: straight to the session where it was given.
pub open spec fn to_pin(j: JobView, material: Seq<u8>) -> JobView {
    at(
        j,
        match pin_source(j.inv.pins, op_name(j.op)) {
            CredentialView::Given(pin) => StageView::Session(material, pin),
            CredentialView::Ask(prompt, context) => StageView::Pin(material, prompt, context),
        },
    )
}

/// On to the new credential: straight to the card where it was given.
pub open spec fn to_new(j: JobView, current: Seq<char>) -> JobView {
    at(
        j,
        match secret_source(j.inv.pins, 1, op_name(j.op), "new"@, labels(j.op).1) {
            CredentialView::Given(new) => StageView::ChangeCards(current, new),
            CredentialView::Ask(prompt, context) => StageView::New(current, prompt, context),
        },
    )
}

/// On to the current credential.
pub open spec fn to_current(j: JobView) -> JobView {
    match secret_source(j.inv.pins, 0, op_name(j.op), "current"@, labels(j.op).0) {
        CredentialView::Given(current) => to_new(j, current),
        CredentialView::Ask(prompt, context) => at(j, StageView::Current(prompt, context)),
    }
}

/// What is done first with a card that was chosen.
pub open spec fn first_use(j: JobView, guid: Seq<u8>) -> StageView {
    match (j.stage, j.op) {
        (StageView::ChangeCards(current, new), _) => StageView::ChangeSession(current, new),
        (_, ToolOp::Ecdh) => StageView::PeerKey,
        (_, ToolOp::Attest) => StageView::Attest,
        _ => StageView::Slot(guid),
    }
}

/// What comes after the cards were listed: one of them is chosen.
pub open spec fn chosen(j: JobView, listed: Result<Seq<Guid>, Seq<char>>) -> JobView {
    match listed {
        Err(e) => failed(j, e),
        Ok(cards) => match card_choice(cards, j.inv.guid) {
            Err(e) => failed(j, e),
            Ok(i) => JobView { card: Some(i), stage: first_use(j, cards[i]@), ..j },
        },
    }
}

/// What comes after a certificate was read: its PEM text is printed. `said`
/// is what the library that makes it says where it cannot.
pub open spec fn cert_read(j: JobView, der: Seq<u8>, last: bool, said: Seq<char>) -> JobView {
    match pem_of(der) {
        Some(pem) => at(j, StageView::Print(pem, last)),
        None => failed(j, render_error(j.op, last) + pem_error(said)),
    }
}

/// What comes after a slot was read: its key or its certificate is printed,
/// or its algorithm decides how data is signed. `said` is the subject of the
/// certificate beside a key, and what is said of a certificate that has no
/// PEM text.
pub open spec fn slot_read(
    j: JobView,
    guid: Seq<u8>,
    read: Result<SlotView, Seq<char>>,
    said: Seq<char>,
) -> JobView {
    match (j.op, read) {
        (ToolOp::Sign, Err(e)) => failed(
            j,
            "failed to read cert for signing key in slot "@ + hex2(j.slot, true) + ": "@ + e,
        ),
        (_, Err(e)) => failed(j, "slot "@ + hex2(j.slot, false) + ": "@ + e),
        (ToolOp::Sign, Ok(s)) => at(j, StageView::Data(s.algorithm)),
        (ToolOp::Pubkey, Ok(s)) => match openssh_line_of(
            s.key.blob,
            comment_of(j.slot, guid, said),
        ) {
            Ok(line) => at(j, StageView::Print(line + "\n"@, true)),
            Err(e) => failed(j, "render OpenSSH: "@ + e),
        },
        (_, Ok(s)) => cert_read(j, s.cert_der, true, said),
    }
}

/// Whether the words can be said at a step: beside a key stands the subject
/// of its certificate.
pub open spec fn can_be_said(j: JobView, e: EventView, said: Seq<char>) -> bool {
    match (j.stage, e) {
        (StageView::Slot(_), EventView::Slot(Ok(s))) => j.op is Pubkey ==> is_subject(
            s.cert_der,
            said,
        ),
        _ => true,
    }
}

/// The words for a key that could not be used.
pub open spec fn use_error(op: ToolOp) -> Seq<char> {
    if op is Sign {
        "failed to sign data: "@
    } else {
        "failed to compute ECDH: "@
    }
}

/// The words in front of the error of a certificate that could not be
/// rendered.
pub open spec fn render_error(op: ToolOp, last: bool) -> Seq<char> {
    if !(op is Attest) {
        ""@
    } else if last {
        "device attestation cert: "@
    } else {
        "slot attestation cert: "@
    }
}

/// What is said of a change of credential, and the exit code.
pub open spec fn change_end(op: ToolOp, c: ChangeView) -> StageView {
    let head = "piggy tool "@ + op_name(op);
    let label = labels(op).0;
    match c {
        ChangeView::Done => StageView::Ended(0, None),
        ChangeView::Incorrect(n) => StageView::Ended(
            1,
            Some(
                if op is ResetPin {
                    "piggy tool reset-pin: PUK was incorrect ("@ + dec(n)
                        + " attempt(s) remaining); PIN reset failed"@
                } else {
                    head + ": current "@ + label + " was incorrect ("@ + dec(n)
                        + " attempt(s) remaining); "@ + label + " change failed"@
                },
            ),
        ),
        ChangeView::Failed(e) => StageView::Ended(
            1,
            Some(
                if op is ResetPin {
                    "piggy tool reset-pin: failed to reset PIN: "@ + e
                } else {
                    head + ": failed to set new "@ + label + ": "@ + e
                },
            ),
        ),
    }
}

/// What a job comes to by an event that answers its stage. `said` are the
/// words of the library that reads certificates, where the step needs any.
pub open spec fn next(j: JobView, e: EventView, said: Seq<char>) -> JobView {
    match (j.stage, e) {
        (StageView::Cards, EventView::Cards(r)) => chosen(j, r),
        (StageView::Slot(guid), EventView::Slot(r)) => slot_read(j, guid, r, said),
        (StageView::Data(_), EventView::Data(Err(e))) => failed(j, "stdin: "@ + e),
        (StageView::Data(a), EventView::Data(Ok(data))) => match digest_outcome(j.slot, a, data) {
            Ok(digest) => to_pin(j, digest),
            Err(e) => failed(j, e),
        },
        (StageView::PeerKey, EventView::PeerKey(Err(e))) => failed(j, "stdin: "@ + e),
        (StageView::PeerKey, EventView::PeerKey(Ok(text))) => match point_of_key(
            openssh_key_of(trimmed(text)),
        ) {
            Ok(point) => to_pin(j, point),
            Err(e) => failed(j, e),
        },
        (StageView::Pin(m, _, _), EventView::Secret(Ok(pin))) => at(j, StageView::Session(m, pin)),
        (StageView::Pin(_, _, _), EventView::Secret(Err(e))) => failed(
            j,
            "PIN prompt failed: "@ + e,
        ),
        (StageView::Session(m, pin), EventView::Done(None)) => at(j, StageView::Verify(m, pin)),
        (StageView::Session(_, _), EventView::Done(Some(e))) => failed(j, "begin session: "@ + e),
        (StageView::Verify(m, _), EventView::Done(None)) => at(j, StageView::Use(m)),
        (StageView::Verify(_, _), EventView::Done(Some(e))) => failed(
            j,
            "PIN verification failed: "@ + e,
        ),
        (StageView::Use(_), EventView::Output(Ok(b))) => at(j, StageView::Write(b)),
        (StageView::Use(_), EventView::Output(Err(e))) => failed(j, use_error(j.op) + e),
        (StageView::Write(_), EventView::Done(None)) => finished(j),
        (StageView::Write(_), EventView::Done(Some(e))) => failed(j, "write: "@ + e),
        (StageView::Attest, EventView::Output(Ok(der))) => cert_read(j, der, false, said),
        (StageView::Attest, EventView::Output(Err(e))) => failed(j, "attestation failed: "@ + e),
        (StageView::Print(_, last), EventView::Printed) => if last {
            finished(j)
        } else {
            at(j, StageView::Device)
        },
        (StageView::Device, EventView::Slot(Ok(s))) => cert_read(j, s.cert_der, true, said),
        (StageView::Device, EventView::Slot(Err(e))) => failed(
            j,
            "read device attestation cert: "@ + e,
        ),
        (StageView::Current(_, _), EventView::Secret(Ok(s))) => to_new(j, s),
        (StageView::Current(_, _), EventView::Secret(Err(e))) => failed(
            j,
            "current "@ + labels(j.op).0 + " prompt failed: "@ + e,
        ),
        (StageView::New(current, _, _), EventView::Secret(Ok(s))) => at(
            j,
            StageView::ChangeCards(current, s),
        ),
        (StageView::New(_, _, _), EventView::Secret(Err(e))) => failed(
            j,
            "new "@ + labels(j.op).1 + " prompt failed: "@ + e,
        ),
        (StageView::ChangeCards(_, _), EventView::Cards(r)) => chosen(j, r),
        (StageView::ChangeSession(current, new), EventView::Done(None)) => at(
            j,
            StageView::Change(current, new),
        ),
        (StageView::ChangeSession(_, _), EventView::Done(Some(e))) => failed(
            j,
            "begin session: "@ + e,
        ),
        (StageView::Change(_, _), EventView::Changed(c)) => at(j, change_end(j.op, c)),
        _ => j,
    }
}

/// How an operation begins. One on a slot needs a slot that can be used for
/// it; one on a credential needs the current and the new one.
pub open spec fn begun(op: ToolOp, inv: InvocationView) -> JobView {
    let blank = JobView { op, slot: 0, inv, card: None, stage: StageView::Cards };
    if changes(op) {
        to_current(blank)
    } else {
        match slot_outcome(inv.positionals, op_name(op)) {
            Err(e) => at(blank, StageView::Ended(2, Some(e))),
            Ok(slot) => {
                let j = JobView { slot, ..blank };
                if op is Ecdh && !(slot == 0x9A || slot == 0x9C || slot == 0x9D || slot == 0x9E) {
                    failed(j, "PIV slot "@ + hex2(slot, true) + " cannot be used for ECDH"@)
                } else {
                    j
                }
            },
        }
    }
}

/// Whether an operation changes a credential.
pub open spec fn changes(op: ToolOp) -> bool {
    op is Change || op is ResetPin
}

/// Whether a stage is one of changing a credential.
pub open spec fn is_change(stage: StageView) -> bool {
    stage is Current || stage is New || stage is ChangeCards || stage is ChangeSession
        || stage is Change
}

/// What holds of every job: a stage that uses a card has one, and only an
/// operation that changes a credential gets to the stages of that.
pub open spec fn sound(j: JobView) -> bool {
    &&& j.card is Some || j.stage is Cards || j.stage is Current || j.stage is New
        || j.stage is ChangeCards || j.stage is Ended
    &&& j.stage is Ended || (is_change(j.stage) <==> changes(j.op))
}

// ----------------------------------------------------------------- the job

impl ToolOp {
    /// The name of the operation.
    pub fn name(self) -> (r: &'static str)
        ensures
            r@ == op_name(self),
    {
        match self {
            ToolOp::Pubkey => "pubkey",
            ToolOp::Cert => "cert",
            ToolOp::Attest => "attest",
            ToolOp::Sign => "sign",
            ToolOp::Ecdh => "ecdh",
            ToolOp::Change(secret) => secret.op(),
            ToolOp::ResetPin => "reset-pin",
        }
    }
}

impl CardJob {
    fn to(self, stage: JobStage) -> (r: CardJob)
        ensures
            r@ == at(self@, stage@),
    {
        CardJob { op: self.op, slot: self.slot, inv: self.inv, card: self.card, stage }
    }

    fn fail(self, words: &str) -> (r: CardJob)
        ensures
            r@ == failed(self@, words@),
    {
        let said: String = cat4("piggy tool ", self.op.name(), ": ", words);
        self.to(JobStage::Ended { code: 1, said: Some(said) })
    }

    fn fail_with(self, words: &str, e: &str) -> (r: CardJob)
        ensures
            r@ == failed(self@, words@ + e@),
    {
        let all: String = cat2(words, e);
        self.fail(all.as_str())
    }

    fn finish(self) -> (r: CardJob)
        ensures
            r@ == finished(self@),
    {
        self.to(JobStage::Ended { code: 0, said: None })
    }

    fn pin_next(self, material: Vec<u8>) -> (r: CardJob)
        ensures
            r@ == to_pin(self@, material@),
    {
        let source: Credential = get_pin(&self.inv, self.op.name());
        match source {
            Credential::Given(pin) => self.to(JobStage::Session { material, pin }),
            Credential::Ask { prompt, context } => self.to(
                JobStage::Pin { material, prompt, context },
            ),
        }
    }

    fn sources(&self) -> (r: (Credential, Credential))
        requires
            changes(self.op),
        ensures
            r.0@ == secret_source(
                self@.inv.pins,
                0,
                op_name(self.op),
                "current"@,
                labels(self.op).0,
            ),
            r.1@ == secret_source(self@.inv.pins, 1, op_name(self.op), "new"@, labels(self.op).1),
    {
        match self.op {
            ToolOp::Change(secret) => change_sources(&self.inv, secret),
            _ => reset_sources(&self.inv),
        }
    }

    fn new_next(self, current: String) -> (r: CardJob)
        requires
            changes(self.op),
        ensures
            r@ == to_new(self@, current@),
    {
        let (_, source) = self.sources();
        match source {
            Credential::Given(new) => self.to(JobStage::ChangeCards { current, new }),
            Credential::Ask { prompt, context } => self.to(
                JobStage::New { current, prompt, context },
            ),
        }
    }

    fn pick(self, listed: Result<Vec<Guid>, String>) -> (r: CardJob)
        ensures
            r@ == chosen(
                self@,
                match listed {
                    Ok(g) => Ok(g@),
                    Err(e) => Err(e@),
                },
            ),
    {
        let cards: Vec<Guid> = match listed {
            Err(e) => return self.fail(e.as_str()),
            Ok(cards) => cards,
        };
        let i: usize = match select_token(&cards, &self.inv.guid) {
            Err(e) => return self.fail(e.as_str()),
            Ok(i) => i,
        };
        let stage: JobStage = match self.stage {
            JobStage::ChangeCards { current, new } => JobStage::ChangeSession { current, new },
            _ => match self.op {
                ToolOp::Ecdh => JobStage::PeerKey,
                ToolOp::Attest => JobStage::Attest,
                _ => JobStage::Slot { guid: cards[i] },
            },
        };
        CardJob { op: self.op, slot: self.slot, inv: self.inv, card: Some(i), stage }
    }

    fn slot_next(self, guid: &Guid, read: Result<SlotRead, String>) -> (r: CardJob)
        ensures
            exists|said: Seq<char>|
                (self.op is Pubkey && read is Ok ==> is_subject(read->Ok_0.cert_der@, said))
                    && r@ == #[trigger] slot_read(self@, guid@, slot_or(read), said),
    {
        let ghost job = self@;
        let ghost seen = slot_or(read);
        match read {
            Err(e) => {
                let words: String = match self.op {
                    ToolOp::Sign => cat3(
                        "failed to read cert for signing key in slot ",
                        hex2_str(self.slot, true).as_str(),
                        ": ",
                    ),
                    _ => cat3("slot ", hex2_str(self.slot, false).as_str(), ": "),
                };
                let r: CardJob = self.fail_with(words.as_str(), e.as_str());
                assert(r@ == slot_read(job, guid@, seen, seq![]));
                r
            },
            Ok(s) => match self.op {
                ToolOp::Sign => {
                    let r: CardJob = self.to(JobStage::Data { algorithm: s.algorithm });
                    assert(r@ == slot_read(job, guid@, seen, seq![]));
                    r
                },
                ToolOp::Pubkey => {
                    let line: Result<String, String> = cmd_pubkey(
                        self.slot,
                        guid,
                        s.cert_der.as_slice(),
                        &s.key,
                    );
                    let ghost subject = choose|subject: Seq<char>| #[trigger]
                        is_subject(s.cert_der@, subject) && match openssh_line_of(
                            s.key.blob@,
                            comment_of(self.slot, guid@, subject),
                        ) {
                            Ok(l) => line is Ok && line->Ok_0@ == l,
                            Err(e) => line is Err && line->Err_0@ == "render OpenSSH: "@ + e,
                        };
                    let r: CardJob = match line {
                        Ok(line) => {
                            let text: String = cat2(line.as_str(), "\n");
                            self.to(JobStage::Print { text, last: true })
                        },
                        Err(e) => self.fail(e.as_str()),
                    };
                    assert(r@ == slot_read(job, guid@, seen, subject));
                    r
                },
                _ => {
                    let r: CardJob = self.cert_next(s.cert_der, true);
                    let ghost said = choose|said: Seq<char>|
                        r@ == #[trigger] cert_read(job, s.cert_der@, true, said);
                    assert(r@ == slot_read(job, guid@, seen, said));
                    r
                },
            },
        }
    }

    fn cert_next(self, der: Vec<u8>, last: bool) -> (r: CardJob)
        ensures
            exists|said: Seq<char>| r@ == #[trigger] cert_read(self@, der@, last, said),
    {
        let ghost job = self@;
        match print_cert_pem(der.as_slice()) {
            Ok(text) => {
                let r: CardJob = self.to(JobStage::Print { text, last });
                assert(r@ == cert_read(job, der@, last, seq![]));
                r
            },
            Err(e) => {
                let ghost said = choose|said: Seq<char>| e@ == #[trigger] pem_error(said);
                let words: &str = if !matches!(self.op, ToolOp::Attest) {
                    ""
                } else if last {
                    "device attestation cert: "
                } else {
                    "slot attestation cert: "
                };
                let r: CardJob = self.fail_with(words, e.as_str());
                assert(r@ == cert_read(job, der@, last, said));
                r
            },
        }
    }

    /// Begins an operation.
    pub fn new(op: ToolOp, inv: Invocation) -> (r: CardJob)
        ensures
            r@ == begun(op, inv@),
            sound(r@),
    {
        let pins_given: bool = match op {
            ToolOp::Change(_) => true,
            ToolOp::ResetPin => true,
            _ => false,
        };
        if pins_given {
            let job: CardJob = CardJob { op, slot: 0, inv, card: None, stage: JobStage::Cards };
            let (source, _) = job.sources();
            return match source {
                Credential::Given(current) => job.new_next(current),
                Credential::Ask { prompt, context } => job.to(
                    JobStage::Current { prompt, context },
                ),
            };
        }
        let slot: Result<u8, (i32, String)> = slot_arg(&inv, op.name());
        match slot {
            Err((code, said)) => CardJob {
                op,
                slot: 0,
                inv,
                card: None,
                stage: JobStage::Ended { code, said: Some(said) },
            },
            Ok(slot) => {
                let job: CardJob = CardJob { op, slot, inv, card: None, stage: JobStage::Cards };
                if matches!(op, ToolOp::Ecdh) && !can_ecdh(slot) {
                    let words: String = cat3(
                        "PIV slot ",
                        hex2_str(slot, true).as_str(),
                        " cannot be used for ECDH",
                    );
                    job.fail(words.as_str())
                } else {
                    job
                }
            },
        }
    }
}

impl CardJob {
    /// Takes what came of the step that was to be done.
    pub fn on(self, e: JobEvent) -> (r: CardJob)
        requires
            fits(self@.stage, e@),
            sound(self@),
        ensures
            exists|said: Seq<char>|
                can_be_said(self@, e@, said) && r@ == #[trigger] next(self@, e@, said),
            sound(r@),
            r.op == self.op,
    {
        let ghost before = self@;
        let ghost event = e@;
        match &self.stage {
            JobStage::Slot { .. } | JobStage::Attest | JobStage::Device => {
                return self.on_cert(e);
            },
            _ => {},
        }
        let r: CardJob = match self.op {
            ToolOp::Change(_) | ToolOp::ResetPin => self.on_change(e),
            _ => self.on_key(e),
        };
        assert(can_be_said(before, event, seq![]));
        assert(r@ == next(before, event, seq![]));
        r
    }

    fn on_cert(self, e: JobEvent) -> (r: CardJob)
        requires
            fits(self@.stage, e@),
            sound(self@),
            self@.stage is Slot || self@.stage is Attest || self@.stage is Device,
        ensures
            exists|said: Seq<char>|
                can_be_said(self@, e@, said) && r@ == #[trigger] next(self@, e@, said),
            sound(r@),
            r.op == self.op,
    {
        let ghost before = self@;
        let ghost event = e@;
        let CardJob { op, slot, inv, card, stage } = self;
        let job: CardJob = CardJob { op, slot, inv, card, stage: JobStage::Cards };
        match (stage, e) {
            (JobStage::Slot { guid }, JobEvent::Slot(read)) => {
                let ghost at_start = job@;
                let ghost seen = slot_or(read);
                let r: CardJob = job.slot_next(&guid, read);
                let ghost said = choose|said: Seq<char>|
                    (op is Pubkey && seen is Ok ==> is_subject(seen->Ok_0.cert_der, said)) && r@
                        == #[trigger] slot_read(at_start, guid@, seen, said);
                assert(can_be_said(before, event, said));
                assert(r@ == next(before, event, said));
                r
            },
            (JobStage::Attest, JobEvent::Output(Ok(der))) => {
                let ghost at_start = job@;
                let r: CardJob = job.cert_next(der, false);
                let ghost said = choose|said: Seq<char>|
                    r@ == #[trigger] cert_read(at_start, der@, false, said);
                assert(can_be_said(before, event, said));
                assert(r@ == next(before, event, said));
                r
            },
            (JobStage::Attest, JobEvent::Output(Err(e))) => {
                let r: CardJob = job.fail_with("attestation failed: ", e.as_str());
                assert(can_be_said(before, event, seq![]));
                assert(r@ == next(before, event, seq![]));
                r
            },
            (JobStage::Device, JobEvent::Slot(Ok(s))) => {
                let ghost at_start = job@;
                let r: CardJob = job.cert_next(s.cert_der, true);
                let ghost said = choose|said: Seq<char>|
                    r@ == #[trigger] cert_read(at_start, s.cert_der@, true, said);
                assert(can_be_said(before, event, said));
                assert(r@ == next(before, event, said));
                r
            },
            (JobStage::Device, JobEvent::Slot(Err(e))) => {
                let r: CardJob = job.fail_with("read device attestation cert: ", e.as_str());
                assert(can_be_said(before, event, seq![]));
                assert(r@ == next(before, event, seq![]));
                r
            },
            (stage, _) => job.to(stage),
        }
    }

    fn on_key(self, e: JobEvent) -> (r: CardJob)
        requires
            fits(self@.stage, e@),
            sound(self@),
            !changes(self.op),
            !(self@.stage is Slot || self@.stage is Attest || self@.stage is Device),
        ensures
            r@ == next(self@, e@, seq![]),
            sound(r@),
            r.op == self.op,
    {
        let CardJob { op, slot, inv, card, stage } = self;
        let job: CardJob = CardJob { op, slot, inv, card, stage: JobStage::Cards };
        match (stage, e) {
            (JobStage::Cards, JobEvent::Cards(listed)) => job.pick(listed),
            (JobStage::Data { algorithm }, JobEvent::Data(data)) => match data {
                Err(e) => job.fail_with("stdin: ", e.as_str()),
                Ok(data) => match sign_digest(job.slot, algorithm, data.as_slice()) {
                    Ok(digest) => job.pin_next(digest),
                    Err(e) => job.fail(e.as_str()),
                },
            },
            (JobStage::PeerKey, JobEvent::PeerKey(text)) => match text {
                Err(e) => job.fail_with("stdin: ", e.as_str()),
                Ok(text) => match parse_openssh_ec_point(text.as_str()) {
                    Ok(point) => job.pin_next(point),
                    Err(e) => job.fail(e.as_str()),
                },
            },
            (JobStage::Pin { material, .. }, JobEvent::Secret(answer)) => match answer {
                Err(e) => job.fail_with("PIN prompt failed: ", e.as_str()),
                Ok(pin) => job.to(JobStage::Session { material, pin }),
            },
            (JobStage::Session { material, pin }, JobEvent::Done(done)) => match done {
                Err(e) => {
                    discard(pin);
                    job.fail_with("begin session: ", e.as_str())
                },
                Ok(_) => job.to(JobStage::Verify { material, pin }),
            },
            (JobStage::Verify { material, pin }, JobEvent::Done(done)) => {
                discard(pin);
                match done {
                    Err(e) => job.fail_with("PIN verification failed: ", e.as_str()),
                    Ok(_) => job.to(JobStage::Use { material }),
                }
            },
            (JobStage::Use { .. }, JobEvent::Output(output)) => match output {
                Err(e) => {
                    if matches!(op, ToolOp::Sign) {
                        job.fail_with("failed to sign data: ", e.as_str())
                    } else {
                        job.fail_with("failed to compute ECDH: ", e.as_str())
                    }
                },
                Ok(bytes) => job.to(JobStage::Write { bytes }),
            },
            (JobStage::Write { .. }, JobEvent::Done(done)) => match done {
                Err(e) => job.fail_with("write: ", e.as_str()),
                Ok(_) => job.finish(),
            },
            (JobStage::Print { last, .. }, JobEvent::Printed) => {
                if last {
                    job.finish()
                } else {
                    job.to(JobStage::Device)
                }
            },
            (stage, _) => job.to(stage),
        }
    }

    fn on_change(self, e: JobEvent) -> (r: CardJob)
        requires
            fits(self@.stage, e@),
            sound(self@),
            changes(self.op),
        ensures
            r@ == next(self@, e@, seq![]),
            sound(r@),
            r.op == self.op,
    {
        let CardJob { op, slot, inv, card, stage } = self;
        let job: CardJob = CardJob { op, slot, inv, card, stage: JobStage::Cards };
        match (stage, e) {
            (JobStage::Current { .. }, JobEvent::Secret(answer)) => match answer {
                Err(e) => {
                    let words: String = cat3("current ", job.label(false), " prompt failed: ");
                    job.fail_with(words.as_str(), e.as_str())
                },
                Ok(current) => job.new_next(current),
            },
            (JobStage::New { current, .. }, JobEvent::Secret(answer)) => match answer {
                Err(e) => {
                    let words: String = cat3("new ", job.label(true), " prompt failed: ");
                    job.fail_with(words.as_str(), e.as_str())
                },
                Ok(new) => job.to(JobStage::ChangeCards { current, new }),
            },
            (JobStage::ChangeCards { current, new }, JobEvent::Cards(listed)) => {
                job.to(JobStage::ChangeCards { current, new }).pick(listed)
            },
            (JobStage::ChangeSession { current, new }, JobEvent::Done(done)) => match done {
                Err(e) => {
                    discard(current);
                    discard(new);
                    job.fail_with("begin session: ", e.as_str())
                },
                Ok(_) => job.to(JobStage::Change { current, new }),
            },
            (JobStage::Change { current, new }, JobEvent::Changed(outcome)) => {
                discard(current);
                discard(new);
                let (code, said) = match op {
                    ToolOp::Change(secret) => cmd_change_secret(secret, &outcome),
                    _ => cmd_reset_pin(&outcome),
                };
                job.to(JobStage::Ended { code, said })
            },
            (stage, _) => job.to(stage),
        }
    }

    fn label(&self, new: bool) -> (r: &'static str)
        ensures
            r@ == if new {
                labels(self.op).1
            } else {
                labels(self.op).0
            },
    {
        match self.op {
            ToolOp::Change(secret) => secret.label(),
            _ => {
                if new {
                    "PIN"
                } else {
                    "PUK"
                }
            },
        }
    }
}

// -------------------------------------------------------------------- laws

/// How many steps may still be ahead.
pub open spec fn ahead(stage: StageView) -> nat {
    match stage {
        StageView::Cards => 12,
        StageView::Current(_, _) => 12,
        StageView::Slot(_) => 11,
        StageView::Attest => 11,
        StageView::New(_, _, _) => 11,
        StageView::Data(_) => 10,
        StageView::PeerKey => 10,
        StageView::ChangeCards(_, _) => 10,
        StageView::Pin(_, _, _) => 9,
        StageView::ChangeSession(_, _) => 9,
        StageView::Session(_, _) => 8,
        StageView::Change(_, _) => 8,
        StageView::Verify(_, _) => 7,
        StageView::Use(_) => 6,
        StageView::Write(_) => 5,
        StageView::Device => 5,
        StageView::Print(_, last) => if last {
            3
        } else {
            6
        },
        StageView::Ended(_, _) => 0,
    }
}

/// Every step brings a job nearer to its end, so each one ends.
pub proof fn law_job_advances(j: JobView, e: EventView, said: Seq<char>)
    requires
        fits(j.stage, e),
    ensures
        ahead(next(j, e, said).stage) < ahead(j.stage),
{
    match j.stage {
        StageView::Cards => {},
        StageView::Slot(_) => {},
        StageView::Data(_) => {},
        StageView::PeerKey => {},
        StageView::Pin(_, _, _) => {},
        StageView::Session(_, _) => {},
        StageView::Attest => {},
        StageView::Device => {},
        StageView::Current(_, _) => {},
        StageView::New(_, _, _) => {},
        StageView::ChangeCards(_, _) => {},
        StageView::Change(_, _) => {},
        _ => {},
    }
}

/// A key is used only in the session in which its PIN was just verified, and
/// on what was prepared for it.
pub proof fn law_key_waits_for_its_pin(j: JobView, e: EventView, said: Seq<char>)
    requires
        fits(j.stage, e),
        next(j, e, said).stage is Use,
    ensures
        e == EventView::Done(None),
        j.stage is Verify,
        j.stage->Verify_0 == next(j, e, said).stage->Use_0,
{
}

/// Whether a step failed.
pub open spec fn is_failure(e: EventView) -> bool {
    match e {
        EventView::Cards(r) => r is Err,
        EventView::Slot(r) => r is Err,
        EventView::Data(r) => r is Err,
        EventView::PeerKey(r) => r is Err,
        EventView::Secret(r) => r is Err,
        EventView::Done(r) => r is Some,
        EventView::Output(r) => r is Err,
        EventView::Printed => false,
        EventView::Changed(c) => !(c is Done),
    }
}

/// A step that failed ends the job with the code one and words under the
/// operation's name.
pub proof fn law_failed_step_is_told(j: JobView, e: EventView, said: Seq<char>)
    requires
        fits(j.stage, e),
        sound(j),
        is_failure(e),
    ensures
        next(j, e, said).stage is Ended,
        next(j, e, said).stage->Ended_0 == 1,
        next(j, e, said).stage->Ended_1 is Some,
        ("piggy tool "@ + op_name(j.op)).is_prefix_of(next(j, e, said).stage->Ended_1->0),
{
    let head = "piggy tool "@ + op_name(j.op);
    let words = next(j, e, said).stage->Ended_1->0;
    if j.stage is Change && j.op is ResetPin {
        reveal_strlit("piggy tool ");
        reveal_strlit("reset-pin");
        reveal_strlit("piggy tool reset-pin: PUK was incorrect (");
        reveal_strlit("piggy tool reset-pin: failed to reset PIN: ");
    }
    assert(head =~= words.subrange(0, head.len() as int));
}

/// What a card is asked to sign is the digest of the data that was read, by
/// the algorithm of the slot's key, and what it answers is written as it is.
pub proof fn law_signature_is_of_the_data(
    inv: InvocationView,
    slot: u8,
    cards: Seq<Guid>,
    read: SlotView,
    data: Seq<u8>,
    pin: Seq<char>,
    signature: Seq<u8>,
)
    requires
        slot_outcome(inv.positionals, "sign"@) == Ok::<u8, Seq<char>>(slot),
        card_choice(cards, inv.guid) is Ok,
        digest_outcome(slot, read.algorithm, data) is Ok,
        inv.pins.len() > 0 ==> pin == inv.pins[0],
    ensures
        ({
            let listed = next(begun(ToolOp::Sign, inv), EventView::Cards(Ok(cards)), seq![]);
            let prepared = next(
                next(listed, EventView::Slot(Ok(read)), seq![]),
                EventView::Data(Ok(data)),
                seq![],
            );
            let ready = if inv.pins.len() > 0 {
                prepared
            } else {
                next(prepared, EventView::Secret(Ok(pin)), seq![])
            };
            let verified = next(
                next(ready, EventView::Done(None), seq![]),
                EventView::Done(None),
                seq![],
            );
            let signed = next(verified, EventView::Output(Ok(signature)), seq![]);
            &&& listed.card == Some(card_choice(cards, inv.guid)->Ok_0)
            &&& verified.stage == StageView::Use(digest_outcome(slot, read.algorithm, data)->Ok_0)
            &&& signed.stage == StageView::Write(signature)
            &&& next(signed, EventView::Done(None), seq![]).stage == StageView::Ended(0, None)
        }),
{
}

/// An attestation shows the PEM text of the certificate that the card made
/// for the slot first, and that of the card's own after it.
pub proof fn law_attestation_shows_both_certificates(
    j: JobView,
    made: Seq<u8>,
    own: SlotView,
    said: Seq<char>,
)
    requires
        j.op is Attest,
        j.stage is Attest,
        pem_of(made) is Some,
        pem_of(own.cert_der) is Some,
    ensures
        ({
            let shown = next(j, EventView::Output(Ok(made)), said);
            let last = next(
                next(shown, EventView::Printed, said),
                EventView::Slot(Ok(own)),
                said,
            );
            &&& shown.stage == StageView::Print(pem_of(made)->0, false)
            &&& last.stage == StageView::Print(pem_of(own.cert_der)->0, true)
            &&& next(last, EventView::Printed, said).stage == StageView::Ended(0, None)
        }),
{
}

} // verus!
