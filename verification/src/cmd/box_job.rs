//! A command of `piggy box` from the first step to the last. The job says
//! what is to be done next and takes what came of it; a step that failed
//! ends it. Ciphers and the template format are elsewhere: what the job
//! holds of them are the bytes that go in and come out.
use crate::cmd::agent::TokenInfo;
use crate::cmd::pivy_box::{
    card_place, chunk_count, compress_error, chunk_range, chunks_joined, cmd_tpl_show, find_card, frame,
    frame_end, frames, law_chunks_make_up_the_plaintext, law_cut_frame_is_refused,
    is_compress_error, law_frame_is_found, lemma_chunk_bounds, part_of, plan_template,
    template_text, tpl_dir, tpl_dir_of, usage_banner, usage_text, BoxAction, BoxView, FrameReader,
    PartView, ShownTemplate, TemplatePart,
};
use crate::crypto::{hex_text, EcStep};
use crate::piv::Guid;
use crate::store_path::{join_path, path_joined};
use crate::text::{cat2, cat3, cat5, dec, dec_usize, opt_text};
use vstd::prelude::*;

verus! {

// ------------------------------------------------------------------ stages

/// The commands.
#[derive(Clone, Copy, Debug, PartialEq, Eq, Structural)]
pub enum BoxCommand {
    Encrypt,
    Decrypt,
    CreateTemplate,
    ShowTemplate,
}

/// What each command is called.
pub open spec fn command_name(c: BoxCommand) -> Seq<char> {
    match c {
        BoxCommand::Encrypt => "stream encrypt"@,
        BoxCommand::Decrypt => "stream decrypt"@,
        BoxCommand::CreateTemplate => "tpl create"@,
        BoxCommand::ShowTemplate => "tpl show"@,
    }
}

impl BoxCommand {
    /// What the command is called.
    pub fn name(self) -> (r: &'static str)
        ensures
            r@ == command_name(self),
    {
        match self {
            BoxCommand::Encrypt => "stream encrypt",
            BoxCommand::Decrypt => "stream decrypt",
            BoxCommand::CreateTemplate => "tpl create",
            BoxCommand::ShowTemplate => "tpl show",
        }
    }
}

/// What is to be done next.
pub enum BoxStage {
    /// The template of a new stream has to be read.
    ReadTemplate { path: String },
    /// The bytes have to be understood as a template.
    OpenTemplate { bytes: Vec<u8> },
    /// A stream has to be made for the template.
    MakeStream,
    /// The plaintext has to be read; the size of a chunk.
    ReadPlain { size: usize },
    /// The header of the stream has to be made.
    Header { plain: Vec<u8>, size: usize },
    /// The header has to be written.
    WriteHeader { plain: Vec<u8>, size: usize, bytes: Vec<u8> },
    /// Chunk `i` of the plaintext, from `from` to `to`, has to be sealed.
    SealChunk { plain: Vec<u8>, size: usize, i: usize, from: usize, to: usize },
    /// The sealed chunk `i`, which ends at `to`, has to be written.
    WriteChunk { plain: Vec<u8>, size: usize, i: usize, to: usize, bytes: Vec<u8> },
    /// A stream has to be read.
    ReadStream { file: Option<String> },
    /// The bytes have to be understood as a stream.
    OpenStream { input: Vec<u8> },
    /// The stream has to be unlocked.
    Unlock { input: Vec<u8> },
    /// The length of the stream's header has to be found.
    MeasureHeader { input: Vec<u8> },
    /// The frame from `from` to `to` has to be opened as chunk `number`;
    /// what was opened so far.
    OpenChunk { input: Vec<u8>, from: usize, to: usize, number: u32, out: Vec<u8> },
    /// The plaintext has to be written.
    WritePlain { out: Vec<u8> },
    /// The cards have to be listed, to make a template for one of them.
    Cards { name: String, guid: Guid },
    /// The slots of a card have to be read; its place among those listed.
    ReadSlots { name: String, card: usize },
    /// The template with this part has to be put into its text form.
    Serialize { name: String, part: TemplatePart },
    /// The directory of templates has to be made.
    MakeDir { name: String, text: String },
    /// The template has to be written to a file.
    WriteFile { path: String, text: String },
    /// A template has to be read, to show it.
    ReadShown { file: Option<String> },
    /// The bytes have to be understood as a template, to show it.
    OpenShown { bytes: Vec<u8> },
    /// A text has to be printed.
    Print { text: String },
    /// Nothing is left to do; the exit code and what is said.
    Ended { code: i32, said: Option<String> },
}

/// [`BoxStage`] over plain values.
pub enum StageView {
    ReadTemplate(Seq<char>),
    OpenTemplate(Seq<u8>),
    MakeStream,
    ReadPlain(nat),
    Header(Seq<u8>, nat),
    WriteHeader(Seq<u8>, nat, Seq<u8>),
    SealChunk(Seq<u8>, nat, nat, int, int),
    WriteChunk(Seq<u8>, nat, nat, int, Seq<u8>),
    ReadStream(Option<Seq<char>>),
    OpenStream(Seq<u8>),
    Unlock(Seq<u8>),
    MeasureHeader(Seq<u8>),
    OpenChunk(Seq<u8>, int, int, nat, Seq<u8>),
    WritePlain(Seq<u8>),
    Cards(Seq<char>, Seq<u8>),
    ReadSlots(Seq<char>, int),
    Serialize(Seq<char>, PartView),
    MakeDir(Seq<char>, Seq<char>),
    WriteFile(Seq<char>, Seq<char>),
    ReadShown(Option<Seq<char>>),
    OpenShown(Seq<u8>),
    Print(Seq<char>),
    Ended(int, Option<Seq<char>>),
}

impl View for BoxStage {
    type V = StageView;

    open spec fn view(&self) -> StageView {
        match self {
            BoxStage::ReadTemplate { path } => StageView::ReadTemplate(path@),
            BoxStage::OpenTemplate { bytes } => StageView::OpenTemplate(bytes@),
            BoxStage::MakeStream => StageView::MakeStream,
            BoxStage::ReadPlain { size } => StageView::ReadPlain(*size as nat),
            BoxStage::Header { plain, size } => StageView::Header(plain@, *size as nat),
            BoxStage::WriteHeader { plain, size, bytes } => StageView::WriteHeader(
                plain@,
                *size as nat,
                bytes@,
            ),
            BoxStage::SealChunk { plain, size, i, from, to } => StageView::SealChunk(
                plain@,
                *size as nat,
                *i as nat,
                *from as int,
                *to as int,
            ),
            BoxStage::WriteChunk { plain, size, i, to, bytes } => StageView::WriteChunk(
                plain@,
                *size as nat,
                *i as nat,
                *to as int,
                bytes@,
            ),
            BoxStage::ReadStream { file } => StageView::ReadStream(opt_text(*file)),
            BoxStage::OpenStream { input } => StageView::OpenStream(input@),
            BoxStage::Unlock { input } => StageView::Unlock(input@),
            BoxStage::MeasureHeader { input } => StageView::MeasureHeader(input@),
            BoxStage::OpenChunk { input, from, to, number, out } => StageView::OpenChunk(
                input@,
                *from as int,
                *to as int,
                *number as nat,
                out@,
            ),
            BoxStage::WritePlain { out } => StageView::WritePlain(out@),
            BoxStage::Cards { name, guid } => StageView::Cards(name@, guid@),
            BoxStage::ReadSlots { name, card } => StageView::ReadSlots(name@, *card as int),
            BoxStage::Serialize { name, part } => StageView::Serialize(name@, part@),
            BoxStage::MakeDir { name, text } => StageView::MakeDir(name@, text@),
            BoxStage::WriteFile { path, text } => StageView::WriteFile(path@, text@),
            BoxStage::ReadShown { file } => StageView::ReadShown(opt_text(*file)),
            BoxStage::OpenShown { bytes } => StageView::OpenShown(bytes@),
            BoxStage::Print { text } => StageView::Print(text@),
            BoxStage::Ended { code, said } => StageView::Ended(*code as int, opt_text(*said)),
        }
    }
}

/// What came of a step; a step that failed comes with the words for it.
pub enum BoxEvent {
    Bytes(Result<Vec<u8>, String>),
    Done(Result<(), String>),
    Count(Result<usize, String>),
    Cards(Result<Vec<Guid>, String>),
    Slots(Result<TokenInfo, String>),
    Text(Result<String, String>),
    Template(Result<ShownTemplate, String>),
    Printed,
}

/// [`BoxEvent`] over plain values.
pub enum EventView {
    Bytes(Result<Seq<u8>, Seq<char>>),
    Done(Option<Seq<char>>),
    Count(Result<nat, Seq<char>>),
    Cards(Result<Seq<Guid>, Seq<char>>),
    Slots(Result<TokenInfo, Seq<char>>),
    Text(Result<Seq<char>, Seq<char>>),
    Template(Result<ShownTemplate, Seq<char>>),
    Printed,
}

impl View for BoxEvent {
    type V = EventView;

    open spec fn view(&self) -> EventView {
        match self {
            BoxEvent::Bytes(Ok(b)) => EventView::Bytes(Ok(b@)),
            BoxEvent::Bytes(Err(e)) => EventView::Bytes(Err(e@)),
            BoxEvent::Done(Ok(_)) => EventView::Done(None),
            BoxEvent::Done(Err(e)) => EventView::Done(Some(e@)),
            BoxEvent::Count(Ok(n)) => EventView::Count(Ok(*n as nat)),
            BoxEvent::Count(Err(e)) => EventView::Count(Err(e@)),
            BoxEvent::Cards(Ok(c)) => EventView::Cards(Ok(c@)),
            BoxEvent::Cards(Err(e)) => EventView::Cards(Err(e@)),
            BoxEvent::Slots(Ok(t)) => EventView::Slots(Ok(*t)),
            BoxEvent::Slots(Err(e)) => EventView::Slots(Err(e@)),
            BoxEvent::Text(Ok(s)) => EventView::Text(Ok(s@)),
            BoxEvent::Text(Err(e)) => EventView::Text(Err(e@)),
            BoxEvent::Template(Ok(t)) => EventView::Template(Ok(*t)),
            BoxEvent::Template(Err(e)) => EventView::Template(Err(e@)),
            BoxEvent::Printed => EventView::Printed,
        }
    }
}

// --------------------------------------------------------------- the rules

/// A job: the command, the directory of templates and what is to be done
/// next.
pub struct BoxJob {
    pub command: BoxCommand,
    pub dir: String,
    pub stage: BoxStage,
}

/// [`BoxJob`] over plain values.
pub struct JobView {
    pub command: BoxCommand,
    pub dir: Seq<char>,
    pub stage: StageView,
}

impl View for BoxJob {
    type V = JobView;

    open spec fn view(&self) -> JobView {
        JobView { command: self.command, dir: self.dir@, stage: self.stage@ }
    }
}

/// Whether an event answers a stage. The chunks of a plaintext need a size,
/// a header is no longer than its stream, and the number of the last chunk
/// is one that can be counted on from.
pub open spec fn fits(stage: StageView, e: EventView) -> bool {
    match stage {
        StageView::ReadTemplate(_) => e is Bytes,
        StageView::OpenTemplate(_) => e is Done,
        StageView::MakeStream => e is Count,
        StageView::ReadPlain(size) => match e {
            EventView::Bytes(Ok(plain)) => plain.len() > 0 ==> size > 0,
            EventView::Bytes(Err(_)) => true,
            _ => false,
        },
        StageView::Header(_, _) => e is Bytes,
        StageView::WriteHeader(_, _, _) => e is Done,
        StageView::SealChunk(_, _, _, _, _) => e is Bytes,
        StageView::WriteChunk(_, _, _, _, _) => e is Done,
        StageView::ReadStream(_) => e is Bytes,
        StageView::OpenStream(_) => e is Done,
        StageView::Unlock(_) => e is Done,
        StageView::MeasureHeader(input) => match e {
            EventView::Count(Ok(n)) => n <= input.len(),
            EventView::Count(Err(_)) => true,
            _ => false,
        },
        StageView::OpenChunk(_, _, _, number, _) => match e {
            EventView::Bytes(Ok(_)) => number < u32::MAX,
            EventView::Bytes(Err(_)) => true,
            _ => false,
        },
        StageView::WritePlain(_) => e is Done,
        StageView::Cards(_, _) => e is Cards,
        StageView::ReadSlots(_, _) => e is Slots,
        StageView::Serialize(_, _) => e is Text,
        StageView::MakeDir(_, _) => e is Done,
        StageView::WriteFile(_, _) => e is Done,
        StageView::ReadShown(_) => e is Bytes,
        StageView::OpenShown(_) => e is Template,
        StageView::Print(_) => e is Printed,
        StageView::Ended(_, _) => false,
    }
}

/// The job at another stage.
pub open spec fn at(j: JobView, stage: StageView) -> JobView {
    JobView { stage, ..j }
}

/// The job, given up with the code one and these words.
pub open spec fn failed(j: JobView, words: Seq<char>) -> JobView {
    at(
        j,
        StageView::Ended(1, Some("piggy box "@ + command_name(j.command) + ": "@ + words + "\n"@)),
    )
}

/// The job, done.
pub open spec fn finished(j: JobView) -> JobView {
    at(j, StageView::Ended(0, None))
}

/// The words for a file, or the standard input, that could not be read.
pub open spec fn read_error(file: Option<Seq<char>>, e: Seq<char>) -> Seq<char> {
    match file {
        Some(path) => "cannot read "@ + path + ": "@ + e,
        None => "stdin: "@ + e,
    }
}

/// On to chunk `i` of a plaintext, or to the end behind the last one.
pub open spec fn to_chunk(j: JobView, plain: Seq<u8>, size: nat, i: nat) -> JobView {
    if i < chunk_count(plain.len(), size) {
        let (from, to) = chunk_range(plain.len(), size, i);
        at(j, StageView::SealChunk(plain, size, i, from, to))
    } else {
        finished(j)
    }
}

/// On to the frame at a position, or to the plaintext where none is left.
pub open spec fn to_frame(j: JobView, input: Seq<u8>, from: int, number: nat, out: Seq<u8>)
    -> JobView {
    match frame_end(input, from) {
        Err(e) => failed(j, e),
        Ok(None) => at(j, StageView::WritePlain(out)),
        Ok(Some(to)) => at(j, StageView::OpenChunk(input, from, to, number, out)),
    }
}

/// On to the slots of the card with the given GUID.
pub open spec fn to_slots(j: JobView, name: Seq<char>, guid: Seq<u8>, cards: Seq<Guid>)
    -> JobView {
    let i = card_place(cards, guid, 0);
    if i < cards.len() {
        at(j, StageView::ReadSlots(name, i))
    } else {
        failed(j, "PIV device "@ + hex_text(guid, true) + " not found"@)
    }
}

/// What a job that encrypts comes to by an event.
pub open spec fn next_encrypt(j: JobView, e: EventView) -> JobView {
    match (j.stage, e) {
        (StageView::ReadTemplate(path), EventView::Bytes(Err(e))) => failed(
            j,
            "cannot read template "@ + path + ": "@ + e,
        ),
        (StageView::ReadTemplate(_), EventView::Bytes(Ok(b))) => at(j, StageView::OpenTemplate(b)),
        (StageView::OpenTemplate(_), EventView::Done(Some(e))) => failed(
            j,
            "invalid template: "@ + e,
        ),
        (StageView::OpenTemplate(_), EventView::Done(None)) => at(j, StageView::MakeStream),
        (StageView::MakeStream, EventView::Count(Err(e))) => failed(
            j,
            "failed to create stream: "@ + e,
        ),
        (StageView::MakeStream, EventView::Count(Ok(n))) => at(j, StageView::ReadPlain(n)),
        (StageView::ReadPlain(_), EventView::Bytes(Err(e))) => failed(j, "stdin: "@ + e),
        (StageView::ReadPlain(n), EventView::Bytes(Ok(p))) => at(j, StageView::Header(p, n)),
        (StageView::Header(_, _), EventView::Bytes(Err(e))) => failed(j, "header: "@ + e),
        (StageView::Header(p, n), EventView::Bytes(Ok(b))) => at(
            j,
            StageView::WriteHeader(p, n, b),
        ),
        (StageView::WriteHeader(_, _, _), EventView::Done(Some(e))) => failed(j, "write: "@ + e),
        (StageView::WriteHeader(p, n, _), EventView::Done(None)) => to_chunk(j, p, n, 0),
        (StageView::SealChunk(_, _, i, _, _), EventView::Bytes(Err(e))) => failed(
            j,
            "chunk "@ + dec(i) + ": "@ + e,
        ),
        (StageView::SealChunk(p, n, i, _, to), EventView::Bytes(Ok(b))) => at(
            j,
            StageView::WriteChunk(p, n, i, to, b),
        ),
        (StageView::WriteChunk(_, _, _, _, _), EventView::Done(Some(e))) => failed(
            j,
            "write: "@ + e,
        ),
        (StageView::WriteChunk(p, n, i, _, _), EventView::Done(None)) => to_chunk(j, p, n, i + 1),
        _ => j,
    }
}

/// What a job that decrypts comes to by an event.
pub open spec fn next_decrypt(j: JobView, e: EventView) -> JobView {
    match (j.stage, e) {
        (StageView::ReadStream(file), EventView::Bytes(Err(e))) => failed(j, read_error(file, e)),
        (StageView::ReadStream(_), EventView::Bytes(Ok(b))) => at(j, StageView::OpenStream(b)),
        (StageView::OpenStream(_), EventView::Done(Some(e))) => failed(j, "invalid stream: "@ + e),
        (StageView::OpenStream(b), EventView::Done(None)) => at(j, StageView::Unlock(b)),
        (StageView::Unlock(_), EventView::Done(Some(e))) => failed(j, "unlock failed: "@ + e),
        (StageView::Unlock(b), EventView::Done(None)) => at(j, StageView::MeasureHeader(b)),
        (StageView::MeasureHeader(_), EventView::Count(Err(e))) => failed(j, e),
        (StageView::MeasureHeader(b), EventView::Count(Ok(n))) => to_frame(
            j,
            b,
            n as int,
            0,
            seq![],
        ),
        (StageView::OpenChunk(_, _, _, k, _), EventView::Bytes(Err(e))) => failed(
            j,
            "chunk "@ + dec(k) + ": "@ + e,
        ),
        (StageView::OpenChunk(b, _, to, k, out), EventView::Bytes(Ok(p))) => to_frame(
            j,
            b,
            to,
            k + 1,
            out + p,
        ),
        (StageView::WritePlain(_), EventView::Done(Some(e))) => failed(j, "write: "@ + e),
        (StageView::WritePlain(_), EventView::Done(None)) => finished(j),
        _ => j,
    }
}

/// What a job on a template comes to by an event. `said` are the words for a
/// card's key whose point cannot be compressed.
pub open spec fn next_template(j: JobView, e: EventView, said: Seq<char>) -> JobView {
    match (j.stage, e) {
        (StageView::Cards(_, _), EventView::Cards(Err(e))) => failed(j, e),
        (StageView::Cards(name, guid), EventView::Cards(Ok(cards))) => to_slots(
            j,
            name,
            guid,
            cards,
        ),
        (StageView::ReadSlots(_, _), EventView::Slots(Err(e))) => failed(j, "read slots: "@ + e),
        (StageView::ReadSlots(name, _), EventView::Slots(Ok(t))) => match part_of(t, said) {
            Err(e) => failed(j, e),
            Ok(part) => at(j, StageView::Serialize(name, part)),
        },
        (StageView::Serialize(_, _), EventView::Text(Err(e))) => failed(j, "serialize: "@ + e),
        (StageView::Serialize(name, _), EventView::Text(Ok(s))) => at(
            j,
            StageView::MakeDir(name, s),
        ),
        (StageView::MakeDir(_, _), EventView::Done(Some(e))) => failed(
            j,
            "mkdir "@ + j.dir + ": "@ + e,
        ),
        (StageView::MakeDir(name, s), EventView::Done(None)) => at(
            j,
            StageView::WriteFile(path_joined(j.dir, name), s),
        ),
        (StageView::WriteFile(file, _), EventView::Done(Some(e))) => failed(
            j,
            "write "@ + file + ": "@ + e,
        ),
        (StageView::WriteFile(_, _), EventView::Done(None)) => finished(j),
        (StageView::ReadShown(file), EventView::Bytes(Err(e))) => failed(j, read_error(file, e)),
        (StageView::ReadShown(_), EventView::Bytes(Ok(b))) => at(j, StageView::OpenShown(b)),
        (StageView::OpenShown(_), EventView::Template(Err(e))) => failed(
            j,
            "invalid template: "@ + e,
        ),
        (StageView::OpenShown(_), EventView::Template(Ok(t))) => at(
            j,
            StageView::Print(template_text(t)),
        ),
        (StageView::Print(_), EventView::Printed) => finished(j),
        _ => j,
    }
}

/// Whether a stage is one of encrypting.
pub open spec fn encrypts(stage: StageView) -> bool {
    stage is ReadTemplate || stage is OpenTemplate || stage is MakeStream || stage is ReadPlain
        || stage is Header || stage is WriteHeader || stage is SealChunk || stage is WriteChunk
}

/// Whether a stage is one of decrypting.
pub open spec fn decrypts(stage: StageView) -> bool {
    stage is ReadStream || stage is OpenStream || stage is Unlock || stage is MeasureHeader
        || stage is OpenChunk || stage is WritePlain
}

/// What a job comes to by an event that answers its stage. `said` are the
/// words for a point that cannot be compressed, where the step needs any.
pub open spec fn next(j: JobView, e: EventView, said: Seq<char>) -> JobView {
    if encrypts(j.stage) {
        next_encrypt(j, e)
    } else if decrypts(j.stage) {
        next_decrypt(j, e)
    } else {
        next_template(j, e, said)
    }
}

/// How a command begins, or the code and the words where the command line
/// makes no sense.
pub open spec fn begun(action: BoxView, dir: Seq<char>) -> Result<JobView, (int, Seq<char>)> {
    match action {
        BoxView::Usage(s) => Err((2, usage_banner(s))),
        BoxView::Reject(s) => Err((1, s + "\n"@)),
        BoxView::Encrypt(path) => Ok(
            JobView { command: BoxCommand::Encrypt, dir, stage: StageView::ReadTemplate(path) },
        ),
        BoxView::Decrypt(file) => Ok(
            JobView { command: BoxCommand::Decrypt, dir, stage: StageView::ReadStream(file) },
        ),
        BoxView::CreateTemplate(name, guid) => Ok(
            JobView {
                command: BoxCommand::CreateTemplate,
                dir,
                stage: StageView::Cards(name, guid),
            },
        ),
        BoxView::ShowTemplate(file) => Ok(
            JobView { command: BoxCommand::ShowTemplate, dir, stage: StageView::ReadShown(file) },
        ),
    }
}

/// What holds of every job: a chunk is one of its plaintext, a frame lies in
/// its stream.
pub open spec fn sound(j: JobView) -> bool {
    match j.stage {
        StageView::Header(p, n) => p.len() > 0 ==> n > 0,
        StageView::WriteHeader(p, n, _) => p.len() > 0 ==> n > 0,
        StageView::SealChunk(p, n, i, from, to) => {
            &&& p.len() > 0 ==> n > 0
            &&& i < chunk_count(p.len(), n)
            &&& (from, to) == chunk_range(p.len(), n, i)
            &&& 0 <= from <= to <= p.len()
        },
        StageView::WriteChunk(p, n, i, to, _) => {
            &&& p.len() > 0 ==> n > 0
            &&& i < chunk_count(p.len(), n)
            &&& to == chunk_range(p.len(), n, i).1
            &&& 0 <= to <= p.len()
        },
        StageView::OpenChunk(b, from, to, _, _) => 0 <= from < to <= b.len(),
        _ => true,
    }
}

// ----------------------------------------------------------------- the job

/// Where a chunk starts, if it is one of the plaintext; else the plaintext
/// is over.
proof fn lemma_chunk_start(len: nat, size: nat, i: nat)
    requires
        len > 0,
        size > 0,
    ensures
        i < chunk_count(len, size) <==> i * size < len,
        i < chunk_count(len, size) ==> i < len,
        (i + 1) * size == i * size + size,
{
    lemma_chunk_bounds(len, size, i);
    assert(i <= i * size) by (nonlinear_arith)
        requires
            size > 0,
    ;
    assert((i + 1) * size == i * size + size) by (nonlinear_arith);
}

impl BoxJob {
    fn to(self, stage: BoxStage) -> (r: BoxJob)
        ensures
            r@ == at(self@, stage@),
    {
        BoxJob { command: self.command, dir: self.dir, stage }
    }

    fn fail(self, words: &str) -> (r: BoxJob)
        ensures
            r@ == failed(self@, words@),
    {
        let said: String = cat5("piggy box ", self.command.name(), ": ", words, "\n");
        self.to(BoxStage::Ended { code: 1, said: Some(said) })
    }

    fn fail_with(self, words: &str, e: &str) -> (r: BoxJob)
        ensures
            r@ == failed(self@, words@ + e@),
    {
        let all: String = cat2(words, e);
        self.fail(all.as_str())
    }

    fn fail_of(self, before: &str, what: &str, e: &str) -> (r: BoxJob)
        ensures
            r@ == failed(self@, before@ + what@ + ": "@ + e@),
    {
        let words: String = cat3(before, what, ": ");
        self.fail_with(words.as_str(), e)
    }

    fn fail_read(self, file: &Option<String>, e: &str) -> (r: BoxJob)
        ensures
            r@ == failed(self@, read_error(opt_text(*file), e@)),
    {
        match file {
            Some(path) => self.fail_of("cannot read ", path.as_str(), e),
            None => self.fail_with("stdin: ", e),
        }
    }

    fn finish(self) -> (r: BoxJob)
        ensures
            r@ == finished(self@),
    {
        self.to(BoxStage::Ended { code: 0, said: None })
    }

    fn chunk_next(self, plain: Vec<u8>, size: usize, i: usize, from: usize) -> (r: BoxJob)
        requires
            plain@.len() > 0 ==> size > 0,
            plain@.len() == 0 ==> from == 0,
            from <= plain@.len(),
            from < plain@.len() ==> from == i * size,
            from == plain@.len() ==> i * size >= plain@.len(),
        ensures
            r@ == to_chunk(self@, plain@, size as nat, i as nat),
            sound(r@),
    {
        let len: usize = plain.len();
        proof {
            if len > 0 {
                lemma_chunk_start(len as nat, size as nat, i as nat);
            } else {
                assert(0 * size as nat == 0) by (nonlinear_arith);
            }
        }
        if from < len {
            let to: usize = if len - from > size {
                from + size
            } else {
                len
            };
            self.to(BoxStage::SealChunk { plain, size, i, from, to })
        } else if len == 0 && i == 0 {
            self.to(BoxStage::SealChunk { plain, size, i, from: 0, to: 0 })
        } else {
            self.finish()
        }
    }

    fn frame_next(self, input: Vec<u8>, from: usize, number: u32, out: Vec<u8>) -> (r: BoxJob)
        ensures
            r@ == to_frame(self@, input@, from as int, number as nat, out@),
            sound(r@),
    {
        let reader: FrameReader = FrameReader { at: from, seqnr: number };
        match reader.next_frame(input.as_slice()) {
            Err(e) => self.fail(e.as_str()),
            Ok(None) => self.to(BoxStage::WritePlain { out }),
            Ok(Some(to)) => self.to(BoxStage::OpenChunk { input, from, to, number, out }),
        }
    }

    fn slots_next(self, name: String, guid: &Guid, cards: &Vec<Guid>) -> (r: BoxJob)
        ensures
            r@ == to_slots(self@, name@, guid@, cards@),
            sound(r@),
    {
        match find_card(cards, guid) {
            Err(e) => self.fail(e.as_str()),
            Ok(card) => self.to(BoxStage::ReadSlots { name, card }),
        }
    }

    /// Begins a command; templates are kept below the home directory.
    pub fn new(action: BoxAction, home: &Option<String>, macos: bool) -> (r: Result<
        BoxJob,
        (i32, String),
    >)
        ensures
            match r {
                Ok(j) => begun(action@, tpl_dir_of(opt_text(*home), macos)) == Ok::<
                    JobView,
                    (int, Seq<char>),
                >(j@) && sound(j@),
                Err((code, said)) => begun(action@, tpl_dir_of(opt_text(*home), macos)) == Err::<
                    JobView,
                    (int, Seq<char>),
                >((code as int, said@)),
            },
    {
        let dir: String = tpl_dir(home, macos);
        let (command, stage) = match action {
            BoxAction::Encrypt { template } => (
                BoxCommand::Encrypt,
                BoxStage::ReadTemplate { path: template },
            ),
            BoxAction::Decrypt { file } => (BoxCommand::Decrypt, BoxStage::ReadStream { file }),
            BoxAction::CreateTemplate { name, guid } => (
                BoxCommand::CreateTemplate,
                BoxStage::Cards { name, guid },
            ),
            BoxAction::ShowTemplate { file } => (
                BoxCommand::ShowTemplate,
                BoxStage::ReadShown { file },
            ),
            BoxAction::Usage(s) => return Err((2, usage_text(s.as_str()))),
            BoxAction::Reject(s) => return Err((1, cat2(s.as_str(), "\n"))),
        };
        Ok(BoxJob { command, dir, stage })
    }

    /// Takes what came of the step that was to be done.
    pub fn on(self, e: BoxEvent) -> (r: BoxJob)
        requires
            fits(self@.stage, e@),
            sound(self@),
        ensures
            exists|said: Seq<char>|
                is_compress_error(said) && r@ == #[trigger] next(self@, e@, said),
            sound(r@),
    {
        let ghost before = self@;
        let ghost event = e@;
        let ghost some = compress_error(EcStep::Group, seq![]);
        assert(is_compress_error(some));
        match self.stage {
            BoxStage::ReadStream { .. }
            | BoxStage::OpenStream { .. }
            | BoxStage::Unlock { .. }
            | BoxStage::MeasureHeader { .. }
            | BoxStage::OpenChunk { .. }
            | BoxStage::WritePlain { .. } => {
                let r: BoxJob = self.on_decrypt(e);
                assert(r@ == next(before, event, some));
                r
            },
            BoxStage::Cards { .. }
            | BoxStage::ReadSlots { .. }
            | BoxStage::Serialize { .. }
            | BoxStage::MakeDir { .. }
            | BoxStage::WriteFile { .. }
            | BoxStage::ReadShown { .. }
            | BoxStage::OpenShown { .. }
            | BoxStage::Print { .. } => {
                let r: BoxJob = self.on_template(e);
                let ghost said = choose|said: Seq<char>|
                    is_compress_error(said) && r@ == #[trigger] next_template(before, event, said);
                assert(r@ == next(before, event, said));
                r
            },
            _ => {
                let r: BoxJob = self.on_encrypt(e);
                assert(r@ == next(before, event, some));
                r
            },
        }
    }

    fn on_encrypt(self, e: BoxEvent) -> (r: BoxJob)
        requires
            fits(self@.stage, e@),
            sound(self@),
            encrypts(self@.stage),
        ensures
            r@ == next_encrypt(self@, e@),
            sound(r@),
    {
        let BoxJob { command, dir, stage } = self;
        let job: BoxJob = BoxJob { command, dir, stage: BoxStage::MakeStream };
        match (stage, e) {
            (BoxStage::ReadTemplate { path }, BoxEvent::Bytes(read)) => match read {
                Err(e) => job.fail_of("cannot read template ", path.as_str(), e.as_str()),
                Ok(bytes) => job.to(BoxStage::OpenTemplate { bytes }),
            },
            (BoxStage::OpenTemplate { .. }, BoxEvent::Done(done)) => match done {
                Err(e) => job.fail_with("invalid template: ", e.as_str()),
                Ok(_) => job.to(BoxStage::MakeStream),
            },
            (BoxStage::MakeStream, BoxEvent::Count(made)) => match made {
                Err(e) => job.fail_with("failed to create stream: ", e.as_str()),
                Ok(size) => job.to(BoxStage::ReadPlain { size }),
            },
            (BoxStage::ReadPlain { size }, BoxEvent::Bytes(read)) => match read {
                Err(e) => job.fail_with("stdin: ", e.as_str()),
                Ok(plain) => job.to(BoxStage::Header { plain, size }),
            },
            (BoxStage::Header { plain, size }, BoxEvent::Bytes(made)) => match made {
                Err(e) => job.fail_with("header: ", e.as_str()),
                Ok(bytes) => job.to(BoxStage::WriteHeader { plain, size, bytes }),
            },
            (BoxStage::WriteHeader { plain, size, .. }, BoxEvent::Done(done)) => match done {
                Err(e) => job.fail_with("write: ", e.as_str()),
                Ok(_) => {
                    assert(0 * size as nat == 0) by (nonlinear_arith);
                    job.chunk_next(plain, size, 0, 0)
                },
            },
            (BoxStage::SealChunk { plain, size, i, to, .. }, BoxEvent::Bytes(made)) => match made {
                Err(e) => job.fail_of("chunk ", dec_usize(i).as_str(), e.as_str()),
                Ok(bytes) => job.to(BoxStage::WriteChunk { plain, size, i, to, bytes }),
            },
            (BoxStage::WriteChunk { plain, size, i, to, .. }, BoxEvent::Done(done)) => match done {
                Err(e) => job.fail_with("write: ", e.as_str()),
                Ok(_) => {
                    let len: usize = plain.len();
                    proof {
                        if len > 0 {
                            lemma_chunk_start(len as nat, size as nat, i as nat);
                        } else {
                            assert((i + 1) * size >= 0) by (nonlinear_arith)
                                requires
                                    i >= 0,
                                    size >= 0,
                            ;
                        }
                    }
                    job.chunk_next(plain, size, i + 1, to)
                },
            },
            (stage, _) => job.to(stage),
        }
    }

    fn on_decrypt(self, e: BoxEvent) -> (r: BoxJob)
        requires
            fits(self@.stage, e@),
            sound(self@),
            decrypts(self@.stage),
        ensures
            r@ == next_decrypt(self@, e@),
            sound(r@),
    {
        let BoxJob { command, dir, stage } = self;
        let job: BoxJob = BoxJob { command, dir, stage: BoxStage::MakeStream };
        match (stage, e) {
            (BoxStage::ReadStream { file }, BoxEvent::Bytes(read)) => match read {
                Err(e) => job.fail_read(&file, e.as_str()),
                Ok(input) => job.to(BoxStage::OpenStream { input }),
            },
            (BoxStage::OpenStream { input }, BoxEvent::Done(done)) => match done {
                Err(e) => job.fail_with("invalid stream: ", e.as_str()),
                Ok(_) => job.to(BoxStage::Unlock { input }),
            },
            (BoxStage::Unlock { input }, BoxEvent::Done(done)) => match done {
                Err(e) => job.fail_with("unlock failed: ", e.as_str()),
                Ok(_) => job.to(BoxStage::MeasureHeader { input }),
            },
            (BoxStage::MeasureHeader { input }, BoxEvent::Count(found)) => match found {
                Err(e) => job.fail(e.as_str()),
                Ok(n) => job.frame_next(input, n, 0, Vec::new()),
            },
            (
                BoxStage::OpenChunk { input, to, number, out, .. },
                BoxEvent::Bytes(opened),
            ) => match opened {
                Err(e) => {
                    let reader: FrameReader = FrameReader { at: to, seqnr: number };
                    let words: String = reader.failure(e.as_str());
                    job.fail(words.as_str())
                },
                Ok(plain) => {
                    let mut all: Vec<u8> = out;
                    all.extend_from_slice(plain.as_slice());
                    assert(all@ =~= out@ + plain@);
                    job.frame_next(input, to, number + 1, all)
                },
            },
            (BoxStage::WritePlain { .. }, BoxEvent::Done(done)) => match done {
                Err(e) => job.fail_with("write: ", e.as_str()),
                Ok(_) => job.finish(),
            },
            (stage, _) => job.to(stage),
        }
    }

    fn on_template(self, e: BoxEvent) -> (r: BoxJob)
        requires
            fits(self@.stage, e@),
            sound(self@),
            !encrypts(self@.stage) && !decrypts(self@.stage),
        ensures
            exists|said: Seq<char>|
                is_compress_error(said) && r@ == #[trigger] next_template(self@, e@, said),
            sound(r@),
    {
        let ghost before = self@;
        let ghost event = e@;
        let ghost mut said = compress_error(EcStep::Group, seq![]);
        assert(is_compress_error(said));
        let BoxJob { command, dir, stage } = self;
        let job: BoxJob = BoxJob { command, dir, stage: BoxStage::MakeStream };
        let r: BoxJob = match (stage, e) {
            (BoxStage::Cards { name, guid }, BoxEvent::Cards(listed)) => match listed {
                Err(e) => job.fail(e.as_str()),
                Ok(cards) => job.slots_next(name, &guid, &cards),
            },
            (BoxStage::ReadSlots { name, .. }, BoxEvent::Slots(read)) => match read {
                Err(e) => job.fail_with("read slots: ", e.as_str()),
                Ok(token) => {
                    let made: Result<TemplatePart, String> = plan_template(&token);
                    proof {
                        said = choose|w: Seq<char>|
                            is_compress_error(w) && #[trigger] part_of(token, w) == match made {
                                Ok(p) => Ok::<PartView, Seq<char>>(p@),
                                Err(e) => Err(e@),
                            };
                    }
                    match made {
                        Err(e) => job.fail(e.as_str()),
                        Ok(part) => job.to(BoxStage::Serialize { name, part }),
                    }
                },
            },
            (BoxStage::Serialize { name, .. }, BoxEvent::Text(made)) => match made {
                Err(e) => job.fail_with("serialize: ", e.as_str()),
                Ok(text) => job.to(BoxStage::MakeDir { name, text }),
            },
            (BoxStage::MakeDir { name, text }, BoxEvent::Done(done)) => match done {
                Err(e) => {
                    let words: String = cat3("mkdir ", job.dir.as_str(), ": ");
                    job.fail_with(words.as_str(), e.as_str())
                },
                Ok(_) => {
                    let path: String = join_path(job.dir.as_str(), name.as_str());
                    job.to(BoxStage::WriteFile { path, text })
                },
            },
            (BoxStage::WriteFile { path, .. }, BoxEvent::Done(done)) => match done {
                Err(e) => job.fail_of("write ", path.as_str(), e.as_str()),
                Ok(_) => job.finish(),
            },
            (BoxStage::ReadShown { file }, BoxEvent::Bytes(read)) => match read {
                Err(e) => job.fail_read(&file, e.as_str()),
                Ok(bytes) => job.to(BoxStage::OpenShown { bytes }),
            },
            (BoxStage::OpenShown { .. }, BoxEvent::Template(read)) => match read {
                Err(e) => job.fail_with("invalid template: ", e.as_str()),
                Ok(t) => {
                    let text: String = cmd_tpl_show(&t);
                    job.to(BoxStage::Print { text })
                },
            },
            (BoxStage::Print { .. }, BoxEvent::Printed) => job.finish(),
            (stage, _) => job.to(stage),
        };
        assert(r@ == next_template(before, event, said));
        r
    }
}

// -------------------------------------------------------------------- laws

/// How much may still be ahead: the steps of the command, and within its
/// loop what is left of the data.
pub open spec fn ahead(stage: StageView) -> (nat, int) {
    match stage {
        StageView::ReadTemplate(_) => (9, 0),
        StageView::OpenTemplate(_) => (8, 0),
        StageView::MakeStream => (7, 0),
        StageView::ReadPlain(_) => (6, 0),
        StageView::Header(_, _) => (5, 0),
        StageView::WriteHeader(_, _, _) => (4, 0),
        StageView::SealChunk(p, n, i, _, _) => (3, 2 * (chunk_count(p.len(), n) - i)),
        StageView::WriteChunk(p, n, i, _, _) => (3, 2 * (chunk_count(p.len(), n) - i) - 1),
        StageView::ReadStream(_) => (7, 0),
        StageView::OpenStream(_) => (6, 0),
        StageView::Unlock(_) => (5, 0),
        StageView::MeasureHeader(_) => (4, 0),
        StageView::OpenChunk(b, from, _, _, _) => (3, b.len() - from),
        StageView::WritePlain(_) => (2, 0),
        StageView::Cards(_, _) => (7, 0),
        StageView::ReadSlots(_, _) => (6, 0),
        StageView::Serialize(_, _) => (4, 0),
        StageView::MakeDir(_, _) => (3, 0),
        StageView::WriteFile(_, _) => (2, 0),
        StageView::ReadShown(_) => (5, 0),
        StageView::OpenShown(_) => (4, 0),
        StageView::Print(_) => (3, 0),
        StageView::Ended(_, _) => (0, 0),
    }
}

/// Whether a stage is nearer to the end than another.
pub open spec fn is_nearer(stage: StageView, than: StageView) -> bool {
    let (before, left) = ahead(than);
    let (after, rest) = ahead(stage);
    after < before || (after == before && 0 <= rest < left)
}

proof fn lemma_encryption_advances(j: JobView, e: EventView)
    requires
        fits(j.stage, e),
        sound(j),
        encrypts(j.stage),
    ensures
        is_nearer(next_encrypt(j, e).stage, j.stage),
{
}

proof fn lemma_decryption_advances(j: JobView, e: EventView)
    requires
        fits(j.stage, e),
        sound(j),
        decrypts(j.stage),
    ensures
        is_nearer(next_decrypt(j, e).stage, j.stage),
{
}

proof fn lemma_template_advances(j: JobView, e: EventView, said: Seq<char>)
    requires
        fits(j.stage, e),
        !encrypts(j.stage),
        !decrypts(j.stage),
    ensures
        is_nearer(next_template(j, e, said).stage, j.stage),
{
}

/// Every step brings a job nearer to its end, so each one ends.
pub proof fn law_job_advances(j: JobView, e: EventView, said: Seq<char>)
    requires
        fits(j.stage, e),
        sound(j),
    ensures
        is_nearer(next(j, e, said).stage, j.stage),
{
    if encrypts(j.stage) {
        lemma_encryption_advances(j, e);
    } else if decrypts(j.stage) {
        lemma_decryption_advances(j, e);
    } else {
        lemma_template_advances(j, e, said);
    }
}

/// The chunks of a plaintext, each as its bytes.
pub open spec fn pieces(plain: Seq<u8>, size: nat) -> Seq<Seq<u8>> {
    Seq::new(
        chunk_count(plain.len(), size),
        |i: int|
            plain.subrange(
                chunk_range(plain.len(), size, i as nat).0,
                chunk_range(plain.len(), size, i as nat).1,
            ),
    )
}

/// Byte strings in a row.
pub open spec fn in_a_row(parts: Seq<Seq<u8>>) -> Seq<u8>
    decreases parts.len(),
{
    if parts.len() == 0 {
        seq![]
    } else {
        in_a_row(parts.drop_last()) + parts.last()
    }
}

proof fn lemma_row_from_front(parts: Seq<Seq<u8>>)
    requires
        parts.len() > 0,
    ensures
        in_a_row(parts) == parts[0] + in_a_row(parts.skip(1)),
    decreases parts.len(),
{
    if parts.len() == 1 {
        assert(parts.drop_last() =~= Seq::<Seq<u8>>::empty());
        assert(parts.skip(1) =~= Seq::<Seq<u8>>::empty());
        reveal_with_fuel(in_a_row, 2);
        assert(in_a_row(parts) =~= parts[0]);
        assert(parts[0] + in_a_row(parts.skip(1)) =~= parts[0]);
    } else {
        lemma_row_from_front(parts.drop_last());
        assert(parts.drop_last().skip(1) =~= parts.skip(1).drop_last());
        assert(parts.skip(1).last() == parts.last());
        assert(in_a_row(parts) =~= parts[0] + in_a_row(parts.skip(1)));
    }
}

proof fn lemma_pieces_in_a_row(plain: Seq<u8>, size: nat, n: nat)
    requires
        n <= chunk_count(plain.len(), size),
    ensures
        in_a_row(pieces(plain, size).take(n as int)) == chunks_joined(plain, size, n),
    decreases n,
{
    let some = pieces(plain, size).take(n as int);
    if n > 0 {
        lemma_pieces_in_a_row(plain, size, (n - 1) as nat);
        assert(some.drop_last() =~= pieces(plain, size).take(n - 1));
    }
}

/// What a job writes that seals chunk after chunk, given the sealed chunks,
/// and what it comes to.
pub open spec fn written(j: JobView, sealed: Seq<Seq<u8>>) -> (Seq<u8>, JobView)
    decreases sealed.len(),
{
    if sealed.len() == 0 {
        (seq![], j)
    } else {
        let writing = next(j, EventView::Bytes(Ok(sealed[0])), seq![]);
        let (rest, end) = written(next(writing, EventView::Done(None), seq![]), sealed.skip(1));
        (writing.stage->WriteChunk_4 + rest, end)
    }
}

/// What a job comes to that opens frame after frame, given the chunks in
/// them.
pub open spec fn opened(j: JobView, chunks: Seq<Seq<u8>>) -> JobView
    decreases chunks.len(),
{
    if chunks.len() == 0 {
        j
    } else {
        opened(next(j, EventView::Bytes(Ok(chunks[0])), seq![]), chunks.skip(1))
    }
}

/// Sealed chunks: each is a frame with the chunk's number and a body.
pub open spec fn numbered(bodies: Seq<Seq<u8>>, from: nat) -> Seq<Seq<u8>> {
    Seq::new(bodies.len(), |i: int| frame((from + i) as nat, bodies[i]))
}

proof fn lemma_chunk_step(
    j: JobView,
    plain: Seq<u8>,
    size: nat,
    i: nat,
    from: int,
    to: int,
    sealed: Seq<u8>,
)
    ensures
        ({
            let seal = at(j, StageView::SealChunk(plain, size, i, from, to));
            let writing = next(seal, EventView::Bytes(Ok(sealed)), seq![]);
            &&& writing == at(j, StageView::WriteChunk(plain, size, i, to, sealed))
            &&& next(writing, EventView::Done(None), seq![]) == to_chunk(j, plain, size, i + 1)
        }),
{
}

proof fn lemma_frame_step(
    j: JobView,
    data: Seq<u8>,
    from: int,
    to: int,
    number: nat,
    out: Seq<u8>,
    chunk: Seq<u8>,
)
    ensures
        next(
            at(j, StageView::OpenChunk(data, from, to, number, out)),
            EventView::Bytes(Ok(chunk)),
            seq![],
        ) == to_frame(j, data, to, number + 1, out + chunk),
{
}

proof fn lemma_first_steps(
    j: JobView,
    plain: Seq<u8>,
    size: nat,
    header: Seq<u8>,
    stream: Seq<u8>,
)
    ensures
        next(at(j, StageView::WriteHeader(plain, size, header)), EventView::Done(None), seq![])
            == to_chunk(j, plain, size, 0),
        next(
            at(j, StageView::MeasureHeader(stream)),
            EventView::Count(Ok(header.len())),
            seq![],
        )
            == to_frame(j, stream, header.len() as int, 0, seq![]),
{
}

proof fn lemma_written(j: JobView, plain: Seq<u8>, size: nat, bodies: Seq<Seq<u8>>, i: nat)
    requires
        i + bodies.len() == chunk_count(plain.len(), size),
    ensures
        written(to_chunk(j, plain, size, i), numbered(bodies, i)) == (
            frames(bodies, i),
            finished(j),
        ),
    decreases bodies.len(),
{
    let sealed = numbered(bodies, i);
    if bodies.len() > 0 {
        let rest = bodies.skip(1);
        lemma_written(j, plain, size, rest, i + 1);
        assert(sealed.skip(1) =~= numbered(rest, i + 1));
        let (from, to) = chunk_range(plain.len(), size, i);
        lemma_chunk_step(j, plain, size, i, from, to, sealed[0]);
    }
}

proof fn lemma_opened(
    j: JobView,
    before: Seq<u8>,
    bodies: Seq<Seq<u8>>,
    chunks: Seq<Seq<u8>>,
    number: nat,
    out: Seq<u8>,
)
    requires
        bodies.len() == chunks.len(),
        forall|i: int| 0 <= i < bodies.len() ==> (#[trigger] bodies[i]).len() < 0x1_0000_0000,
    ensures
        opened(
            to_frame(j, before + frames(bodies, number), before.len() as int, number, out),
            chunks,
        ) == at(j, StageView::WritePlain(out + in_a_row(chunks))),
    decreases bodies.len(),
{
    let data = before + frames(bodies, number);
    if bodies.len() == 0 {
        assert(data =~= before);
        assert(out + in_a_row(chunks) =~= out);
    } else {
        let rest = bodies.skip(1);
        let through = before + frame(number, bodies[0]);
        law_frame_is_found(before, number, bodies[0], frames(rest, number + 1));
        assert(data =~= before + frame(number, bodies[0]) + frames(rest, number + 1));
        assert(data =~= through + frames(rest, number + 1));
        assert forall|i: int| 0 <= i < rest.len() implies (#[trigger] rest[i]).len()
            < 0x1_0000_0000 by {
            assert(rest[i] == bodies[i + 1]);
        }
        lemma_opened(j, through, rest, chunks.skip(1), number + 1, out + chunks[0]);
        lemma_row_from_front(chunks);
        assert(out + chunks[0] + in_a_row(chunks.skip(1)) =~= out + in_a_row(chunks));
        lemma_frame_step(
            j,
            data,
            before.len() as int,
            through.len() as int,
            number,
            out,
            chunks[0],
        );
    }
}

/// What was encrypted is decrypted again: where each chunk is sealed as a
/// frame under its number, and each frame opens to the chunk in it, the
/// stream that encryption writes is decrypted to the very plaintext, in as
/// many chunks, with nothing left over.
pub proof fn law_plaintext_survives(
    j: JobView,
    plain: Seq<u8>,
    size: nat,
    header: Seq<u8>,
    bodies: Seq<Seq<u8>>,
)
    requires
        plain.len() > 0 ==> size > 0,
        bodies.len() == chunk_count(plain.len(), size),
        forall|i: int| 0 <= i < bodies.len() ==> (#[trigger] bodies[i]).len() < 0x1_0000_0000,
    ensures
        ({
            let begin = next(
                at(j, StageView::WriteHeader(plain, size, header)),
                EventView::Done(None),
                seq![],
            );
            let (stream, end) = written(begin, numbered(bodies, 0));
            let reading = next(
                at(j, StageView::MeasureHeader(header + stream)),
                EventView::Count(Ok(header.len())),
                seq![],
            );
            &&& end.stage == StageView::Ended(0, None)
            &&& stream == frames(bodies, 0)
            &&& opened(reading, pieces(plain, size)).stage == StageView::WritePlain(plain)
        }),
{
    lemma_written(j, plain, size, bodies, 0);
    lemma_first_steps(j, plain, size, header, header + frames(bodies, 0));
    let chunks = pieces(plain, size);
    lemma_opened(j, header, bodies, chunks, 0, seq![]);
    lemma_pieces_in_a_row(plain, size, chunks.len());
    assert(chunks.take(chunks.len() as int) =~= chunks);
    if plain.len() > 0 {
        law_chunks_make_up_the_plaintext(plain, size);
    } else {
        assert(chunks_joined(plain, size, 1) =~= plain) by {
            reveal_with_fuel(chunks_joined, 2);
            assert(0 * size == 0) by (nonlinear_arith);
        }
    }
    assert(Seq::<u8>::empty() + in_a_row(chunks) =~= plain);
}

/// No plaintext is written of a stream that is cut off inside a frame.
pub proof fn law_cut_stream_is_not_written(
    j: JobView,
    before: Seq<u8>,
    number: nat,
    body: Seq<u8>,
    keep: nat,
    out: Seq<u8>,
)
    requires
        body.len() < 0x1_0000_0000,
        0 < keep < frame(number, body).len(),
    ensures
        ({
            let data = before + frame(number, body).take(keep as int);
            let end = to_frame(j, data, before.len() as int, number, out);
            end.stage is Ended && end.stage->Ended_0 == 1
        }),
{
    law_cut_frame_is_refused(before, number, body, keep);
}

} // verus!
