//! `pass insert`: a new entry from what is typed or piped in.
use crate::options::{
    first_unknown, given, has_option, operands_of, options_of, scan, unknown_option,
};
use crate::store_path::{
    entry_file, is_sneaky, passfile, path_parent_for_search, search_folder, sneaky_message,
    sneaky_path_reason,
};
use crate::text::{
    cat2, cat3, law_trim_end_takes_only_these, same, texts, trim_end_chars, trim_end_two,
};
use vstd::prelude::*;
use vstd::utf8::encode_utf8;

verus! {

/// How the entry is read.
#[derive(Clone, Copy, Debug, PartialEq, Eq, Structural)]
pub enum Mode {
    /// A line without echo, twice.
    SilentTwice,
    /// A line with echo.
    Echo,
    /// Everything up to the end.
    Multiline,
}

/// What was asked for.
#[derive(Debug)]
pub struct Opts {
    pub mode: Mode,
    pub force: bool,
    pub path: String,
}

/// What is said of a command line that makes no sense.
pub const USAGE: &'static str = "Usage: piggy pass insert [--echo,-e | --multiline,-m] [--force,-f] pass-name";

/// The options that there are.
pub open spec fn known_options() -> Seq<Seq<char>> {
    seq!["-m"@, "--multiline"@, "-e"@, "--echo"@, "-f"@, "--force"@]
}

/// What a command line means.
pub open spec fn parsed(args: Seq<Seq<char>>) -> Result<(Mode, bool, Seq<char>), Seq<char>> {
    let options = options_of(args);
    let multiline = given(options, "-m"@, "--multiline"@);
    let echo = given(options, "-e"@, "--echo"@);
    if first_unknown(options, known_options(), 0) is Some || (multiline && echo) || operands_of(
        args,
    ).len() != 1 {
        Err(USAGE@)
    } else {
        Ok(
            (
                if multiline {
                    Mode::Multiline
                } else if echo {
                    Mode::Echo
                } else {
                    Mode::SilentTwice
                },
                given(options, "-f"@, "--force"@),
                trim_end_two(operands_of(args)[0], '/', '/'),
            ),
        )
    }
}

/// Reads a command line.
pub fn parse_args(args: &Vec<String>) -> (r: Result<Opts, String>)
    ensures
        match r {
            Ok(o) => parsed(texts(args@)) == Ok::<(Mode, bool, Seq<char>), Seq<char>>(
                (o.mode, o.force, o.path@),
            ),
            Err(e) => parsed(texts(args@)) == Err::<(Mode, bool, Seq<char>), Seq<char>>(e@),
        },
{
    let (options, operands) = scan(args);
    let mut known: Vec<String> = Vec::new();
    known.push("-m".to_owned());
    known.push("--multiline".to_owned());
    known.push("-e".to_owned());
    known.push("--echo".to_owned());
    known.push("-f".to_owned());
    known.push("--force".to_owned());
    assert(texts(known@) =~= known_options());
    let multiline: bool = has_option(&options, "-m", "--multiline");
    let echo: bool = has_option(&options, "-e", "--echo");
    let force: bool = has_option(&options, "-f", "--force");
    assert(texts(operands@).len() == operands@.len());
    if unknown_option(&options, &known).is_some() || (multiline && echo) || operands.len() != 1 {
        return Err(USAGE.to_owned());
    }
    assert(texts(operands@)[0] == operands@[0]@);
    let mode: Mode = if multiline {
        Mode::Multiline
    } else if echo {
        Mode::Echo
    } else {
        Mode::SilentTwice
    };
    Ok(Opts { mode, force, path: trim_end_chars(operands[0].as_str(), '/', '/') })
}

/// The entry to be written.
pub struct InsertPlan {
    pub mode: Mode,
    pub force: bool,
    pub path: String,
    /// Its file in the store.
    pub passfile: String,
    /// The folder that its recipients are looked for from.
    pub folder: String,
}

/// The entry to insert, its file and the folder that its recipients are
/// looked for from, or what is said of the command line.
pub open spec fn planned(args: Seq<Seq<char>>, root: Seq<char>) -> Result<
    (Seq<char>, Seq<char>, Seq<char>),
    Seq<char>,
> {
    match parsed(args) {
        Err(e) => Err(e),
        Ok((_, _, p)) => if is_sneaky(p) {
            Err(
                "Error: You've attempted to pass a sneaky path to piggy ("@ + "`..` component"@
                    + "). Go home."@,
            )
        } else {
            Ok((p, entry_file(root, p), search_folder(p)))
        },
    }
}

/// Reads a command line, refuses a path that leads up, and says where the
/// entry goes.
pub fn run(args: &Vec<String>, root: &str) -> (r: Result<InsertPlan, String>)
    ensures
        match r {
            Ok(p) => planned(texts(args@), root@) == Ok::<
                (Seq<char>, Seq<char>, Seq<char>),
                Seq<char>,
            >((p.path@, p.passfile@, p.folder@)),
            Err(e) => planned(texts(args@), root@) == Err::<
                (Seq<char>, Seq<char>, Seq<char>),
                Seq<char>,
            >(e@),
        },
        match parsed(texts(args@)) {
            Err(e) => r is Err && r->Err_0@ == e,
            Ok((mode, force, p)) => if is_sneaky(p) {
                r is Err && r->Err_0@ == "Error: You've attempted to pass a sneaky path to piggy ("@
                    + "`..` component"@ + "). Go home."@
            } else {
                r is Ok && r->Ok_0.mode == mode && r->Ok_0.force == force && r->Ok_0.path@ == p
                    && r->Ok_0.passfile@ == entry_file(root@, p) && r->Ok_0.folder@
                    == search_folder(p)
            },
        },
{
    let opts: Opts = match parse_args(args) {
        Ok(o) => o,
        Err(e) => return Err(e),
    };
    match sneaky_path_reason(opts.path.as_str()) {
        Some(reason) => return Err(sneaky_message(reason)),
        None => {},
    }
    let file: String = passfile(root, opts.path.as_str());
    let folder: String = path_parent_for_search(opts.path.as_str());
    Ok(InsertPlan { mode: opts.mode, force: opts.force, path: opts.path, passfile: file, folder })
}

/// The question before an entry is overwritten; none where there is nothing
/// to ask.
pub fn overwrite_question(force: bool, exists: bool, path: &str) -> (r: Option<String>)
    ensures
        r is Some <==> !force && exists,
        r is Some ==> r->0@ == "An entry already exists for "@ + path@ + ". Overwrite it?"@,
        r is Some <==> asks_first(force, exists),
{
    if !force && exists {
        Some(cat3("An entry already exists for ", path, ". Overwrite it?"))
    } else {
        None
    }
}

/// What is asked before each line that is read.
pub open spec fn prompts_of(mode: Mode, path: Seq<char>) -> Seq<Seq<char>> {
    match mode {
        Mode::Multiline => seq![
            "Enter contents of "@ + path + " and press Ctrl+D when finished:\n\n"@,
        ],
        Mode::Echo => seq!["Enter password for "@ + path + ": "@],
        Mode::SilentTwice => seq![
            "Enter password for "@ + path + ": "@,
            "Retype password for "@ + path + ": "@,
        ],
    }
}

/// What is asked before each line that is read.
pub fn prompts(mode: Mode, path: &str) -> (r: Vec<String>)
    ensures
        texts(r@) == prompts_of(mode, path@),
{
    let mut out: Vec<String> = Vec::new();
    match mode {
        Mode::Multiline => {
            out.push(
                cat3("Enter contents of ", path, " and press Ctrl+D when finished:\n\n"),
            );
        },
        Mode::Echo => {
            out.push(cat3("Enter password for ", path, ": "));
        },
        Mode::SilentTwice => {
            out.push(cat3("Enter password for ", path, ": "));
            out.push(cat3("Retype password for ", path, ": "));
        },
    }
    assert(texts(out@) =~= prompts_of(mode, path@));
    out
}

/// Drops line feeds and carriage returns at the end.
pub fn trim_trailing_newline(s: &mut String)
    ensures
        final(s)@ == trim_end_two(old(s)@, '\n', '\r'),
{
    let t: String = trim_end_chars(s.as_str(), '\n', '\r');
    *s = t;
}

/// What is encrypted of a line that was typed: the line with exactly one
/// line feed.
pub open spec fn line_bytes(line: Seq<char>) -> Seq<u8> {
    encode_utf8(trim_end_two(line, '\n', '\r') + "\n"@)
}

/// What is encrypted of a line that was typed with echo.
pub fn echo_plaintext(line: String) -> (r: Vec<u8>)
    ensures
        r@ == line_bytes(line@),
{
    let mut s: String = line;
    trim_trailing_newline(&mut s);
    let whole: String = cat2(s.as_str(), "\n");
    vstd::slice::slice_to_vec(whole.as_str().as_bytes())
}

/// What is encrypted of a line that was typed twice without echo: both times
/// must be the same.
pub fn silent_plaintext(first: String, second: String) -> (r: Result<Vec<u8>, String>)
    ensures
        if trim_end_two(first@, '\n', '\r') == trim_end_two(second@, '\n', '\r') {
            r is Ok && r->Ok_0@ == line_bytes(first@)
        } else {
            r is Err && r->Err_0@ == "Error: the entered passwords do not match."@
        },
        match r {
            Ok(b) => typed_twice(first@, second@) == Some(b@),
            Err(_) => typed_twice(first@, second@) is None,
        },
{
    let mut a: String = first;
    trim_trailing_newline(&mut a);
    let mut b: String = second;
    trim_trailing_newline(&mut b);
    if !same(a.as_str(), b.as_str()) {
        return Err("Error: the entered passwords do not match.".to_owned());
    }
    let whole: String = cat2(a.as_str(), "\n");
    Ok(vstd::slice::slice_to_vec(whole.as_str().as_bytes()))
}

/// The message of the commit.
pub fn commit_message(path: &str) -> (r: String)
    ensures
        r@ == "Add given password for "@ + path@ + " to store."@,
{
    cat3("Add given password for ", path, " to store.")
}

// -------------------------------------------------------------------- laws

/// Whether the operator is asked before an entry is replaced.
pub open spec fn asks_first(force: bool, there: bool) -> bool {
    there && !force
}

/// What is stored of a password that was typed twice; nothing where the two
/// differ.
pub open spec fn typed_twice(first: Seq<char>, second: Seq<char>) -> Option<Seq<u8>> {
    if trim_end_two(first, '\n', '\r') == trim_end_two(second, '\n', '\r') {
        Some(line_bytes(first))
    } else {
        None
    }
}

/// An entry that is there is never replaced without asking, unless that was
/// demanded, and a new entry is never asked about.
pub proof fn law_entry_is_not_replaced_unasked(force: bool, there: bool)
    ensures
        there && !force ==> asks_first(force, there),
        !there || force ==> !asks_first(force, there),
{
}

/// Whether a text is a line end, or nothing.
pub open spec fn is_line_end(e: Seq<char>) -> bool {
    forall|i: int| 0 <= i < e.len() ==> #[trigger] e[i] == '\n' || e[i] == '\r'
}

/// A password that was typed the same twice is stored as it was typed, with
/// one line feed behind it, however the lines ended; two that differ in any
/// character store nothing.
pub proof fn law_only_what_was_typed_twice_is_stored(
    one: Seq<char>,
    two: Seq<char>,
    end1: Seq<char>,
    end2: Seq<char>,
)
    requires
        is_line_end(end1),
        is_line_end(end2),
        one.len() > 0 ==> one.last() != '\n' && one.last() != '\r',
        two.len() > 0 ==> two.last() != '\n' && two.last() != '\r',
    ensures
        one == two ==> typed_twice(one + end1, two + end2) == Some(encode_utf8(one.push('\n'))),
        one != two ==> typed_twice(one + end1, two + end2) is None,
        line_bytes(one + end1) == encode_utf8(one.push('\n')),
{
    law_trim_end_takes_only_these(one, end1, '\n', '\r');
    law_trim_end_takes_only_these(two, end2, '\n', '\r');
    reveal_strlit("\n");
    assert(one + "\n"@ =~= one.push('\n'));
}

} // verus!
