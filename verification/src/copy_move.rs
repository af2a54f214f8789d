//! `pass mv` and `pass cp`: entries and folders under other names. `mv` and
//! `cp` do it; what is here is which paths they get and what git is told.
use crate::options::{
    first_unknown, given, has_option, operands_of, options_of, scan, unknown_option,
};
use crate::store_path::{
    file_name, file_name_of, is_sneaky, join_path, parent, parent_of, path_joined, sneaky_message,
    sneaky_path_reason,
};
use crate::text::{
    cat2, cat3, cat4, cat5, chars_of, rfind_below, rfind_char, same, string_between, texts,
    trim_end_chars, trim_end_two,
};
use vstd::prelude::*;

verus! {

/// Which of the two it is.
#[derive(Clone, Copy, Debug, PartialEq, Eq, Structural)]
pub enum Op {
    Move,
    Copy,
}

/// The name of the command, and of the program.
pub open spec fn label_of(op: Op) -> Seq<char> {
    match op {
        Op::Move => "mv"@,
        Op::Copy => "cp"@,
    }
}

impl Op {
    /// The name of the command, and of the program.
    pub fn command_label(self) -> (r: &'static str)
        ensures
            r@ == label_of(self),
    {
        match self {
            Op::Move => "mv",
            Op::Copy => "cp",
        }
    }
}

/// What was asked for.
#[derive(Debug)]
pub struct Opts {
    pub force: bool,
    pub old: String,
    pub new: String,
}

/// The options that there are.
pub open spec fn known_options() -> Seq<Seq<char>> {
    seq!["-f"@, "--force"@]
}

/// What a command line means.
pub open spec fn parsed(op: Op, args: Seq<Seq<char>>) -> Result<
    (bool, Seq<char>, Seq<char>),
    Seq<char>,
> {
    match first_unknown(options_of(args), known_options(), 0) {
        Some(flag) => Err("piggy pass "@ + label_of(op) + ": unknown flag: "@ + flag),
        None => if operands_of(args).len() != 2 {
            Err("Usage: piggy pass "@ + label_of(op) + " [--force,-f] old-path new-path"@)
        } else {
            Ok(
                (
                    given(options_of(args), "-f"@, "--force"@),
                    operands_of(args)[0],
                    operands_of(args)[1],
                ),
            )
        },
    }
}

/// Reads a command line.
pub fn parse_args(op: Op, args: &Vec<String>) -> (r: Result<Opts, String>)
    ensures
        match r {
            Ok(o) => parsed(op, texts(args@)) == Ok::<(bool, Seq<char>, Seq<char>), Seq<char>>(
                (o.force, o.old@, o.new@),
            ),
            Err(e) => parsed(op, texts(args@)) == Err::<(bool, Seq<char>, Seq<char>), Seq<char>>(
                e@,
            ),
        },
{
    let (options, operands) = scan(args);
    let mut known: Vec<String> = Vec::new();
    known.push("-f".to_owned());
    known.push("--force".to_owned());
    assert(texts(known@) =~= known_options());
    match unknown_option(&options, &known) {
        Some(flag) => {
            return Err(
                cat4("piggy pass ", op.command_label(), ": unknown flag: ", flag.as_str()),
            );
        },
        None => {},
    }
    assert(texts(operands@).len() == operands@.len());
    if operands.len() != 2 {
        return Err(
            cat3("Usage: piggy pass ", op.command_label(), " [--force,-f] old-path new-path"),
        );
    }
    assert(texts(operands@)[0] == operands@[0]@ && texts(operands@)[1] == operands@[1]@);
    Ok(
        Opts {
            force: has_option(&options, "-f", "--force"),
            old: operands[0].clone(),
            new: operands[1].clone(),
        },
    )
}

/// What a command line means, with paths that lead up refused.
pub open spec fn request(op: Op, args: Seq<Seq<char>>) -> Result<
    (bool, Seq<char>, Seq<char>),
    Seq<char>,
> {
    match parsed(op, args) {
        Err(e) => Err(e),
        Ok((force, old_name, new_name)) => if is_sneaky(old_name) || is_sneaky(new_name) {
            Err(
                "Error: You've attempted to pass a sneaky path to piggy ("@ + "`..` component"@
                    + "). Go home."@,
            )
        } else {
            Ok((force, old_name, new_name))
        },
    }
}

/// Reads a command line and refuses paths that lead up.
pub fn run(op: Op, args: &Vec<String>) -> (r: Result<Opts, String>)
    ensures
        match r {
            Ok(o) => request(op, texts(args@)) == Ok::<(bool, Seq<char>, Seq<char>), Seq<char>>(
                (o.force, o.old@, o.new@),
            ),
            Err(e) => request(op, texts(args@)) == Err::<(bool, Seq<char>, Seq<char>), Seq<char>>(
                e@,
            ),
        },
{
    let opts: Opts = match parse_args(op, args) {
        Ok(o) => o,
        Err(e) => return Err(e),
    };
    match sneaky_path_reason(opts.old.as_str()) {
        Some(reason) => return Err(sneaky_message(reason)),
        None => {},
    }
    match sneaky_path_reason(opts.new.as_str()) {
        Some(reason) => return Err(sneaky_message(reason)),
        None => {},
    }
    Ok(opts)
}

/// `pass mv`.
pub fn run_move(args: &Vec<String>) -> (r: Result<Opts, String>)
    ensures
        match r {
            Ok(o) => request(Op::Move, texts(args@)) == Ok::<
                (bool, Seq<char>, Seq<char>),
                Seq<char>,
            >((o.force, o.old@, o.new@)),
            Err(e) => request(Op::Move, texts(args@)) == Err::<
                (bool, Seq<char>, Seq<char>),
                Seq<char>,
            >(e@),
        },
{
    run(Op::Move, args)
}

/// `pass cp`.
pub fn run_copy(args: &Vec<String>) -> (r: Result<Opts, String>)
    ensures
        match r {
            Ok(o) => request(Op::Copy, texts(args@)) == Ok::<
                (bool, Seq<char>, Seq<char>),
                Seq<char>,
            >((o.force, o.old@, o.new@)),
            Err(e) => request(Op::Copy, texts(args@)) == Err::<
                (bool, Seq<char>, Seq<char>),
                Seq<char>,
            >(e@),
        },
{
    run(Op::Copy, args)
}

// -------------------------------------------------------------------- paths

/// A path with the suffix of entries on its last component.
pub open spec fn ebox_of(p: Seq<char>) -> Seq<char> {
    match file_name_of(p) {
        Some(name) => path_joined(
            match parent_of(p) {
                Some(d) => d,
                None => p,
            },
            name + ".ebox"@,
        ),
        None => path_joined(p, ".ebox"@),
    }
}

/// A path with the suffix of entries on its last component.
pub fn with_ebox_suffix(path: &str) -> (r: String)
    ensures
        r@ == ebox_of(path@),
{
    match file_name(path) {
        Some(name) => {
            let dir: String = match parent(path) {
                Some(d) => d,
                None => path.to_owned(),
            };
            join_path(dir.as_str(), cat2(name.as_str(), ".ebox").as_str())
        },
        None => join_path(path, ".ebox"),
    }
}

/// What stands before the last slash; all of it without one.
pub open spec fn dirname_of(path: Seq<char>) -> Seq<char> {
    let k = rfind_below(path, '/', path.len() as int);
    if k > 0 {
        path.take(k - 1)
    } else {
        path
    }
}

/// What stands before the last slash. A path with a slash at its end is
/// thereby the folder itself.
pub fn dirname(path: &str) -> (r: String)
    ensures
        r@ == dirname_of(path@),
{
    let v: Vec<char> = chars_of(path);
    let k: usize = rfind_char(v.as_slice(), '/');
    if k > 0 {
        let s: String = string_between(v.as_slice(), 0, k - 1);
        assert(s@ =~= path@.take(k - 1));
        s
    } else {
        path.to_owned()
    }
}

/// The old path without the slashes at its end, in the store.
pub open spec fn old_place(root: Seq<char>, name: Seq<char>) -> Seq<char> {
    path_joined(root, trim_end_two(name, '/', '/'))
}

/// The old path, in the store: as a folder, and as an entry.
pub fn old_candidates(root: &str, old_name: &str) -> (r: (String, String))
    ensures
        r.0@ == old_place(root@, old_name@),
        r.1@ == ebox_of(old_place(root@, old_name@)),
{
    let plain: String = join_path(root, trim_end_chars(old_name, '/', '/').as_str());
    let ebox: String = with_ebox_suffix(plain.as_str());
    (plain, ebox)
}

/// Whether the old path means an entry: there is one, and it was not the
/// folder of the same name that was meant, by a slash.
pub open spec fn means_entry(name: Seq<char>, is_dir: bool, ebox_is_file: bool) -> bool {
    ebox_is_file && !(is_dir && trim_end_two(name, '/', '/') != name)
}

/// What is moved or copied, and the folder that it is in, or is.
pub open spec fn source_of(
    root: Seq<char>,
    name: Seq<char>,
    is_dir: bool,
    ebox_is_file: bool,
) -> (Seq<char>, Seq<char>) {
    let plain = old_place(root, name);
    if means_entry(name, is_dir, ebox_is_file) {
        (
            ebox_of(plain),
            match parent_of(plain) {
                Some(d) => d,
                None => plain,
            },
        )
    } else {
        (plain, plain)
    }
}

/// Decides what is moved or copied, and the folder to clear up afterwards.
pub fn resolve_old(root: &str, old_name: &str, is_dir: bool, ebox_is_file: bool) -> (r: (
    String,
    String,
))
    ensures
        (r.0@, r.1@) == source_of(root@, old_name@, is_dir, ebox_is_file),
{
    let (plain, ebox) = old_candidates(root, old_name);
    let named_folder: bool = !same(trim_end_chars(old_name, '/', '/').as_str(), old_name);
    if ebox_is_file && !(is_dir && named_folder) {
        let dir: String = match parent(plain.as_str()) {
            Some(d) => d,
            None => plain.clone(),
        };
        (ebox, dir)
    } else {
        (plain.clone(), plain)
    }
}

/// The new path in the store, as it was written.
pub fn new_place(root: &str, new_name: &str) -> (r: String)
    ensures
        r@ == root@ + "/"@ + new_name@,
{
    cat3(root, "/", new_name)
}

/// The new path: an entry gets the suffix, unless it goes into a folder.
pub open spec fn target_of(new_path: Seq<char>, old_is_dir: bool, new_is_dir: bool) -> Seq<char> {
    if old_is_dir || new_is_dir || (new_path.len() > 0 && new_path.last() == '/') {
        new_path
    } else {
        new_path + ".ebox"@
    }
}

/// Decides where it goes.
pub fn resolve_new(new_path: String, old_is_dir: bool, new_is_dir: bool) -> (r: String)
    ensures
        r@ == target_of(new_path@, old_is_dir, new_is_dir),
{
    let n: usize = new_path.as_str().unicode_len();
    if old_is_dir || new_is_dir || (n > 0 && new_path.as_str().get_char(n - 1) == '/') {
        new_path
    } else {
        cat2(new_path.as_str(), ".ebox")
    }
}

/// The arguments of `mv` or `cp`: without asking where that was wanted or
/// nobody could answer.
pub open spec fn transfer_words(
    op: Op,
    old_path: Seq<char>,
    new_path: Seq<char>,
    force: bool,
) -> Seq<Seq<char>> {
    (if force {
        seq!["-f"@]
    } else {
        seq!["-i"@]
    }) + (if op is Copy {
        seq!["-r"@]
    } else {
        seq![]
    }) + seq!["-v"@, old_path, new_path]
}

/// The arguments of `mv` or `cp`.
pub fn transfer_args(op: Op, old_path: &str, new_path: &str, force: bool) -> (r: Vec<String>)
    ensures
        texts(r@) == transfer_words(op, old_path@, new_path@, force),
{
    let mut out: Vec<String> = Vec::new();
    if force {
        out.push("-f".to_owned());
    } else {
        out.push("-i".to_owned());
    }
    if op == Op::Copy {
        out.push("-r".to_owned());
    }
    out.push("-v".to_owned());
    out.push(old_path.to_owned());
    out.push(new_path.to_owned());
    assert(texts(out@) =~= transfer_words(op, old_path@, new_path@, force));
    out
}

// ---------------------------------------------------------------------- git

/// What git is told.
#[derive(Debug, PartialEq, Eq)]
pub enum GitStep {
    /// Remove a path; that this can fail is no matter.
    Rm(String),
    AddAndCommit(String, String),
    /// Commit where git lists a change at the path.
    CommitIfChanged(String, String),
}

/// [`GitStep`] over plain text.
pub enum GitStepView {
    Rm(Seq<char>),
    AddAndCommit(Seq<char>, Seq<char>),
    CommitIfChanged(Seq<char>, Seq<char>),
}

impl View for GitStep {
    type V = GitStepView;

    open spec fn view(&self) -> GitStepView {
        match self {
            GitStep::Rm(p) => GitStepView::Rm(p@),
            GitStep::AddAndCommit(p, m) => GitStepView::AddAndCommit(p@, m@),
            GitStep::CommitIfChanged(p, m) => GitStepView::CommitIfChanged(p@, m@),
        }
    }
}

/// The steps, over plain text.
pub open spec fn steps_view(v: Seq<GitStep>) -> Seq<GitStepView> {
    v.map_values(|s: GitStep| s@)
}

/// What the repository of the new path is told. A move that left the old
/// path behind is not recorded.
pub open spec fn new_steps(
    op: Op,
    names: (Seq<char>, Seq<char>),
    old_path: Seq<char>,
    new_path: Seq<char>,
    old_is_gone: bool,
) -> Seq<GitStepView> {
    match op {
        Op::Copy => seq![
            GitStepView::AddAndCommit(new_path, "Copy "@ + names.0 + " to "@ + names.1 + "."@),
        ],
        Op::Move => if old_is_gone {
            seq![
                GitStepView::Rm(old_path),
                GitStepView::AddAndCommit(
                    new_path,
                    "Rename "@ + names.0 + " to "@ + names.1 + "."@,
                ),
            ]
        } else {
            seq![]
        },
    }
}

/// What the repository of the new path is told. A move that left the old
/// path behind is not recorded.
pub fn record_new(op: Op, opts: &Opts, old_path: &str, new_path: &str, old_is_gone: bool) -> (r: Vec<
    GitStep,
>)
    ensures
        steps_view(r@) == new_steps(
            op,
            (opts.old@, opts.new@),
            old_path@,
            new_path@,
            old_is_gone,
        ),
        steps_view(r@) == match op {
            Op::Copy => seq![
                GitStepView::AddAndCommit(
                    new_path@,
                    "Copy "@ + opts.old@ + " to "@ + opts.new@ + "."@,
                ),
            ],
            Op::Move => if old_is_gone {
                seq![
                    GitStepView::Rm(old_path@),
                    GitStepView::AddAndCommit(
                        new_path@,
                        "Rename "@ + opts.old@ + " to "@ + opts.new@ + "."@,
                    ),
                ]
            } else {
                seq![]
            },
        },
{
    let mut out: Vec<GitStep> = Vec::new();
    match op {
        Op::Copy => {
            let message: String = cat5("Copy ", opts.old.as_str(), " to ", opts.new.as_str(), ".");
            out.push(GitStep::AddAndCommit(new_path.to_owned(), message));
        },
        Op::Move => {
            if old_is_gone {
                let message: String = cat5(
                    "Rename ",
                    opts.old.as_str(),
                    " to ",
                    opts.new.as_str(),
                    ".",
                );
                out.push(GitStep::Rm(old_path.to_owned()));
                out.push(GitStep::AddAndCommit(new_path.to_owned(), message));
            }
        },
    }
    proof {
        match op {
            Op::Copy => {
                assert(steps_view(out@) =~= seq![out@[0]@]);
            },
            Op::Move => {
                if old_is_gone {
                    assert(steps_view(out@) =~= seq![out@[0]@, out@[1]@]);
                } else {
                    assert(steps_view(out@) =~= seq![]);
                }
            },
        }
    }
    out
}

/// What the repository of the old path is told, which may be another one.
pub open spec fn old_steps(name: Seq<char>, old_path: Seq<char>, old_is_gone: bool) -> Seq<
    GitStepView,
> {
    if old_is_gone {
        seq![
            GitStepView::Rm(old_path),
            GitStepView::CommitIfChanged(old_path, "Remove "@ + name + "."@),
        ]
    } else {
        seq![]
    }
}

/// What the repository of the old path is told, which may be another one.
pub fn record_old(opts: &Opts, old_path: &str, old_is_gone: bool) -> (r: Vec<GitStep>)
    ensures
        steps_view(r@) == old_steps(opts.old@, old_path@, old_is_gone),
        steps_view(r@) == if old_is_gone {
            seq![
                GitStepView::Rm(old_path@),
                GitStepView::CommitIfChanged(old_path@, "Remove "@ + opts.old@ + "."@),
            ]
        } else {
            seq![]
        },
{
    let mut out: Vec<GitStep> = Vec::new();
    if old_is_gone {
        out.push(GitStep::Rm(old_path.to_owned()));
        out.push(
            GitStep::CommitIfChanged(
                old_path.to_owned(),
                cat3("Remove ", opts.old.as_str(), "."),
            ),
        );
        assert(steps_view(out@) =~= seq![out@[0]@, out@[1]@]);
    } else {
        assert(steps_view(out@) =~= seq![]);
    }
    out
}

// --------------------------------------------------------------------- laws

/// A path that leads up is never moved from, to, or copied.
pub proof fn law_sneaky_paths_are_refused(op: Op, args: Seq<Seq<char>>)
    requires
        request(op, args) is Ok,
    ensures
        !is_sneaky((request(op, args)->Ok_0).1),
        !is_sneaky((request(op, args)->Ok_0).2),
{
}

/// An entry wins over a folder of the same name, unless a slash at the end
/// says that the folder is meant.
pub proof fn law_entry_wins_over_folder(root: Seq<char>, name: Seq<char>, is_dir: bool)
    requires
        trim_end_two(name, '/', '/') == name,
    ensures
        source_of(root, name, is_dir, true).0 == ebox_of(old_place(root, name)),
{
}

} // verus!
