//! How the store's changes get into git: what git is asked, and what its
//! answers mean. A store outside git is as good, so most failures are not
//! errors.
use crate::text::texts;
use crate::wire::bytes_same;
use vstd::prelude::*;

verus! {

/// How a call of git ended.
#[derive(Clone, Copy, Debug, PartialEq, Eq, Structural)]
pub enum GitExit {
    Success,
    /// With a code, or without one where a signal ended it.
    Failure(Option<i32>),
    /// It could not be started.
    NotStarted,
}

/// The exit code of a failed call.
pub open spec fn failure_code(e: GitExit) -> Option<i32> {
    match e {
        GitExit::Success => None,
        GitExit::Failure(Some(c)) => Some(c),
        GitExit::Failure(None) => Some(1),
        GitExit::NotStarted => Some(127),
    }
}

/// The exit code that a call of git hands on.
pub fn git_at(e: GitExit) -> (r: Result<(), i32>)
    ensures
        match failure_code(e) {
            None => r is Ok,
            Some(c) => r == Err::<(), i32>(c),
        },
{
    match e {
        GitExit::Success => Ok(()),
        GitExit::Failure(Some(c)) => Err(c),
        GitExit::Failure(None) => Err(1),
        GitExit::NotStarted => Err(127),
    }
}

/// The white space of ASCII: space, tab, line feed, form feed and carriage
/// return.
pub open spec fn is_ascii_white(b: u8) -> bool {
    b == 32 || b == 9 || b == 10 || b == 12 || b == 13
}

/// Bytes without white space at either end.
pub open spec fn trimmed_bytes(s: Seq<u8>) -> Seq<u8>
    decreases s.len(),
{
    if s.len() > 0 && is_ascii_white(s[0]) {
        trimmed_bytes(s.skip(1))
    } else if s.len() > 0 && is_ascii_white(s.last()) {
        trimmed_bytes(s.drop_last())
    } else {
        s
    }
}

fn ascii_white(b: u8) -> (r: bool)
    ensures
        r == is_ascii_white(b),
{
    b == 32 || b == 9 || b == 10 || b == 12 || b == 13
}

/// The bytes of `true`.
pub open spec fn true_word() -> Seq<u8> {
    seq![116u8, 114u8, 117u8, 101u8]
}

/// Whether git said `true`: it succeeded, and nothing but white space stands
/// around the word.
pub fn said_true(success: bool, stdout: &Vec<u8>) -> (r: bool)
    ensures
        r == (success && trimmed_bytes(stdout@) == true_word()),
{
    let mut i: usize = 0;
    let mut j: usize = stdout.len();
    assert(stdout@.subrange(0, stdout@.len() as int) =~= stdout@);
    while i < j && ascii_white(stdout[i])
        invariant
            i <= j,
            j == stdout@.len(),
            trimmed_bytes(stdout@) == trimmed_bytes(stdout@.subrange(i as int, j as int)),
        decreases j - i,
    {
        assert(stdout@.subrange(i as int, j as int).skip(1) =~= stdout@.subrange(
            i + 1,
            j as int,
        ));
        i = i + 1;
    }
    while j > i && ascii_white(stdout[j - 1])
        invariant
            i <= j <= stdout@.len(),
            i < stdout@.len() ==> !is_ascii_white(stdout@[i as int]),
            trimmed_bytes(stdout@) == trimmed_bytes(stdout@.subrange(i as int, j as int)),
        decreases j - i,
    {
        assert(stdout@.subrange(i as int, j as int).drop_last() =~= stdout@.subrange(
            i as int,
            j - 1,
        ));
        j = j - 1;
    }
    let body: &[u8] = vstd::slice::slice_subrange(stdout.as_slice(), i, j);
    let mut word: Vec<u8> = Vec::new();
    word.push(116);
    word.push(114);
    word.push(117);
    word.push(101);
    assert(word@ =~= true_word());
    success && bytes_same(body, word.as_slice())
}

/// Whether git has something to commit: what it lists is not all white
/// space.
pub open spec fn lists_changes(stdout: Seq<u8>) -> bool {
    exists|i: int| 0 <= i < stdout.len() && !is_ascii_white(#[trigger] stdout[i])
}

/// Whether git has something to commit.
pub fn has_staged_changes(stdout: &Vec<u8>) -> (r: bool)
    ensures
        r == lists_changes(stdout@),
{
    for i in 0..stdout.len()
        invariant
            forall|j: int| 0 <= j < i ==> is_ascii_white(#[trigger] stdout@[j]),
    {
        if !ascii_white(stdout[i]) {
            return true;
        }
    }
    false
}

// --------------------------------------------------------------- arguments

fn args_of(work_tree: &str, rest: Vec<String>) -> (r: Vec<String>)
    ensures
        texts(r@) == seq!["-C"@, work_tree@] + texts(rest@),
{
    let mut out: Vec<String> = Vec::new();
    out.push("-C".to_owned());
    out.push(work_tree.to_owned());
    assert(texts(out@) =~= seq!["-C"@, work_tree@] + texts(rest@).take(0));
    for i in 0..rest.len()
        invariant
            texts(out@) == seq!["-C"@, work_tree@] + texts(rest@).take(i as int),
    {
        let ghost before = texts(out@);
        out.push(rest[i].clone());
        assert(texts(out@) =~= before.push(rest@[i as int]@));
        assert(texts(rest@).take(i + 1) =~= texts(rest@).take(i as int).push(rest@[i as int]@));
    }
    assert(texts(rest@).take(rest@.len() as int) =~= texts(rest@));
    out
}

/// What git is asked in a work tree, in its own words.
pub fn git_args(work_tree: &str, args: &Vec<String>) -> (r: Vec<String>)
    ensures
        texts(r@) == seq!["-C"@, work_tree@] + texts(args@),
{
    args_of(work_tree, args.clone())
}

/// Asks whether a folder lies in a work tree.
pub fn inside_args(work_tree: &str) -> (r: Vec<String>)
    ensures
        texts(r@) == seq!["-C"@, work_tree@, "rev-parse"@, "--is-inside-work-tree"@],
{
    let mut rest: Vec<String> = Vec::new();
    rest.push("rev-parse".to_owned());
    rest.push("--is-inside-work-tree".to_owned());
    let out: Vec<String> = args_of(work_tree, rest);
    assert(texts(out@) =~= seq!["-C"@, work_tree@, "rev-parse"@, "--is-inside-work-tree"@]);
    out
}

/// Adds a path.
pub fn add_args(work_tree: &str, path: &str) -> (r: Vec<String>)
    ensures
        texts(r@) == seq!["-C"@, work_tree@, "add"@, path@],
{
    let mut rest: Vec<String> = Vec::new();
    rest.push("add".to_owned());
    rest.push(path.to_owned());
    let out: Vec<String> = args_of(work_tree, rest);
    assert(texts(out@) =~= seq!["-C"@, work_tree@, "add"@, path@]);
    out
}

/// Lists what changed at a path.
pub fn status_args(work_tree: &str, path: &str) -> (r: Vec<String>)
    ensures
        texts(r@) == seq!["-C"@, work_tree@, "status"@, "--porcelain"@, path@],
{
    let mut rest: Vec<String> = Vec::new();
    rest.push("status".to_owned());
    rest.push("--porcelain".to_owned());
    rest.push(path.to_owned());
    let out: Vec<String> = args_of(work_tree, rest);
    assert(texts(out@) =~= seq!["-C"@, work_tree@, "status"@, "--porcelain"@, path@]);
    out
}

/// Asks whether commits are signed.
pub fn signing_args(work_tree: &str) -> (r: Vec<String>)
    ensures
        texts(r@) == seq![
            "-C"@,
            work_tree@,
            "config"@,
            "--bool"@,
            "--get"@,
            "piggy.signcommits"@,
        ],
{
    let mut rest: Vec<String> = Vec::new();
    rest.push("config".to_owned());
    rest.push("--bool".to_owned());
    rest.push("--get".to_owned());
    rest.push("piggy.signcommits".to_owned());
    let out: Vec<String> = args_of(work_tree, rest);
    assert(texts(out@) =~= seq![
        "-C"@,
        work_tree@,
        "config"@,
        "--bool"@,
        "--get"@,
        "piggy.signcommits"@,
    ]);
    out
}

/// How a commit is asked for.
pub open spec fn commit_words(work_tree: Seq<char>, sign: bool, message: Seq<char>) -> Seq<
    Seq<char>,
> {
    seq!["-C"@, work_tree, "commit"@] + (if sign {
        seq!["-S"@]
    } else {
        seq![]
    }) + seq!["-m"@, message]
}

/// Commits, signed where that is configured.
pub fn commit_args(work_tree: &str, sign: bool, message: &str) -> (r: Vec<String>)
    ensures
        texts(r@) == commit_words(work_tree@, sign, message@),
        texts(r@) == seq!["-C"@, work_tree@, "commit"@] + (if sign {
            seq!["-S"@]
        } else {
            seq![]
        }) + seq!["-m"@, message@],
{
    let mut rest: Vec<String> = Vec::new();
    rest.push("commit".to_owned());
    if sign {
        rest.push("-S".to_owned());
    }
    rest.push("-m".to_owned());
    rest.push(message.to_owned());
    let out: Vec<String> = args_of(work_tree, rest);
    assert(texts(out@) =~= seq!["-C"@, work_tree@, "commit"@] + (if sign {
        seq!["-S"@]
    } else {
        seq![]
    }) + seq!["-m"@, message@]);
    out
}

/// Removes a path.
pub fn rm_args(work_tree: &str, path: &str) -> (r: Vec<String>)
    ensures
        texts(r@) == seq!["-C"@, work_tree@, "rm"@, "-qr"@, path@],
{
    let mut rest: Vec<String> = Vec::new();
    rest.push("rm".to_owned());
    rest.push("-qr".to_owned());
    rest.push(path.to_owned());
    let out: Vec<String> = args_of(work_tree, rest);
    assert(texts(out@) =~= seq!["-C"@, work_tree@, "rm"@, "-qr"@, path@]);
    out
}

// ------------------------------------------------------------ add and commit

/// Where adding and committing a path stands: the call to make next.
#[derive(Clone, Copy, Debug, PartialEq, Eq, Structural)]
pub enum CommitStep {
    Add,
    Status,
    AskSigning,
    /// Commit, signed or not.
    Commit(bool),
    Done,
}

/// What came of the last call: whether it ran and succeeded, and what it
/// printed.
pub struct GitReply {
    /// Whether it could be started.
    pub ran: bool,
    pub success: bool,
    pub stdout: Vec<u8>,
}

/// The next call. A path that cannot be added, or with nothing to commit, is
/// left at that; however the commit itself ends is not an error.
pub open spec fn commit_step(step: CommitStep, reply: GitReply) -> CommitStep {
    match step {
        CommitStep::Add => if reply.ran && reply.success {
            CommitStep::Status
        } else {
            CommitStep::Done
        },
        CommitStep::Status => if reply.ran && lists_changes(reply.stdout@) {
            CommitStep::AskSigning
        } else {
            CommitStep::Done
        },
        CommitStep::AskSigning => CommitStep::Commit(
            reply.ran && reply.success && trimmed_bytes(reply.stdout@) == true_word(),
        ),
        CommitStep::Commit(_) => CommitStep::Done,
        CommitStep::Done => CommitStep::Done,
    }
}

/// Takes what came of the last call.
pub fn add_and_commit(step: CommitStep, reply: &GitReply) -> (r: CommitStep)
    ensures
        r == commit_step(step, *reply),
{
    match step {
        CommitStep::Add => {
            if reply.ran && reply.success {
                CommitStep::Status
            } else {
                CommitStep::Done
            }
        },
        CommitStep::Status => {
            if reply.ran && has_staged_changes(&reply.stdout) {
                CommitStep::AskSigning
            } else {
                CommitStep::Done
            }
        },
        CommitStep::AskSigning => CommitStep::Commit(
            said_true(reply.ran && reply.success, &reply.stdout),
        ),
        CommitStep::Commit(_) => CommitStep::Done,
        CommitStep::Done => CommitStep::Done,
    }
}

/// Nothing is committed unless the path was added and git lists a change
/// there.
pub proof fn law_commit_needs_a_change(added: GitReply, status: GitReply)
    requires
        commit_step(commit_step(CommitStep::Add, added), status) is AskSigning,
    ensures
        added.ran && added.success,
        lists_changes(status.stdout@),
{
}

} // verus!
