//! `pass find`: entries by name. `tree` does the search and the drawing; what
//! is here is how it is asked and how its lines are cleaned.
use crate::text::{cat2, cat3, chars_of, is_digit, join, joined, occurs_at, string_of, texts};
use vstd::prelude::*;

verus! {

/// The pattern of one search term.
pub open spec fn term_glob(t: Seq<char>) -> Seq<char> {
    "*"@ + t + "*"@
}

/// The pattern for some search terms: any of them, anywhere in a name.
pub open spec fn glob_of(terms: Seq<Seq<char>>) -> Seq<char> {
    joined(terms.map_values(|t: Seq<char>| term_glob(t)), "|"@)
}

/// The pattern for some search terms.
pub fn build_glob(terms: &Vec<String>) -> (r: String)
    ensures
        r@ == glob_of(texts(terms@)),
{
    let ghost globs = texts(terms@).map_values(|t: Seq<char>| term_glob(t));
    let mut parts: Vec<String> = Vec::new();
    assert(texts(parts@) =~= globs.take(0));
    for i in 0..terms.len()
        invariant
            globs == texts(terms@).map_values(|t: Seq<char>| term_glob(t)),
            texts(parts@) == globs.take(i as int),
    {
        let ghost before = texts(parts@);
        parts.push(cat3("*", terms[i].as_str(), "*"));
        assert(texts(parts@) =~= before.push(term_glob(terms@[i as int]@)));
        assert(globs.take(i + 1) =~= globs.take(i as int).push(globs[i as int]));
    }
    assert(globs.take(globs.len() as int) =~= globs);
    join(&parts, "|")
}

/// The first position at or after `i` that holds no digit.
pub open spec fn digits_end(s: Seq<char>, i: int) -> int
    decreases s.len() - i,
{
    if 0 <= i < s.len() && is_digit(s[i]) {
        digits_end(s, i + 1)
    } else {
        i
    }
}

/// The end of the colour code that begins at `start`, such as `<ESC>[12m`,
/// with at least one digit; `start` itself where none does.
pub open spec fn ansi_end(s: Seq<char>, start: int) -> int {
    let j = digits_end(s, start + 2);
    if start + 1 < s.len() && s[start] == '\u{1b}' && s[start + 1] == '[' && start + 2 < j
        < s.len() && s[j] == 'm' {
        j + 1
    } else {
        start
    }
}

/// Whether `.ebox` at position `i` is a suffix: behind it, and behind a
/// colour code, comes the end of the line or the arrow of a link.
pub open spec fn suffix_at(s: Seq<char>, i: int) -> bool {
    let tail = ansi_end(s, i + 5);
    occurs_at(s, ".ebox"@, i) && (tail == s.len() || occurs_at(s, " ->"@, tail))
}

/// The line from position `i` without its suffixes.
pub open spec fn stripped_from(s: Seq<char>, i: int) -> Seq<char>
    decreases s.len() - i,
    via stripped_from_decreases
{
    if i < 0 || i >= s.len() {
        seq![]
    } else if suffix_at(s, i) {
        s.subrange(i + 5, ansi_end(s, i + 5)) + stripped_from(s, ansi_end(s, i + 5))
    } else {
        seq![s[i]] + stripped_from(s, i + 1)
    }
}

#[via_fn]
proof fn stripped_from_decreases(s: Seq<char>, i: int) {
    lemma_ansi_end(s, i + 5);
}

/// A line without its suffixes.
pub open spec fn stripped(s: Seq<char>) -> Seq<char> {
    stripped_from(s, 0)
}

proof fn lemma_digits_end(s: Seq<char>, i: int)
    requires
        0 <= i <= s.len(),
    ensures
        i <= digits_end(s, i) <= s.len(),
    decreases s.len() - i,
{
    if i < s.len() && is_digit(s[i]) {
        lemma_digits_end(s, i + 1);
    }
}

proof fn lemma_ansi_end(s: Seq<char>, start: int)
    ensures
        start <= ansi_end(s, start),
        start <= s.len() ==> ansi_end(s, start) <= s.len(),
{
    if 0 <= start + 2 <= s.len() {
        lemma_digits_end(s, start + 2);
    }
    if start < 0 {
        lemma_digits_from(s, start + 2);
    }
}

proof fn lemma_digits_from(s: Seq<char>, i: int)
    ensures
        i <= digits_end(s, i),
    decreases s.len() - i,
{
    if 0 <= i < s.len() && is_digit(s[i]) {
        lemma_digits_from(s, i + 1);
    }
}

/// The end of the colour code that begins at `start`, or `start`.
pub fn scan_ansi(v: &Vec<char>, start: usize) -> (r: usize)
    requires
        start <= v@.len(),
    ensures
        r == ansi_end(v@, start as int),
        start <= r <= v@.len(),
{
    let n: usize = v.len();
    if n - start < 2 || v[start] != '\u{1b}' || v[start + 1] != '[' {
        return start;
    }
    let mut j: usize = start + 2;
    while j < n && '0' <= v[j] && v[j] <= '9'
        invariant
            n == v@.len(),
            start + 2 <= j <= n,
            digits_end(v@, start + 2) == digits_end(v@, j as int),
        decreases n - j,
    {
        j = j + 1;
    }
    assert(j < n ==> !is_digit(v@[j as int]));
    if j > start + 2 && j < n && v[j] == 'm' {
        j + 1
    } else {
        start
    }
}

fn is_at(v: &Vec<char>, i: usize, needle: &str) -> (r: bool)
    requires
        i <= v@.len(),
    ensures
        r == occurs_at(v@, needle@, i as int),
{
    let w: Vec<char> = chars_of(needle);
    let n: usize = v.len();
    if n - i < w.len() {
        return false;
    }
    for k in 0..w.len()
        invariant
            w@ == needle@,
            n == v@.len(),
            i + w@.len() <= n,
            forall|m: int| 0 <= m < k ==> v@[i + m] == w@[m],
    {
        if v[i + k] != w[k] {
            assert(v@.subrange(i as int, i + needle@.len())[k as int] != needle@[k as int]);
            return false;
        }
    }
    assert(v@.subrange(i as int, i + needle@.len()) =~= needle@);
    true
}

/// Drops the suffix of an entry's file wherever a name ends, and keeps the
/// colours.
pub fn strip_ebox_suffix(line: &str) -> (r: String)
    ensures
        r@ == stripped(line@),
{
    proof {
        reveal_strlit(".ebox");
        assert(".ebox"@.len() == 5);
    }
    let v: Vec<char> = chars_of(line);
    let mut out: Vec<char> = Vec::new();
    let mut i: usize = 0;
    assert(out@ + stripped(line@) =~= stripped(line@));
    while i < v.len()
        invariant
            v@ == line@,
            i <= v@.len(),
            ".ebox"@.len() == 5,
            stripped(line@) == out@ + stripped_from(line@, i as int),
        decreases v@.len() - i,
    {
        let ghost done = out@;
        if is_at(&v, i, ".ebox") {
            let after: usize = i + 5;
            let tail: usize = scan_ansi(&v, after);
            if tail == v.len() || is_at(&v, tail, " ->") {
                let mut k: usize = after;
                while k < tail
                    invariant
                        after <= k <= tail <= v@.len(),
                        out@ == done + v@.subrange(after as int, k as int),
                    decreases tail - k,
                {
                    out.push(v[k]);
                    k = k + 1;
                    assert(out@ =~= done + v@.subrange(after as int, k as int));
                }
                assert(out@ + stripped_from(line@, tail as int) =~= done + stripped_from(
                    line@,
                    i as int,
                ));
                i = tail;
                continue ;
            }
        }
        out.push(v[i]);
        assert(out@ + stripped_from(line@, i + 1) =~= done + stripped_from(line@, i as int));
        i = i + 1;
    }
    assert(out@ + stripped_from(line@, i as int) =~= out@);
    string_of(out.as_slice())
}

/// What `pass find` shows of the lines of `tree`: all but the first, which
/// is the store's own path, each without its suffixes.
pub open spec fn shown(lines: Seq<Seq<char>>) -> Seq<Seq<char>> {
    if lines.len() == 0 {
        seq![]
    } else {
        lines.skip(1).map_values(|l: Seq<char>| stripped(l))
    }
}

/// What `pass find` shows of the lines of `tree`.
pub fn listing(lines: &Vec<String>) -> (r: Vec<String>)
    ensures
        texts(r@) == shown(texts(lines@)),
{
    let mut out: Vec<String> = Vec::new();
    if lines.len() == 0 {
        assert(texts(out@) =~= seq![]);
        return out;
    }
    let ghost all = shown(texts(lines@));
    assert(texts(out@) =~= all.take(0));
    for i in 1..lines.len()
        invariant
            lines@.len() > 0,
            all == shown(texts(lines@)),
            all.len() == lines@.len() - 1,
            texts(out@) == all.take(i - 1),
    {
        let ghost before = texts(out@);
        out.push(strip_ebox_suffix(lines[i].as_str()));
        assert(all[i - 1] == stripped(lines@[i as int]@));
        assert(texts(out@) =~= before.push(stripped(lines@[i as int]@)));
        assert(all.take(i as int) =~= all.take(i - 1).push(all[i - 1]));
    }
    assert(all.take(all.len() as int) =~= all);
    out
}

/// How `tree` is called.
pub struct FindPlan {
    /// What is printed first.
    pub heading: String,
    pub args: Vec<String>,
}

/// The options of `tree`, its pattern and the store.
pub open spec fn tree_args(glob: Seq<char>, root: Seq<char>) -> Seq<Seq<char>> {
    seq![
        "-N"@,
        "-C"@,
        "-l"@,
        "--noreport"@,
        "-P"@,
        glob,
        "--prune"@,
        "--matchdirs"@,
        "--ignore-case"@,
        root,
    ]
}

/// Decides how `tree` is called, or what is said of a call without terms.
pub fn plan(terms: &Vec<String>, root: &str) -> (r: Result<FindPlan, String>)
    ensures
        match r {
            Ok(p) => terms@.len() > 0 && p.heading@ == "Search Terms: "@ + joined(
                texts(terms@),
                ","@,
            ) && texts(p.args@) == tree_args(glob_of(texts(terms@)), root@),
            Err(e) => terms@.len() == 0 && e@ == "Usage: piggy pass find <pass-names>..."@,
        },
{
    if terms.len() == 0 {
        return Err("Usage: piggy pass find <pass-names>...".to_owned());
    }
    let mut args: Vec<String> = Vec::new();
    args.push("-N".to_owned());
    args.push("-C".to_owned());
    args.push("-l".to_owned());
    args.push("--noreport".to_owned());
    args.push("-P".to_owned());
    args.push(build_glob(terms));
    args.push("--prune".to_owned());
    args.push("--matchdirs".to_owned());
    args.push("--ignore-case".to_owned());
    args.push(root.to_owned());
    assert(texts(args@) =~= tree_args(glob_of(texts(terms@)), root@));
    Ok(FindPlan { heading: cat2("Search Terms: ", join(terms, ",").as_str()), args })
}

// --------------------------------------------------------------------- laws

/// A line without `.ebox` in it is shown as it is.
pub proof fn law_other_lines_stay(s: Seq<char>)
    requires
        forall|i: int| !occurs_at(s, ".ebox"@, i),
    ensures
        stripped(s) == s,
{
    lemma_kept_from(s, 0, s.len() as int);
    assert(stripped_from(s, s.len() as int) =~= seq![]);
    assert(s.subrange(0, s.len() as int) + seq![] =~= s);
}

/// The name of an entry is shown without its suffix.
pub proof fn law_entry_is_shown_by_name(name: Seq<char>)
    requires
        forall|i: int| i < name.len() ==> !occurs_at(name + ".ebox"@, ".ebox"@, i),
    ensures
        stripped(name + ".ebox"@) == name,
{
    reveal_strlit(".ebox");
    assert(".ebox"@.len() == 5);
    let s = name + ".ebox"@;
    let n = name.len() as int;
    lemma_kept_from(s, 0, n);
    assert(s.subrange(n, n + 5) =~= ".ebox"@);
    assert(ansi_end(s, n + 5) == n + 5);
    assert(suffix_at(s, n));
    assert(stripped_from(s, n + 5) =~= seq![]);
    assert(s.subrange(n + 5, n + 5) =~= seq![]);
    assert(stripped_from(s, n) =~= seq![]);
    assert(s.subrange(0, n) + seq![] =~= name);
}

/// Up to the first suffix nothing changes.
proof fn lemma_kept_from(s: Seq<char>, i: int, end: int)
    requires
        0 <= i <= end <= s.len(),
        forall|j: int| i <= j < end ==> !occurs_at(s, ".ebox"@, j),
    ensures
        stripped_from(s, i) == s.subrange(i, end) + stripped_from(s, end),
    decreases end - i,
{
    if i < end {
        lemma_kept_from(s, i + 1, end);
        assert(!occurs_at(s, ".ebox"@, i));
        assert(stripped_from(s, i) =~= s.subrange(i, end) + stripped_from(s, end));
    } else {
        assert(s.subrange(i, end) =~= seq![]);
        assert(stripped_from(s, i) =~= s.subrange(i, end) + stripped_from(s, end));
    }
}

} // verus!
