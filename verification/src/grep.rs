//! `pass grep`: entries by content. Each entry is decrypted and handed to
//! `grep`; what is here is how `grep` is asked and how its matches are shown.
use crate::store_path::{relative, relative_to};
use crate::text::{
    cat5, chars_of, rfind_below, rfind_char, strip_suffix, string_between, texts, without_suffix,
};
use vstd::prelude::*;

verus! {

/// The path of an entry as it is shown: within the store where it lies
/// there, and without its suffix.
pub open spec fn shown_path(path: Seq<char>, root: Seq<char>) -> Seq<char> {
    without_suffix(
        match relative(path, root) {
            Some(r) => r,
            None => path,
        },
        ".ebox"@,
    )
}

/// The folder of an entry, with its slash, and the entry's own name.
pub open spec fn display_of(path: Seq<char>, root: Seq<char>) -> (Seq<char>, Seq<char>) {
    let s = shown_path(path, root);
    let k = rfind_below(s, '/', s.len() as int);
    (s.take(k), s.skip(k))
}

/// The folder of an entry, with its slash, and the entry's own name.
pub fn split_display(path: &str, root: &str) -> (r: (String, String))
    ensures
        (r.0@, r.1@) == display_of(path@, root@),
{
    let rel: String = match relative_to(path, root) {
        Some(r) => r,
        None => path.to_owned(),
    };
    let s: String = strip_suffix(rel.as_str(), ".ebox");
    let v: Vec<char> = chars_of(s.as_str());
    let k: usize = rfind_char(v.as_slice(), '/');
    let dir: String = string_between(v.as_slice(), 0, k);
    let name: String = string_between(v.as_slice(), k, v.len());
    assert(dir@ =~= s@.take(k as int));
    assert(name@ =~= s@.skip(k as int));
    (dir, name)
}

/// The folder and the name make up the path that is shown, and the name has
/// no slash.
pub proof fn law_display_loses_nothing(path: Seq<char>, root: Seq<char>)
    ensures
        display_of(path, root).0 + display_of(path, root).1 == shown_path(path, root),
        !display_of(path, root).1.contains('/'),
{
    let s = shown_path(path, root);
    lemma_rfind(s, s.len() as int);
    let k = rfind_below(s, '/', s.len() as int);
    assert(s.take(k) + s.skip(k) =~= s);
    assert forall|i: int| 0 <= i < s.skip(k).len() implies s.skip(k)[i] != '/' by {
        assert(s.skip(k)[i] == s[k + i]);
    }
}

proof fn lemma_rfind(s: Seq<char>, end: int)
    requires
        0 <= end <= s.len(),
    ensures
        0 <= rfind_below(s, '/', end) <= end,
        forall|j: int| rfind_below(s, '/', end) <= j < end ==> s[j] != '/',
    decreases end,
{
    if end > 0 && s[end - 1] != '/' {
        lemma_rfind(s, end - 1);
    }
}

/// The line above the matches of an entry: its folder in blue, its name in
/// bold.
pub fn header(path: &str, root: &str) -> (r: String)
    ensures
        r@ == "\u{1b}[94m"@ + display_of(path@, root@).0 + "\u{1b}[1m"@ + display_of(
            path@,
            root@,
        ).1 + "\u{1b}[0m:"@,
{
    let (dir, name) = split_display(path, root);
    cat5("\u{1b}[94m", dir.as_str(), "\u{1b}[1m", name.as_str(), "\u{1b}[0m:")
}

/// Whether what `grep` printed is shown: it must have found something.
pub fn has_matches(success: bool, output: &Vec<u8>) -> (r: bool)
    ensures
        r == (success && output@.len() > 0),
{
    success && output.len() > 0
}

/// What `grep` printed, with a line feed at the end where it has none.
pub fn closed_block(output: Vec<u8>) -> (r: Vec<u8>)
    ensures
        r@ == if output@.len() > 0 && output@.last() == 10 {
            output@
        } else {
            output@.push(10)
        },
{
    let mut out: Vec<u8> = output;
    let n: usize = out.len();
    if n == 0 || out[n - 1] != 10 {
        out.push(10);
    }
    out
}

/// How `grep` is called, or what is said of a call without anything to look
/// for.
pub fn plan(args: &Vec<String>) -> (r: Result<Vec<String>, String>)
    ensures
        match r {
            Ok(a) => args@.len() > 0 && texts(a@) == seq!["--color=always"@] + texts(args@),
            Err(e) => args@.len() == 0 && e@
                == "Usage: piggy pass grep [GREPOPTIONS] search-string"@,
        },
{
    if args.len() == 0 {
        return Err("Usage: piggy pass grep [GREPOPTIONS] search-string".to_owned());
    }
    let mut out: Vec<String> = Vec::new();
    out.push("--color=always".to_owned());
    assert(texts(out@) =~= seq!["--color=always"@] + texts(args@).take(0));
    for i in 0..args.len()
        invariant
            texts(out@) == seq!["--color=always"@] + texts(args@).take(i as int),
    {
        let ghost before = texts(out@);
        out.push(args[i].clone());
        assert(texts(out@) =~= before.push(args@[i as int]@));
        assert(texts(args@).take(i + 1) =~= texts(args@).take(i as int).push(args@[i as int]@));
    }
    assert(texts(args@).take(args@.len() as int) =~= texts(args@));
    Ok(out)
}

} // verus!
