//! Entries as passphrases: the first line of one.
use crate::store_path::{entry_file, is_sneaky, passfile, sneaky_path_reason};
use crate::text::{cat2, cat4, debug_str, debug_text, trim_end_chars, trim_end_two};
use vstd::prelude::*;
use vstd::slice::{slice_subrange, slice_to_vec};

verus! {

/// The name of an entry, without slashes at its end.
pub open spec fn entry_name(pass_name: Seq<char>) -> Seq<char> {
    trim_end_two(pass_name, '/', '/')
}

/// The entry that a passphrase is in, and its file; a path that leads up is
/// refused.
pub fn secret_file(pass_name: &str, root: &str) -> (r: Result<(String, String), String>)
    ensures
        match r {
            Ok((name, file)) => !is_sneaky(entry_name(pass_name@)) && name@ == entry_name(
                pass_name@,
            ) && file@ == entry_file(root@, entry_name(pass_name@)),
            Err(e) => is_sneaky(entry_name(pass_name@)) && e@ == "sneaky path ("@
                + "`..` component"@ + ") in secret name "@ + debug_text(pass_name@),
        },
{
    let name: String = trim_end_chars(pass_name, '/', '/');
    match sneaky_path_reason(name.as_str()) {
        Some(reason) => {
            return Err(
                cat4("sneaky path (", reason, ") in secret name ", debug_str(pass_name).as_str()),
            );
        },
        None => {},
    }
    let file: String = passfile(root, name.as_str());
    Ok((name, file))
}

/// What is said of an entry that is not there.
pub fn missing_entry(name: &str) -> (r: String)
    ensures
        r@ == name@ + " is not in the password store"@,
{
    cat2(name, " is not in the password store")
}

/// Where the first line ends.
pub open spec fn line_end(s: Seq<u8>, i: int) -> int
    decreases s.len() - i,
{
    if i >= s.len() || s[i] == 10 {
        i
    } else {
        line_end(s, i + 1)
    }
}

/// The first line of an entry, without its line feed. An empty one is never
/// what is wanted.
pub fn first_line(name: &str, plaintext: &Vec<u8>) -> (r: Result<Vec<u8>, String>)
    ensures
        match r {
            Ok(line) => line@ == plaintext@.take(line_end(plaintext@, 0)) && line@.len() > 0
                && !line@.contains(10),
            Err(e) => line_end(plaintext@, 0) == 0 && e@ == name@ + ": first line is empty"@,
        },
        match r {
            Ok(line) => passphrase(plaintext@) == Some(line@),
            Err(_) => passphrase(plaintext@) is None,
        },
{
    let mut end: usize = 0;
    while end < plaintext.len() && plaintext[end] != 10
        invariant
            end <= plaintext@.len(),
            line_end(plaintext@, 0) == line_end(plaintext@, end as int),
            forall|j: int| 0 <= j < end ==> plaintext@[j] != 10,
        decreases plaintext@.len() - end,
    {
        end = end + 1;
    }
    if end == 0 {
        return Err(cat2(name, ": first line is empty"));
    }
    let line: Vec<u8> = slice_to_vec(slice_subrange(plaintext.as_slice(), 0, end));
    assert(line@ =~= plaintext@.take(end as int));
    Ok(line)
}

/// The passphrase that an entry holds: its first line, unless that is empty.
pub open spec fn passphrase(plaintext: Seq<u8>) -> Option<Seq<u8>> {
    let end = line_end(plaintext, 0);
    if end > 0 {
        Some(plaintext.take(end))
    } else {
        None
    }
}

proof fn lemma_line_end(s: Seq<u8>, line: int, i: int)
    requires
        0 <= i <= line <= s.len(),
        forall|j: int| 0 <= j < line ==> #[trigger] s[j] != 10,
        line < s.len() ==> s[line] == 10,
    ensures
        line_end(s, i) == line,
    decreases line - i,
{
    if i < line {
        assert(s[i] != 10);
        lemma_line_end(s, line, i + 1);
    }
}

/// An entry gives its first line and nothing behind it, without the line
/// feed; an entry of one line gives that line.
pub proof fn law_passphrase_is_the_first_line(line: Seq<u8>, rest: Seq<u8>)
    requires
        forall|j: int| 0 <= j < line.len() ==> #[trigger] line[j] != 10,
        line.len() > 0,
    ensures
        passphrase(line) == Some(line),
        passphrase(line.push(10) + rest) == Some(line),
        passphrase(seq![10u8] + rest) is None,
        passphrase(seq![]) is None,
{
    lemma_line_end(line, line.len() as int, 0);
    assert(line.take(line.len() as int) =~= line);
    let whole = line.push(10) + rest;
    assert forall|j: int| 0 <= j < line.len() implies #[trigger] whole[j] != 10 by {
        assert(whole[j] == line[j]);
    }
    lemma_line_end(whole, line.len() as int, 0);
    assert(whole.take(line.len() as int) =~= line);
    lemma_line_end(seq![10u8] + rest, 0, 0);
}

} // verus!
