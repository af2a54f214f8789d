//! The version, from the file that holds it.
use crate::text::{
    cut, either, lines, lines_of, same, split_once, starts_with, texts, trim, trim_end_chars,
    trim_end_two, trim_start, trim_start_by, trim_start_chars, trimmed, white,
};
use vstd::prelude::*;

verus! {

/// A setting without the word that exports it.
pub open spec fn without_export(line: Seq<char>) -> Seq<char> {
    if "export "@.is_prefix_of(line) {
        line.skip("export "@.len() as int)
    } else {
        line
    }
}

/// A value without the space and the quotes around it.
pub open spec fn unquoted(value: Seq<char>) -> Seq<char> {
    trim_end_two(trim_start_by(trimmed(value), either('"', '\'')), '"', '\'')
}

/// The version in the lines from position `i`: the value of the first setting
/// of that name. Remarks and lines that are no setting do not count.
pub open spec fn version_from(lines: Seq<Seq<char>>, i: int) -> Option<Seq<char>>
    decreases lines.len() - i,
{
    if i >= lines.len() {
        None
    } else {
        let t = trim_start_by(lines[i], white());
        if t.len() == 0 || t[0] == '#' {
            version_from(lines, i + 1)
        } else {
            match cut(without_export(t), '=') {
                None => version_from(lines, i + 1),
                Some((key, value)) => if trimmed(key) != "PIGGY_VERSION"@ {
                    version_from(lines, i + 1)
                } else if unquoted(value).len() == 0 {
                    None
                } else {
                    Some(unquoted(value))
                },
            }
        }
    }
}

fn drop_export(line: &str) -> (r: String)
    ensures
        r@ == without_export(line@),
{
    if starts_with(line, "export ") {
        let n: usize = "export ".unicode_len();
        let s: String = line.substring_char(n, line.unicode_len()).to_owned();
        assert(s@ =~= line@.skip("export "@.len() as int));
        s
    } else {
        line.to_owned()
    }
}

/// The version in a file of settings.
pub fn parse_piggy_version(content: &str) -> (r: Option<String>)
    ensures
        crate::text::opt_text(r) == version_from(lines_of(content@), 0),
{
    let rows: Vec<String> = lines(content);
    let ghost all = texts(rows@);
    let n: usize = rows.len();
    let mut i: usize = 0;
    while i < n
        invariant
            n == rows@.len(),
            i <= n,
            all == texts(rows@),
            all == lines_of(content@),
            version_from(all, 0) == version_from(all, i as int),
        decreases n - i,
    {
        assert(all[i as int] == rows@[i as int]@);
        let t: String = trim_start(rows[i].as_str());
        if t.as_str().is_empty() || t.as_str().get_char(0) == '#' {
            i = i + 1;
            continue ;
        }
        let (key, value) = match split_once(drop_export(t.as_str()).as_str(), '=') {
            Some(p) => p,
            None => {
                i = i + 1;
                continue ;
            },
        };
        if !same(trim(key.as_str()).as_str(), "PIGGY_VERSION") {
            i = i + 1;
            continue ;
        }
        let bare: String = trim_end_chars(
            trim_start_chars(trim(value.as_str()).as_str(), '"', '\'').as_str(),
            '"',
            '\'',
        );
        if bare.as_str().is_empty() {
            return None;
        }
        return Some(bare);
    }
    None
}

/// The version to show: the one in the file, or that of a build that has
/// none.
pub fn version_or_dev(content: &Option<String>) -> (r: String)
    ensures
        r@ == match content {
            Some(c) => match version_from(lines_of(c@), 0) {
                Some(v) => v,
                None => "dev"@,
            },
            None => "dev"@,
        },
{
    match content {
        Some(c) => match parse_piggy_version(c.as_str()) {
            Some(v) => v,
            None => "dev".to_owned(),
        },
        None => "dev".to_owned(),
    }
}

} // verus!
