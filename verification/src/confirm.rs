//! Asking before something is lost.
use crate::text::{cat2, is_white, law_trim_takes_white_space_around, same, trim, trimmed};
use vstd::prelude::*;

verus! {

/// Whether to go ahead. Where nobody can be asked, one does; else only a `y`
/// says so. `None` stands for an answer that could not be read.
pub open spec fn goes_ahead(is_tty: bool, answer: Option<Seq<char>>) -> bool {
    !is_tty || match answer {
        Some(a) => trimmed(a) == "y"@ || trimmed(a) == "Y"@,
        None => false,
    }
}

/// How the question is put.
pub fn question(message: &str) -> (r: String)
    ensures
        r@ == message@ + " [y/N] "@,
{
    cat2(message, " [y/N] ")
}

/// Decides whether to go ahead.
pub fn confirm(is_tty: bool, answer: &Option<String>) -> (r: bool)
    ensures
        r == goes_ahead(is_tty, crate::text::opt_text(*answer)),
{
    if !is_tty {
        return true;
    }
    match answer {
        Some(a) => {
            let t: String = trim(a.as_str());
            same(t.as_str(), "y") || same(t.as_str(), "Y")
        },
        None => false,
    }
}

/// At a terminal only a `y`, in either case and with white space around it,
/// goes ahead; without a terminal there is nobody to ask.
pub proof fn law_only_a_yes_goes_ahead(before: Seq<char>, word: Seq<char>, after: Seq<char>)
    requires
        forall|i: int| 0 <= i < before.len() ==> is_white(#[trigger] before[i]),
        forall|i: int| 0 <= i < after.len() ==> is_white(#[trigger] after[i]),
        word.len() > 0 ==> !is_white(word[0]) && !is_white(word.last()),
    ensures
        goes_ahead(true, Some(before + word + after)) <==> word.len() == 1 && (word[0] == 'y'
            || word[0] == 'Y'),
        !goes_ahead(true, None),
        goes_ahead(false, None),
{
    law_trim_takes_white_space_around(before, word, after);
    reveal_strlit("y");
    reveal_strlit("Y");
    if word.len() == 1 {
        assert(word =~= seq![word[0]]);
        assert("y"@ =~= seq!['y']);
        assert("Y"@ =~= seq!['Y']);
    }
}

} // verus!
