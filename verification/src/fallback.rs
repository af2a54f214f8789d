//! Handing a command over to another program.
use crate::text::{cat2, cat4, debug_str, debug_text, opt_text};
use vstd::prelude::*;

verus! {

/// Whether a character may be part of a tool's name.
pub open spec fn is_name_char(c: char) -> bool {
    ('a' <= c && c <= 'z') || ('A' <= c && c <= 'Z') || ('0' <= c && c <= '9') || c == '-' || c
        == '_'
}

/// Whether a name can only ever be that of a tool: it is not empty, and has
/// nothing but letters and digits of ASCII, hyphens and underscores.
pub open spec fn is_safe_name(tool: Seq<char>) -> bool {
    tool.len() > 0 && forall|i: int| 0 <= i < tool.len() ==> is_name_char(#[trigger] tool[i])
}

/// Whether a name can only ever be that of a tool.
pub fn is_safe_pivy_tool_name(tool: &str) -> (r: bool)
    ensures
        r == is_safe_name(tool@),
{
    if tool.is_empty() {
        return false;
    }
    for c in it: tool.chars()
        invariant
            it.seq() == tool@,
            forall|i: int| 0 <= i < it.index() ==> is_name_char(#[trigger] tool@[i]),
    {
        if !(('a' <= c && c <= 'z') || ('A' <= c && c <= 'Z') || ('0' <= c && c <= '9') || c == '-'
            || c == '_') {
            assert(!is_name_char(tool@[it.index() as int]));
            return false;
        }
    }
    true
}

/// The program of a tool, or the code to end with and what is said.
pub fn exec_pivy(tool: &str) -> (r: Result<String, (i32, String)>)
    ensures
        match r {
            Ok(binary) => is_safe_name(tool@) && binary@ == "pivy-"@ + tool@,
            Err((code, e)) => !is_safe_name(tool@) && code == 2 && e@
                == "piggy: invalid pivy tool name: "@ + debug_text(tool@),
        },
{
    if !is_safe_pivy_tool_name(tool) {
        return Err((2, cat2("piggy: invalid pivy tool name: ", debug_str(tool).as_str())));
    }
    Ok(cat2("pivy-", tool))
}

/// The program that reads and writes the list of recipients: the one that
/// the environment names, else by its name.
pub fn piggy_ids_binary(named: Option<String>) -> (r: String)
    ensures
        r@ == match opt_text(named) {
            Some(p) => p,
            None => "piggy-ids"@,
        },
{
    match named {
        Some(p) => p,
        None => "piggy-ids".to_owned(),
    }
}

/// The code to end with, and what is said, where a program cannot be started.
pub fn launch_failed(binary: &str, error: &str) -> (r: (i32, String))
    ensures
        r.0 == 127,
        r.1@ == "piggy: failed to launch "@ + binary@ + ": "@ + error@,
{
    (127, cat4("piggy: failed to launch ", binary, ": ", error))
}

/// A safe name leads nowhere: the program's name has no slash, so it is
/// looked up and never a path.
pub proof fn law_safe_name_is_no_path(tool: Seq<char>)
    requires
        is_safe_name(tool),
    ensures
        !("pivy-"@ + tool).contains('/'),
        !("pivy-"@ + tool).contains('\0'),
{
    reveal_strlit("pivy-");
    assert("pivy-"@.len() == 5);
    let b = "pivy-"@ + tool;
    assert forall|i: int| 0 <= i < b.len() implies b[i] != '/' && b[i] != '\0' by {
        if i >= 5 {
            assert(b[i] == tool[i - 5]);
            assert(is_name_char(tool[i - 5]));
        }
    }
}

} // verus!
