//! `pass edit`: an entry in an editor. The entry is decrypted into a file
//! that only its owner can see, and encrypted again if it changed.
use crate::options::{operands_of, options_of, scan};
use crate::store_path::{
    entry_file, is_sneaky, passfile, path_parent_for_search, search_folder, sneaky_message,
    sneaky_path_reason,
};
use crate::text::{
    cat2, cat4, cat5, chars_of, opt_text, string_of, texts, trim_end_chars, trim_end_two,
};
use crate::wire::bytes_same;
use vstd::prelude::*;

verus! {

/// What is said of a command line that makes no sense.
pub const USAGE: &'static str = "Usage: piggy pass edit pass-name";

/// The entry that a command line names: exactly one, and no option.
pub open spec fn parsed(args: Seq<Seq<char>>) -> Result<Seq<char>, Seq<char>> {
    if options_of(args).len() > 0 || operands_of(args).len() != 1 {
        Err(USAGE@)
    } else {
        Ok(trim_end_two(operands_of(args)[0], '/', '/'))
    }
}

/// Reads a command line.
pub fn parse_args(args: &Vec<String>) -> (r: Result<String, String>)
    ensures
        match r {
            Ok(p) => parsed(texts(args@)) == Ok::<Seq<char>, Seq<char>>(p@),
            Err(e) => parsed(texts(args@)) == Err::<Seq<char>, Seq<char>>(e@),
        },
{
    let (options, operands) = scan(args);
    assert(texts(options@).len() == options@.len());
    assert(texts(operands@).len() == operands@.len());
    if options.len() > 0 || operands.len() != 1 {
        return Err(USAGE.to_owned());
    }
    assert(texts(operands@)[0] == operands@[0]@);
    Ok(trim_end_chars(operands[0].as_str(), '/', '/'))
}

/// The entry to be edited.
pub struct EditPlan {
    pub path: String,
    /// Its file in the store.
    pub passfile: String,
    /// The folder that its recipients are looked for from.
    pub folder: String,
}

/// The entry to edit, its file and the folder that its recipients are looked
/// for from, or what is said of the command line.
pub open spec fn planned(args: Seq<Seq<char>>, root: Seq<char>) -> Result<
    (Seq<char>, Seq<char>, Seq<char>),
    Seq<char>,
> {
    match parsed(args) {
        Err(e) => Err(e),
        Ok(p) => if is_sneaky(p) {
            Err(
                "Error: You've attempted to pass a sneaky path to piggy ("@ + "`..` component"@
                    + "). Go home."@,
            )
        } else {
            Ok((p, entry_file(root, p), search_folder(p)))
        },
    }
}

/// Reads a command line, refuses a path that leads up, and says where the
/// entry lies.
pub fn run(args: &Vec<String>, root: &str) -> (r: Result<EditPlan, String>)
    ensures
        match r {
            Ok(p) => planned(texts(args@), root@) == Ok::<
                (Seq<char>, Seq<char>, Seq<char>),
                Seq<char>,
            >((p.path@, p.passfile@, p.folder@)),
            Err(e) => planned(texts(args@), root@) == Err::<
                (Seq<char>, Seq<char>, Seq<char>),
                Seq<char>,
            >(e@),
        },
        match parsed(texts(args@)) {
            Err(e) => r is Err && r->Err_0@ == e,
            Ok(p) => if is_sneaky(p) {
                r is Err && r->Err_0@ == "Error: You've attempted to pass a sneaky path to piggy ("@
                    + "`..` component"@ + "). Go home."@
            } else {
                r is Ok && r->Ok_0.path@ == p && r->Ok_0.passfile@ == entry_file(root@, p)
                    && r->Ok_0.folder@ == search_folder(p)
            },
        },
{
    let path: String = match parse_args(args) {
        Ok(p) => p,
        Err(e) => return Err(e),
    };
    match sneaky_path_reason(path.as_str()) {
        Some(reason) => return Err(sneaky_message(reason)),
        None => {},
    }
    let file: String = passfile(root, path.as_str());
    let folder: String = path_parent_for_search(path.as_str());
    Ok(EditPlan { path, passfile: file, folder })
}

/// The editor: the one that the environment names, unless it names nothing.
pub open spec fn editor_of(named: Option<Seq<char>>) -> Seq<char> {
    match named {
        Some(e) => if e.len() > 0 {
            e
        } else {
            "vi"@
        },
        None => "vi"@,
    }
}

/// The editor.
pub fn editor_command(named: Option<String>) -> (r: String)
    ensures
        r@ == editor_of(opt_text(named)),
{
    match named {
        Some(e) => {
            if e.as_str().is_empty() {
                "vi".to_owned()
            } else {
                e
            }
        },
        None => "vi".to_owned(),
    }
}

// --------------------------------------------------------- names of files

/// The letters and digits of ASCII.
pub const ALPHABET: &'static str = "abcdefghijklmnopqrstuvwxyzABCDEFGHIJKLMNOPQRSTUVWXYZ0123456789";

/// The next number of a sequence that looks random (`xorshift`).
pub open spec fn shuffled(seed: u64) -> u64 {
    let a = seed ^ (seed << 13u64);
    let b = a ^ (a >> 7u64);
    b ^ (b << 17u64)
}

/// Letters and digits that follow from a number.
pub open spec fn letters(seed: u64, n: nat) -> Seq<char>
    decreases n,
{
    if n == 0 {
        seq![]
    } else {
        let next = shuffled(seed);
        seq![ALPHABET@[(next % 62) as int]] + letters(next, (n - 1) as nat)
    }
}

/// The number that the name of a file follows from: the time in nanoseconds
/// and the process, mixed.
pub open spec fn mixed(nanos: u64, pid: u32) -> u64 {
    ((nanos as nat * 0x9e37_79b9_7f4a_7c15 + pid as nat) % 0x1_0000_0000_0000_0000) as u64
}

/// The number that the name of a file follows from.
pub fn seed_of(nanos: u64, pid: u32) -> (r: u64)
    ensures
        r == mixed(nanos, pid),
{
    let product: u128 = nanos as u128 * 0x9e37_79b9_7f4a_7c15u128;
    assert(product <= 0xffff_ffff_ffff_ffffu128 * 0x9e37_79b9_7f4a_7c15u128) by (nonlinear_arith)
        requires
            product == nanos as u128 * 0x9e37_79b9_7f4a_7c15u128,
            nanos <= 0xffff_ffff_ffff_ffff,
    ;
    ((product + pid as u128) % 0x1_0000_0000_0000_0000) as u64
}

proof fn lemma_alphabet()
    ensures
        ALPHABET@.len() == 62,
        forall|i: int| 0 <= i < 62 ==> crate::fallback::is_name_char(#[trigger] ALPHABET@[i])
            && ALPHABET@[i] != '-' && ALPHABET@[i] != '_',
{
    reveal_strlit("abcdefghijklmnopqrstuvwxyzABCDEFGHIJKLMNOPQRSTUVWXYZ0123456789");
}

/// Letters and digits that follow from a number. They need not be secret:
/// the folder is.
pub fn random_alphanumeric(seed: u64, n: usize) -> (r: String)
    ensures
        r@ == letters(seed, n as nat),
{
    let alphabet: Vec<char> = chars_of(ALPHABET);
    proof {
        lemma_alphabet();
    }
    let mut out: String = String::new();
    let mut s: u64 = seed;
    let mut left: usize = n;
    assert(out@ + letters(seed, n as nat) =~= letters(seed, n as nat));
    while left > 0
        invariant
            alphabet@ == ALPHABET@,
            alphabet@.len() == 62,
            letters(seed, n as nat) == out@ + letters(s, left as nat),
        decreases left,
    {
        let ghost before = out@;
        let a: u64 = s ^ (s << 13u64);
        let b: u64 = a ^ (a >> 7u64);
        let next: u64 = b ^ (b << 17u64);
        assert(next == shuffled(s));
        let c: char = alphabet[(next % 62) as usize];
        out.push(c);
        assert(out@ + letters(next, (left - 1) as nat) =~= before + letters(s, left as nat));
        s = next;
        left = left - 1;
    }
    assert(out@ + letters(s, 0) =~= out@);
    out
}

/// A name with a hyphen for every slash.
pub open spec fn flattened(path: Seq<char>) -> Seq<char> {
    path.map_values(
        |c: char|
            if c == '/' {
                '-'
            } else {
                c
            },
    )
}

fn flatten(path: &str) -> (r: String)
    ensures
        r@ == flattened(path@),
{
    let mut v: Vec<char> = chars_of(path);
    let n: usize = v.len();
    for i in 0..n
        invariant
            n == v@.len(),
            v@.len() == path@.len(),
            forall|j: int| 0 <= j < i ==> v@[j] == flattened(path@)[j],
            forall|j: int| i <= j < n ==> v@[j] == path@[j],
    {
        if v[i] == '/' {
            v.set(i, '-');
        }
    }
    assert(v@ =~= flattened(path@));
    string_of(v.as_slice())
}

/// The name of the file that is edited: six letters and digits, and the
/// entry's path with hyphens for slashes.
pub open spec fn tmp_name(path: Seq<char>, seed: u64) -> Seq<char> {
    letters(seed, 6) + "-"@ + flattened(path) + ".txt"@
}

/// The name of the file that is edited.
pub fn make_tmp_file_name(path: &str, seed: u64) -> (r: String)
    ensures
        r@ == tmp_name(path@, seed),
{
    cat4(
        random_alphanumeric(seed, 6).as_str(),
        "-",
        flatten(path).as_str(),
        ".txt",
    )
}

/// Letters and digits are as many as were asked for, and nothing else.
pub proof fn law_letters_are_alphanumeric(seed: u64, n: nat)
    ensures
        letters(seed, n).len() == n,
        forall|i: int|
            0 <= i < n ==> crate::fallback::is_name_char(#[trigger] letters(seed, n)[i])
                && letters(seed, n)[i] != '-' && letters(seed, n)[i] != '_',
    decreases n,
{
    if n > 0 {
        lemma_alphabet();
        let next = shuffled(seed);
        law_letters_are_alphanumeric(next, (n - 1) as nat);
        assert forall|i: int| 0 <= i < n implies crate::fallback::is_name_char(
            #[trigger] letters(seed, n)[i],
        ) && letters(seed, n)[i] != '-' && letters(seed, n)[i] != '_' by {
            if i > 0 {
                assert(letters(seed, n)[i] == letters(next, (n - 1) as nat)[i - 1]);
            }
        }
    }
}

/// Whatever the entry's path, the file's name has no slash: it lies in the
/// folder that was made for it and nowhere else.
pub proof fn law_tmp_file_stays_in_its_folder(path: Seq<char>, seed: u64)
    ensures
        !tmp_name(path, seed).contains('/'),
{
    law_letters_are_alphanumeric(seed, 6);
    reveal_strlit("-");
    reveal_strlit(".txt");
    assert("-"@.len() == 1);
    assert(".txt"@.len() == 4);
    let name = tmp_name(path, seed);
    let f = flattened(path);
    assert forall|i: int| 0 <= i < name.len() implies name[i] != '/' by {
        if i < 6 {
            assert(name[i] == letters(seed, 6)[i]);
            assert(crate::fallback::is_name_char(letters(seed, 6)[i]));
        } else if i >= 7 && i < 7 + f.len() {
            assert(name[i] == f[i - 7]);
        }
    }
}

// ----------------------------------------------------------------- changes

/// What the editor left: `None` where there is no file, or it could not be
/// read.
pub open spec fn unchanged(prior: Option<Seq<u8>>, edited: Option<Seq<u8>>) -> bool {
    prior is Some && edited is Some && prior->0 == edited->0
}

/// The bytes, where there are any.
pub open spec fn opt_seq(b: Option<Vec<u8>>) -> Option<Seq<u8>> {
    match b {
        Some(v) => Some(v@),
        None => None,
    }
}

/// Whether nothing changed. An entry that is new, or that cannot be
/// decrypted, counts as changed.
pub fn is_unchanged(prior: &Option<Vec<u8>>, edited: &Option<Vec<u8>>) -> (r: bool)
    ensures
        r == unchanged(opt_seq(*prior), opt_seq(*edited)),
        r == (prior is Some && edited is Some && prior->0@ == edited->0@),
{
    match (prior, edited) {
        (Some(a), Some(b)) => bytes_same(a.as_slice(), b.as_slice()),
        _ => false,
    }
}

/// What comes after the editor.
#[derive(Debug, PartialEq, Eq)]
pub enum AfterEdit {
    /// Encrypt what the editor left.
    Encrypt,
    /// End with this code, and say why.
    Stop(String, i32),
}

/// Decides what comes after the editor; how it ended does not matter. That
/// nothing changed is no error.
pub fn after_editor(file_is_there: bool, is_same: bool) -> (r: AfterEdit)
    ensures
        match r {
            AfterEdit::Encrypt => file_is_there && !is_same,
            AfterEdit::Stop(e, code) => if !file_is_there {
                e@ == "New password not saved."@ && code == 1
            } else {
                is_same && e@ == "Password unchanged."@ && code == 0
            },
        },
        r is Encrypt <==> is_saved(file_is_there, is_same),
{
    if !file_is_there {
        AfterEdit::Stop("New password not saved.".to_owned(), 1)
    } else if is_same {
        AfterEdit::Stop("Password unchanged.".to_owned(), 0)
    } else {
        AfterEdit::Encrypt
    }
}

/// The message of the commit.
pub fn commit_message(existed: bool, path: &str, editor: &str) -> (r: String)
    ensures
        r@ == (if existed {
            "Edit"@
        } else {
            "Add"@
        }) + " password for "@ + path@ + " using "@ + editor@ + "."@,
{
    let action: &str = if existed {
        "Edit"
    } else {
        "Add"
    };
    let head: String = cat5(action, " password for ", path, " using ", editor);
    cat2(head.as_str(), ".")
}

/// Whether what the editor left is encrypted.
pub open spec fn is_saved(file_is_there: bool, is_same: bool) -> bool {
    file_is_there && !is_same
}

/// An entry counts as unchanged only if both files were read and they agree
/// in length and in every byte.
pub proof fn law_unchanged_is_byte_for_byte(prior: Option<Seq<u8>>, edited: Option<Seq<u8>>)
    ensures
        unchanged(prior, edited) <==> prior is Some && edited is Some && prior->0.len()
            == edited->0.len() && forall|i: int|
            0 <= i < prior->0.len() ==> #[trigger] prior->0[i] == edited->0[i],
{
    if prior is Some && edited is Some && prior->0.len() == edited->0.len() && forall|i: int|
        0 <= i < prior->0.len() ==> #[trigger] prior->0[i] == edited->0[i] {
        assert(prior->0 =~= edited->0);
    }
}

/// No edit is lost: whatever the editor left is encrypted, unless it is
/// exactly what was there before; a new entry is always encrypted.
pub proof fn law_no_edit_is_lost(prior: Option<Seq<u8>>, left: Seq<u8>)
    ensures
        prior is None ==> is_saved(true, unchanged(prior, Some(left))),
        prior is Some && prior->0 != left ==> is_saved(true, unchanged(prior, Some(left))),
        prior == Some(left) ==> !is_saved(true, unchanged(prior, Some(left))),
        !is_saved(false, unchanged(prior, None)),
{
}

} // verus!
