//! `pass init`: who can read a folder of the store.
use crate::store_path::{
    file_name, file_name_of, is_sneaky, join_path, parent, parent_of, path_joined, sneaky_message,
    sneaky_path_reason,
};
use crate::text::{
    cat2, cat3, cat4, chars_of, dec, dec_u64, find_char, find_from, same, starts_with,
    string_between, texts, trim_end_chars, trim_end_two,
};
use vstd::prelude::*;

verus! {

/// What was asked for; empty where it was not given.
#[derive(Debug)]
pub struct InitOpts {
    pub id_path: String,
    pub key: String,
    pub guid: String,
}

/// [`InitOpts`] over plain text.
pub struct OptsView {
    pub id_path: Seq<char>,
    pub key: Seq<char>,
    pub guid: Seq<char>,
}

impl View for InitOpts {
    type V = OptsView;

    open spec fn view(&self) -> OptsView {
        OptsView { id_path: self.id_path@, key: self.key@, guid: self.guid@ }
    }
}

/// What is said of a command line that makes no sense.
pub const USAGE: &'static str = "Usage: piggy pass init [-p subfolder] [-k <markl-id> | -g <guid>]";

/// Which option an argument is.
#[derive(Clone, Copy, PartialEq, Eq, Structural)]
pub enum InitFlag {
    Path,
    Key,
    Guid,
}

/// Which option an argument is.
pub open spec fn flag_of(a: Seq<char>) -> Option<InitFlag> {
    if a == "-p"@ || a == "--path"@ {
        Some(InitFlag::Path)
    } else if a == "-k"@ || a == "--key"@ {
        Some(InitFlag::Key)
    } else if a == "-g"@ || a == "--guid"@ {
        Some(InitFlag::Guid)
    } else {
        None
    }
}

/// The options with one more set.
pub open spec fn with_flag(o: OptsView, f: InitFlag, v: Seq<char>) -> OptsView {
    match f {
        InitFlag::Path => OptsView { id_path: v, ..o },
        InitFlag::Key => OptsView { key: v, ..o },
        InitFlag::Guid => OptsView { guid: v, ..o },
    }
}

/// What the arguments from position `i` mean: each option has a value, the
/// last one counts, and what follows a double hyphen does not matter.
pub open spec fn parsed_from(args: Seq<Seq<char>>, i: int, o: OptsView) -> Option<OptsView>
    decreases args.len() - i,
{
    if i >= args.len() || args[i] == "--"@ {
        Some(o)
    } else {
        match flag_of(args[i]) {
            None => None,
            Some(f) => if i + 1 >= args.len() {
                None
            } else {
                parsed_from(args, i + 2, with_flag(o, f, args[i + 1]))
            },
        }
    }
}

/// What a command line means.
pub open spec fn parsed(args: Seq<Seq<char>>) -> Option<OptsView> {
    parsed_from(args, 0, OptsView { id_path: seq![], key: seq![], guid: seq![] })
}

/// What is said of a command line that makes no sense.
pub fn usage_error() -> (r: String)
    ensures
        r@ == USAGE@,
{
    USAGE.to_owned()
}

fn which_flag(a: &str) -> (r: Option<InitFlag>)
    ensures
        r == flag_of(a@),
{
    if same(a, "-p") || same(a, "--path") {
        Some(InitFlag::Path)
    } else if same(a, "-k") || same(a, "--key") {
        Some(InitFlag::Key)
    } else if same(a, "-g") || same(a, "--guid") {
        Some(InitFlag::Guid)
    } else {
        None
    }
}

/// Reads a command line.
pub fn parse_args(args: &Vec<String>) -> (r: Result<InitOpts, String>)
    ensures
        match r {
            Ok(o) => parsed(texts(args@)) == Some(o@),
            Err(e) => parsed(texts(args@)) is None && e@ == USAGE@,
        },
{
    let ghost all = texts(args@);
    let mut o: InitOpts = InitOpts {
        id_path: String::new(),
        key: String::new(),
        guid: String::new(),
    };
    assert(o.id_path@ =~= seq![] && o.key@ =~= seq![] && o.guid@ =~= seq![]);
    let n: usize = args.len();
    let mut i: usize = 0;
    while i < n && !same(args[i].as_str(), "--")
        invariant
            n == args@.len(),
            i <= n,
            all == texts(args@),
            parsed(all) == parsed_from(all, i as int, o@),
        decreases n - i,
    {
        assert(all[i as int] == args@[i as int]@);
        match which_flag(args[i].as_str()) {
            None => return Err(usage_error()),
            Some(f) => {
                if n - i < 2 {
                    return Err(usage_error());
                }
                assert(all[i + 1] == args@[i + 1]@);
                let v: String = args[i + 1].clone();
                match f {
                    InitFlag::Path => o.id_path = v,
                    InitFlag::Key => o.key = v,
                    InitFlag::Guid => o.guid = v,
                }
                i = i + 2;
            },
        }
    }
    assert(i < n ==> all[i as int] == "--"@);
    Ok(o)
}

/// The folder to set up, and the file of its recipients.
pub struct InitPlan {
    pub opts: InitOpts,
    pub tpl_dir: String,
    pub piggy_ids: String,
}

/// The folder that is set up.
pub open spec fn folder_of(root: Seq<char>, id_path: Seq<char>) -> Seq<char> {
    if id_path.len() == 0 {
        root
    } else {
        path_joined(root, id_path)
    }
}

/// What a command line sets up: the options, the folder and the file of its
/// recipients, or what is said of it.
pub open spec fn planned(args: Seq<Seq<char>>, root: Seq<char>) -> Result<
    (OptsView, Seq<char>, Seq<char>),
    Seq<char>,
> {
    match parsed(args) {
        None => Err(USAGE@),
        Some(o) => if o.key.len() > 0 && o.guid.len() > 0 {
            Err("Error: -k and -g are mutually exclusive (-g only applies to auto-detect)."@)
        } else if o.id_path.len() > 0 && is_sneaky(o.id_path) {
            Err(
                "Error: You've attempted to pass a sneaky path to piggy ("@ + "`..` component"@
                    + "). Go home."@,
            )
        } else {
            Ok(
                (
                    o,
                    folder_of(root, o.id_path),
                    path_joined(folder_of(root, o.id_path), "piggy-ids"@),
                ),
            )
        },
    }
}

/// Reads a command line, and refuses a key beside a card to look for one on,
/// and a path that leads up.
pub fn run(args: &Vec<String>, root: &str) -> (r: Result<InitPlan, String>)
    ensures
        match r {
            Ok(p) => planned(texts(args@), root@) == Ok::<
                (OptsView, Seq<char>, Seq<char>),
                Seq<char>,
            >((p.opts@, p.tpl_dir@, p.piggy_ids@)),
            Err(e) => planned(texts(args@), root@) == Err::<
                (OptsView, Seq<char>, Seq<char>),
                Seq<char>,
            >(e@),
        },
        match parsed(texts(args@)) {
            None => r is Err && r->Err_0@ == USAGE@,
            Some(o) => if o.key.len() > 0 && o.guid.len() > 0 {
                r is Err && r->Err_0@
                    == "Error: -k and -g are mutually exclusive (-g only applies to auto-detect)."@
            } else if o.id_path.len() > 0 && is_sneaky(o.id_path) {
                r is Err && r->Err_0@ == "Error: You've attempted to pass a sneaky path to piggy ("@
                    + "`..` component"@ + "). Go home."@
            } else {
                r is Ok && r->Ok_0.opts@ == o && r->Ok_0.tpl_dir@ == folder_of(root@, o.id_path)
                    && r->Ok_0.piggy_ids@ == path_joined(
                    folder_of(root@, o.id_path),
                    "piggy-ids"@,
                )
            },
        },
{
    let opts: InitOpts = match parse_args(args) {
        Ok(o) => o,
        Err(e) => return Err(e),
    };
    if !opts.key.as_str().is_empty() && !opts.guid.as_str().is_empty() {
        return Err(
            "Error: -k and -g are mutually exclusive (-g only applies to auto-detect).".to_owned(),
        );
    }
    if !opts.id_path.as_str().is_empty() {
        match sneaky_path_reason(opts.id_path.as_str()) {
            Some(reason) => return Err(sneaky_message(reason)),
            None => {},
        }
    }
    let tpl_dir: String = if opts.id_path.as_str().is_empty() {
        root.to_owned()
    } else {
        join_path(root, opts.id_path.as_str())
    };
    let piggy_ids: String = join_path(tpl_dir.as_str(), "piggy-ids");
    Ok(InitPlan { opts, tpl_dir, piggy_ids })
}

/// What is said of something else where the folder should be; only a folder
/// that was named is looked at.
pub fn target_conflict(id_path: &str, tpl_dir: &str, exists: bool, is_dir: bool) -> (r: Option<
    String,
>)
    ensures
        r is Some <==> id_path@.len() > 0 && exists && !is_dir,
        r is Some ==> r->0@ == "Error: "@ + tpl_dir@ + " exists but is not a directory."@,
{
    if !id_path.is_empty() && exists && !is_dir {
        Some(cat3("Error: ", tpl_dir, " exists but is not a directory."))
    } else {
        None
    }
}

/// How the key of a card is asked for.
pub fn detect_args(guid: &str) -> (r: Vec<String>)
    ensures
        texts(r@) == seq!["detect-pubkey"@] + (if guid@.len() > 0 {
            seq!["--guid"@, guid@]
        } else {
            seq![]
        }),
{
    let mut out: Vec<String> = Vec::new();
    out.push("detect-pubkey".to_owned());
    if !guid.is_empty() {
        out.push("--guid".to_owned());
        out.push(guid.to_owned());
    }
    assert(texts(out@) =~= seq!["detect-pubkey"@] + (if guid@.len() > 0 {
        seq!["--guid"@, guid@]
    } else {
        seq![]
    }));
    out
}

/// Whether a recipient has the form that entries are encrypted to, with or
/// without its purpose.
pub open spec fn is_recipient(key: Seq<char>) -> bool {
    "pivy_ecdh_p256_pub-"@.is_prefix_of(key)
        || "piggy-recipient-v1@pivy_ecdh_p256_pub-"@.is_prefix_of(key)
}

/// Whether a recipient has the form that entries are encrypted to.
pub fn is_piggy_recipient_markl_id(key: &str) -> (r: bool)
    ensures
        r == is_recipient(key@),
{
    starts_with(key, "pivy_ecdh_p256_pub-") || starts_with(
        key,
        "piggy-recipient-v1@pivy_ecdh_p256_pub-",
    )
}

/// The recipient: the one that was given, or else what the card's key was
/// read as, `None` where that failed.
pub open spec fn recipient_of(key: Seq<char>, detected: Option<Seq<char>>) -> Result<
    Seq<char>,
    Seq<char>,
> {
    let found = if key.len() > 0 {
        Some(key)
    } else {
        match detected {
            Some(d) => Some(trim_end_two(d, '\n', '\r')),
            None => None,
        }
    };
    match found {
        None => Err(
            "Error: piggy-ids detect-pubkey failed; pass -k <markl-id> if no PIV card is attached."@,
        ),
        Some(k) => if is_recipient(k) {
            Ok(k)
        } else {
            Err(
                "Error: -k value must be a markl ID with format=pivy_ecdh_p256_pub (got: "@
                    + k.take(find_from(k, '-', 0)) + "...)."@,
            )
        },
    }
}

/// Decides on the recipient.
pub fn choose_recipient(key: &str, detected: &Option<String>) -> (r: Result<String, String>)
    ensures
        match r {
            Ok(k) => recipient_of(key@, crate::text::opt_text(*detected)) == Ok::<
                Seq<char>,
                Seq<char>,
            >(k@),
            Err(e) => recipient_of(key@, crate::text::opt_text(*detected)) == Err::<
                Seq<char>,
                Seq<char>,
            >(e@),
        },
{
    let k: String = if !key.is_empty() {
        key.to_owned()
    } else {
        match detected {
            Some(d) => trim_end_chars(d.as_str(), '\n', '\r'),
            None => {
                return Err(
                    "Error: piggy-ids detect-pubkey failed; pass -k <markl-id> if no PIV card is attached.".to_owned(),
                );
            },
        }
    };
    if is_piggy_recipient_markl_id(k.as_str()) {
        return Ok(k);
    }
    let v: Vec<char> = chars_of(k.as_str());
    let e: usize = find_char(v.as_slice(), '-', 0);
    let head: String = string_between(v.as_slice(), 0, e);
    assert(head@ =~= k@.take(e as int));
    Err(
        cat3(
            "Error: -k value must be a markl ID with format=pivy_ecdh_p256_pub (got: ",
            head.as_str(),
            "...).",
        ),
    )
}

/// A file beside another, under a name that only this process takes.
pub open spec fn sibling(path: Seq<char>, pid: u32) -> Seq<char> {
    let suffix = ".tmp."@ + dec(pid as nat);
    match file_name_of(path) {
        Some(n) => path_joined(
            match parent_of(path) {
                Some(d) => d,
                None => path,
            },
            n + suffix,
        ),
        None => path_joined(path, "piggy-ids"@ + suffix),
    }
}

/// A file beside another, to be renamed over it.
pub fn tmp_sibling(path: &str, pid: u32) -> (r: String)
    ensures
        r@ == sibling(path@, pid),
{
    let suffix: String = cat2(".tmp.", dec_u64(pid as u64).as_str());
    match file_name(path) {
        Some(n) => {
            let dir: String = match parent(path) {
                Some(d) => d,
                None => path.to_owned(),
            };
            join_path(dir.as_str(), cat2(n.as_str(), suffix.as_str()).as_str())
        },
        None => join_path(path, cat2("piggy-ids", suffix.as_str()).as_str()),
    }
}

/// The file of the recipients: two lines of explanation, and the recipient.
pub fn piggy_ids_text(key: &str) -> (r: String)
    ensures
        r@ == "# piggy-ids — piggy 2.x recipient template\n"@
            + "# format: piggy-recipient-v1@pivy_ecdh_p256_pub-<blech32>  # optional comment\n"@
            + key@ + "\n"@,
{
    cat4(
        "# piggy-ids — piggy 2.x recipient template\n",
        "# format: piggy-recipient-v1@pivy_ecdh_p256_pub-<blech32>  # optional comment\n",
        key,
        "\n",
    )
}

/// The folder in brackets, where one was named.
pub open spec fn suffix_of(id_path: Seq<char>) -> Seq<char> {
    if id_path.len() == 0 {
        ""@
    } else {
        " ("@ + id_path + ")"@
    }
}

/// What is said, and the messages of the two commits: the recipients first,
/// then what was encrypted to them again.
pub fn messages(id_path: &str) -> (r: (String, String, String))
    ensures
        r.0@ == "Password store initialized"@ + suffix_of(id_path@),
        r.1@ == "Set piggy recipients"@ + suffix_of(id_path@) + "."@,
        r.2@ == "Reencrypt password store using new piggy recipients"@ + suffix_of(id_path@) + "."@,
{
    let suffix: String = if id_path.is_empty() {
        "".to_owned()
    } else {
        cat3(" (", id_path, ")")
    };
    (
        cat2("Password store initialized", suffix.as_str()),
        cat3("Set piggy recipients", suffix.as_str(), "."),
        cat3("Reencrypt password store using new piggy recipients", suffix.as_str(), "."),
    )
}

} // verus!
