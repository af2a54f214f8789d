//! `luks`: encrypted volumes whose key is an entry of the store. `cryptsetup`
//! does the work; what is here is how it is called.
use crate::text::{cat2, texts};
use vstd::prelude::*;

verus! {

/// What is to be done with a volume.
#[derive(Debug, PartialEq, Eq)]
pub enum Action {
    Format { device: String },
    Open { device: String, name: String },
    /// The entry allows it; the file holds the new key.
    AddKey { device: String, new_key_file: String },
    Close { name: String },
}

/// How `cryptsetup` is called, and whether the entry goes to its input.
#[derive(Debug, PartialEq, Eq)]
pub struct Plan {
    pub argv: Vec<String>,
    pub needs_secret: bool,
}

/// What stands before the caller's own arguments.
pub open spec fn fixed_args(action: Action) -> Seq<Seq<char>> {
    match action {
        Action::Format { .. } => seq![
            "luksFormat"@,
            "--type"@,
            "luks2"@,
            "--key-file"@,
            "-"@,
        ],
        Action::Open { .. } => seq!["open"@, "--key-file"@, "-"@],
        Action::AddKey { .. } => seq!["luksAddKey"@, "--key-file"@, "-"@],
        Action::Close { .. } => seq!["close"@],
    }
}

/// What stands behind them.
pub open spec fn operands(action: Action) -> Seq<Seq<char>> {
    match action {
        Action::Format { device } => seq![device@],
        Action::Open { device, name } => seq![device@, name@],
        Action::AddKey { device, new_key_file } => seq![device@, new_key_file@],
        Action::Close { name } => seq![name@],
    }
}

/// The whole call: the caller's own arguments stand between the options and
/// the operands.
pub open spec fn call(action: Action, extra: Seq<Seq<char>>) -> Seq<Seq<char>> {
    fixed_args(action) + extra + operands(action)
}

/// The entry that goes to the input of `cryptsetup`: none for closing, and
/// for anything else the one that was named, which must be there.
pub open spec fn secret_for(action: Action, secret: Option<String>) -> Result<Option<String>, ()> {
    if action is Close {
        Ok(None)
    } else {
        match secret {
            Some(s) => Ok(Some(s)),
            None => Err(()),
        }
    }
}

fn push_all(out: &mut Vec<String>, more: &Vec<String>)
    ensures
        texts(final(out)@) == texts(old(out)@) + texts(more@),
{
    let ghost start = texts(out@);
    assert(start + texts(more@).take(0) =~= start);
    for i in 0..more.len()
        invariant
            texts(out@) == start + texts(more@).take(i as int),
    {
        let ghost before = texts(out@);
        out.push(more[i].clone());
        assert(texts(out@) =~= before.push(more@[i as int]@));
        assert(texts(more@).take(i + 1) =~= texts(more@).take(i as int).push(more@[i as int]@));
    }
    assert(texts(more@).take(more@.len() as int) =~= texts(more@));
}

/// How `cryptsetup` is called. The caller's own arguments stand between the
/// options and the operands, as they are.
pub fn plan(action: &Action, extra: &Vec<String>) -> (r: Plan)
    ensures
        texts(r.argv@) == call(*action, texts(extra@)),
        texts(r.argv@) == fixed_args(*action) + texts(extra@) + operands(*action),
        r.needs_secret == !(action is Close),
{
    let mut argv: Vec<String> = Vec::new();
    match action {
        Action::Format { device } => {
            argv.push("luksFormat".to_owned());
            argv.push("--type".to_owned());
            argv.push("luks2".to_owned());
            argv.push("--key-file".to_owned());
            argv.push("-".to_owned());
            assert(texts(argv@) =~= fixed_args(*action));
            push_all(&mut argv, extra);
            let ghost before = texts(argv@);
            argv.push(device.clone());
            assert(texts(argv@) =~= before + operands(*action));
            Plan { argv, needs_secret: true }
        },
        Action::Open { device, name } => {
            argv.push("open".to_owned());
            argv.push("--key-file".to_owned());
            argv.push("-".to_owned());
            assert(texts(argv@) =~= fixed_args(*action));
            push_all(&mut argv, extra);
            let ghost before = texts(argv@);
            argv.push(device.clone());
            argv.push(name.clone());
            assert(texts(argv@) =~= before + operands(*action));
            Plan { argv, needs_secret: true }
        },
        Action::AddKey { device, new_key_file } => {
            argv.push("luksAddKey".to_owned());
            argv.push("--key-file".to_owned());
            argv.push("-".to_owned());
            assert(texts(argv@) =~= fixed_args(*action));
            push_all(&mut argv, extra);
            let ghost before = texts(argv@);
            argv.push(device.clone());
            argv.push(new_key_file.clone());
            assert(texts(argv@) =~= before + operands(*action));
            Plan { argv, needs_secret: true }
        },
        Action::Close { name } => {
            argv.push("close".to_owned());
            assert(texts(argv@) =~= fixed_args(*action));
            push_all(&mut argv, extra);
            let ghost before = texts(argv@);
            argv.push(name.clone());
            assert(texts(argv@) =~= before + operands(*action));
            Plan { argv, needs_secret: false }
        },
    }
}

/// What is said of a call that fails before `cryptsetup` runs.
pub fn complaint(error: &str) -> (r: (i32, String))
    ensures
        r.0 == 1,
        r.1@ == "piggy luks: "@ + error@,
{
    (1, cat2("piggy luks: ", error))
}

/// Decides how `cryptsetup` is called, and which entry goes to its input.
/// Every action but closing needs one; without it the call ends at once.
pub fn run(action: &Action, secret: Option<String>, extra: &Vec<String>) -> (r: Result<
    (Plan, Option<String>),
    (i32, String),
>)
    ensures
        match r {
            Ok((p, s)) => texts(p.argv@) == call(*action, texts(extra@)) && secret_for(
                *action,
                secret,
            ) == Ok::<Option<String>, ()>(s),
            Err(_) => secret_for(*action, secret) is Err,
        },
        match r {
            Ok((p, s)) => {
                &&& texts(p.argv@) == fixed_args(*action) + texts(extra@) + operands(*action)
                &&& p.needs_secret == !(action is Close)
                &&& s == if action is Close {
                    None::<String>
                } else {
                    secret
                }
                &&& action is Close || secret is Some
            },
            Err((code, e)) => {
                &&& !(action is Close) && secret is None
                &&& code == 1
                &&& e@ == "piggy luks: --secret <pass-name> is required for this action"@
            },
        },
{
    let p: Plan = plan(action, extra);
    if !p.needs_secret {
        return Ok((p, None));
    }
    match secret {
        Some(name) => Ok((p, Some(name))),
        None => Err((1, "piggy luks: --secret <pass-name> is required for this action".to_owned())),
    }
}

/// The code to end with: that of `cryptsetup`, or one where it has none.
pub fn exit_code(code: Option<i32>) -> (r: i32)
    ensures
        r == match code {
            Some(c) => c,
            None => 1i32,
        },
{
    match code {
        Some(c) => c,
        None => 1,
    }
}

} // verus!
