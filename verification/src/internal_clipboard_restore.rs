//! Putting the clipboard back after a password was on it: the plan that is
//! handed to the worker that does so, as bytes.
//!
//! Every field is its length in four big-endian bytes and then its bytes, so
//! that whatever was on the clipboard survives. A list of arguments is its
//! length, and then each argument as a field.
use crate::text::{
    cat2, cat3, cat5, dec, dec_usize, text_from_utf8, utf8_error_text,
};
use crate::wire::{
    be32, be32_value, bytes_same, get_u32, lemma_be32_of_value, lemma_be32_round_trip, low_u32,
    put_string, put_u32, ssh_string,
};
use vstd::prelude::*;
use vstd::slice::{slice_subrange, slice_to_vec};
use vstd::utf8::{
    decode_utf8, decode_utf8_encode_utf8, encode_utf8, encode_utf8_decode_utf8,
    encode_utf8_valid_utf8, valid_utf8,
};

verus! {

/// A program and its arguments.
#[derive(Debug, PartialEq, Eq)]
pub struct Invocation {
    pub program: Vec<u8>,
    pub args: Vec<Vec<u8>>,
}

/// What the worker is to do.
#[derive(Debug, PartialEq, Eq)]
pub struct ClipPlan {
    /// Writes the clipboard.
    pub copy: Invocation,
    /// Reads it.
    pub paste: Invocation,
    /// The name by which the worker is found again.
    pub sleep_argv0: String,
    /// How long it waits, in seconds.
    pub clip_time: u64,
    /// What was put on the clipboard.
    pub pushed_bytes: Vec<u8>,
    /// What was on it before.
    pub restore_bytes: Vec<u8>,
    /// What the user is told; it stays with the one who tells.
    pub user_message: String,
}

/// [`Invocation`] over plain bytes.
pub struct InvocationView {
    pub program: Seq<u8>,
    pub args: Seq<Seq<u8>>,
}

/// What is handed over of a [`ClipPlan`].
pub struct PlanView {
    pub copy: InvocationView,
    pub paste: InvocationView,
    pub sleep_argv0: Seq<char>,
    pub clip_time: u64,
    pub pushed: Seq<u8>,
    pub restore: Seq<u8>,
}

/// The bytes of each argument.
pub open spec fn arg_bytes(v: Seq<Vec<u8>>) -> Seq<Seq<u8>> {
    v.map_values(|a: Vec<u8>| a@)
}

impl View for Invocation {
    type V = InvocationView;

    open spec fn view(&self) -> InvocationView {
        InvocationView { program: self.program@, args: arg_bytes(self.args@) }
    }
}

impl View for ClipPlan {
    type V = PlanView;

    open spec fn view(&self) -> PlanView {
        PlanView {
            copy: self.copy@,
            paste: self.paste@,
            sleep_argv0: self.sleep_argv0@,
            clip_time: self.clip_time,
            pushed: self.pushed_bytes@,
            restore: self.restore_bytes@,
        }
    }
}

// ------------------------------------------------------------------ writing

/// The fields of some arguments in a row.
pub open spec fn fields(args: Seq<Seq<u8>>) -> Seq<u8>
    decreases args.len(),
{
    if args.len() == 0 {
        seq![]
    } else {
        ssh_string(args[0]) + fields(args.skip(1))
    }
}

/// A list of arguments.
pub open spec fn arg_list(args: Seq<Seq<u8>>) -> Seq<u8> {
    be32(args.len() % 0x1_0000_0000) + fields(args)
}

/// A number in eight big-endian bytes.
pub open spec fn be64(n: u64) -> Seq<u8> {
    be32((n / 0x1_0000_0000) as nat) + be32((n % 0x1_0000_0000) as nat)
}

/// A program and its arguments.
pub open spec fn invocation_bytes(i: InvocationView) -> Seq<u8> {
    ssh_string(i.program) + arg_list(i.args)
}

/// A plan as bytes.
pub open spec fn plan_bytes(p: PlanView) -> Seq<u8> {
    invocation_bytes(p.copy) + (invocation_bytes(p.paste) + (ssh_string(
        encode_utf8(p.sleep_argv0),
    ) + (be64(p.clip_time) + (ssh_string(p.pushed) + ssh_string(p.restore)))))
}

fn write_args(buf: &mut Vec<u8>, args: &Vec<Vec<u8>>)
    ensures
        final(buf)@ == old(buf)@ + arg_list(arg_bytes(args@)),
{
    put_u32(buf, low_u32(args.len()));
    let ghost head = buf@;
    let ghost all = arg_bytes(args@);
    let n: usize = args.len();
    let mut i: usize = 0;
    assert(all.skip(0) =~= all);
    while i < n
        invariant
            n == args@.len(),
            i <= n,
            all == arg_bytes(args@),
            head + fields(all) == buf@ + fields(all.skip(i as int)),
        decreases n - i,
    {
        let ghost before = buf@;
        put_string(buf, args[i].as_slice());
        assert(all.skip(i as int)[0] == args@[i as int]@);
        assert(all.skip(i as int).skip(1) =~= all.skip(i + 1));
        assert(buf@ + fields(all.skip(i + 1)) =~= before + fields(all.skip(i as int)));
        i = i + 1;
    }
    assert(buf@ + fields(all.skip(n as int)) =~= buf@);
    assert(buf@ =~= old(buf)@ + arg_list(all));
}

/// A plan as bytes.
pub fn serialize_plan(plan: &ClipPlan) -> (r: Vec<u8>)
    ensures
        r@ == plan_bytes(plan@),
{
    let mut buf: Vec<u8> = Vec::new();
    put_string(&mut buf, plan.copy.program.as_slice());
    write_args(&mut buf, &plan.copy.args);
    put_string(&mut buf, plan.paste.program.as_slice());
    write_args(&mut buf, &plan.paste.args);
    put_string(&mut buf, plan.sleep_argv0.as_str().as_bytes());
    put_u32(&mut buf, (plan.clip_time / 0x1_0000_0000) as u32);
    put_u32(&mut buf, (plan.clip_time % 0x1_0000_0000) as u32);
    put_string(&mut buf, plan.pushed_bytes.as_slice());
    put_string(&mut buf, plan.restore_bytes.as_slice());
    assert(buf@ =~= plan_bytes(plan@));
    buf
}

// ------------------------------------------------------------------ reading

/// Reads a field: its bytes, and what is left.
pub open spec fn take_field(d: Seq<u8>) -> Result<(Seq<u8>, Seq<u8>), Seq<char>> {
    if d.len() < 4 {
        Err("truncated u32 length prefix"@)
    } else {
        let n = be32_value(d.take(4)) as int;
        let rest = d.skip(4);
        if rest.len() < n {
            Err(
                "truncated bytes field (claimed "@ + dec(n as nat) + ", remaining "@ + dec(
                    rest.len(),
                ) + ")"@,
            )
        } else {
            Ok((rest.take(n), rest.skip(n)))
        }
    }
}

/// Reads `n` fields.
pub open spec fn take_fields(d: Seq<u8>, n: nat) -> Result<(Seq<Seq<u8>>, Seq<u8>), Seq<char>>
    decreases n,
{
    if n == 0 {
        Ok((seq![], d))
    } else {
        match take_field(d) {
            Err(e) => Err(e),
            Ok((x, rest)) => match take_fields(rest, (n - 1) as nat) {
                Err(e) => Err(e),
                Ok((xs, end)) => Ok((seq![x] + xs, end)),
            },
        }
    }
}

/// Reads a list of arguments.
pub open spec fn take_args(d: Seq<u8>) -> Result<(Seq<Seq<u8>>, Seq<u8>), Seq<char>> {
    if d.len() < 4 {
        Err("truncated u32 length prefix"@)
    } else {
        take_fields(d.skip(4), be32_value(d.take(4)))
    }
}

/// Reads a program and its arguments.
pub open spec fn take_invocation(d: Seq<u8>) -> Result<(InvocationView, Seq<u8>), Seq<char>> {
    match take_field(d) {
        Err(e) => Err(e),
        Ok((program, rest)) => match take_args(rest) {
            Err(e) => Err(e),
            Ok((args, end)) => Ok((InvocationView { program, args }, end)),
        },
    }
}

/// The number in eight big-endian bytes.
pub open spec fn be64_value(d: Seq<u8>) -> u64 {
    (be32_value(d.take(4)) * 0x1_0000_0000 + be32_value(d.subrange(4, 8))) as u64
}

/// Reads the name of the worker.
pub open spec fn take_name(d: Seq<u8>) -> Result<(Seq<char>, Seq<u8>), Seq<char>> {
    match take_field(d) {
        Err(e) => Err(e),
        Ok((bytes, rest)) => if valid_utf8(bytes) {
            Ok((decode_utf8(bytes), rest))
        } else {
            Err("sleep_argv0 not UTF-8: "@ + utf8_error_text(bytes))
        },
    }
}

/// Reads the time to wait.
pub open spec fn take_time(d: Seq<u8>) -> Result<(u64, Seq<u8>), Seq<char>> {
    if d.len() < 8 {
        Err("truncated u64 (clip_time)"@)
    } else {
        Ok((be64_value(d), d.skip(8)))
    }
}

/// Reads a plan.
pub open spec fn take_plan(d: Seq<u8>) -> Result<(PlanView, Seq<u8>), Seq<char>> {
    match take_invocation(d) {
        Err(e) => Err(e),
        Ok((copy, d1)) => match take_invocation(d1) {
            Err(e) => Err(e),
            Ok((paste, d2)) => match take_name(d2) {
                Err(e) => Err(e),
                Ok((sleep_argv0, d3)) => match take_time(d3) {
                    Err(e) => Err(e),
                    Ok((clip_time, d4)) => match take_field(d4) {
                        Err(e) => Err(e),
                        Ok((pushed, d5)) => match take_field(d5) {
                            Err(e) => Err(e),
                            Ok((restore, d6)) => Ok(
                                (
                                    PlanView {
                                        copy,
                                        paste,
                                        sleep_argv0,
                                        clip_time,
                                        pushed,
                                        restore,
                                    },
                                    d6,
                                ),
                            ),
                        },
                    },
                },
            },
        },
    }
}

/// The plan that some bytes are, with nothing behind it.
pub open spec fn plan_of(d: Seq<u8>) -> Result<PlanView, Seq<char>> {
    match take_plan(d) {
        Err(e) => Err(e),
        Ok((p, rest)) => if rest.len() > 0 {
            Err("trailing "@ + dec(rest.len()) + " byte(s) after plan"@)
        } else {
            Ok(p)
        },
    }
}

fn read_field(d: &[u8], at: usize) -> (r: Result<(Vec<u8>, usize), String>)
    requires
        at <= d@.len(),
    ensures
        match r {
            Ok((x, next)) => take_field(d@.skip(at as int)) == Ok::<
                (Seq<u8>, Seq<u8>),
                Seq<char>,
            >((x@, d@.skip(next as int))) && next <= d@.len(),
            Err(e) => take_field(d@.skip(at as int)) == Err::<(Seq<u8>, Seq<u8>), Seq<char>>(e@),
        },
{
    if d.len() - at < 4 {
        return Err("truncated u32 length prefix".to_owned());
    }
    let len: u32 = get_u32(d, at);
    let rest: usize = d.len() - at - 4;
    assert(d@.skip(at as int).take(4) =~= d@.subrange(at as int, at + 4));
    if (rest as u64) < len as u64 {
        return Err(
            cat5(
                "truncated bytes field (claimed ",
                crate::text::dec_u64(len as u64).as_str(),
                ", remaining ",
                dec_usize(rest).as_str(),
                ")",
            ),
        );
    }
    let from: usize = at + 4;
    let to: usize = from + len as usize;
    let body: Vec<u8> = slice_to_vec(slice_subrange(d, from, to));
    assert(body@ =~= d@.skip(at as int).skip(4).take(len as int));
    assert(d@.skip(to as int) =~= d@.skip(at as int).skip(4).skip(len as int));
    Ok((body, to))
}

fn read_args(d: &[u8], at: usize) -> (r: Result<(Vec<Vec<u8>>, usize), String>)
    requires
        at <= d@.len(),
    ensures
        match r {
            Ok((x, next)) => take_args(d@.skip(at as int)) == Ok::<
                (Seq<Seq<u8>>, Seq<u8>),
                Seq<char>,
            >((arg_bytes(x@), d@.skip(next as int))) && next <= d@.len(),
            Err(e) => take_args(d@.skip(at as int)) == Err::<(Seq<Seq<u8>>, Seq<u8>), Seq<char>>(
                e@,
            ),
        },
{
    if d.len() - at < 4 {
        return Err("truncated u32 length prefix".to_owned());
    }
    let count: u32 = get_u32(d, at);
    assert(d@.skip(at as int).take(4) =~= d@.subrange(at as int, at + 4));
    assert(d@.skip(at as int).skip(4) =~= d@.skip(at + 4));
    let ghost whole = take_fields(d@.skip(at + 4), count as nat);
    let mut out: Vec<Vec<u8>> = Vec::new();
    let mut pos: usize = at + 4;
    let mut left: u32 = count;
    proof {
        if whole is Ok {
            assert(arg_bytes(out@) + (whole->Ok_0).0 =~= (whole->Ok_0).0);
        }
    }
    while left > 0
        invariant
            pos <= d@.len(),
            take_args(d@.skip(at as int)) == whole,
            whole == prepended(arg_bytes(out@), take_fields(d@.skip(pos as int), left as nat)),
        decreases left,
    {
        let ghost before = arg_bytes(out@);
        let ghost now = take_fields(d@.skip(pos as int), left as nat);
        match read_field(d, pos) {
            Err(e) => return Err(e),
            Ok((x, next)) => {
                out.push(x);
                proof {
                    let later = take_fields(d@.skip(next as int), (left - 1) as nat);
                    assert(arg_bytes(out@) =~= before.push(x@));
                    if later is Ok {
                        assert(before + (seq![x@] + (later->Ok_0).0) =~= before.push(x@) + (
                        later->Ok_0).0);
                    }
                }
                pos = next;
                left = left - 1;
            },
        }
    }
    assert(arg_bytes(out@) + seq![] =~= arg_bytes(out@));
    Ok((out, pos))
}

/// A result of reading fields, with some before it.
spec fn prepended(
    before: Seq<Seq<u8>>,
    r: Result<(Seq<Seq<u8>>, Seq<u8>), Seq<char>>,
) -> Result<(Seq<Seq<u8>>, Seq<u8>), Seq<char>> {
    match r {
        Ok((xs, rest)) => Ok((before + xs, rest)),
        Err(e) => Err(e),
    }
}

fn read_invocation(d: &[u8], at: usize) -> (r: Result<(Invocation, usize), String>)
    requires
        at <= d@.len(),
    ensures
        match r {
            Ok((x, next)) => take_invocation(d@.skip(at as int)) == Ok::<
                (InvocationView, Seq<u8>),
                Seq<char>,
            >((x@, d@.skip(next as int))) && next <= d@.len(),
            Err(e) => take_invocation(d@.skip(at as int)) == Err::<
                (InvocationView, Seq<u8>),
                Seq<char>,
            >(e@),
        },
{
    let (program, next) = match read_field(d, at) {
        Ok(x) => x,
        Err(e) => return Err(e),
    };
    let (args, end) = match read_args(d, next) {
        Ok(x) => x,
        Err(e) => return Err(e),
    };
    Ok((Invocation { program, args }, end))
}

/// Reads a plan from bytes that hold it and nothing else.
pub fn deserialize_plan(bytes: &[u8]) -> (r: Result<ClipPlan, String>)
    ensures
        match r {
            Ok(p) => plan_of(bytes@) == Ok::<PlanView, Seq<char>>(p@) && p.user_message@.len() == 0,
            Err(e) => plan_of(bytes@) == Err::<PlanView, Seq<char>>(e@),
        },
{
    assert(bytes@.skip(0) =~= bytes@);
    let (copy, d1) = match read_invocation(bytes, 0) {
        Ok(x) => x,
        Err(e) => return Err(e),
    };
    let (paste, d2) = match read_invocation(bytes, d1) {
        Ok(x) => x,
        Err(e) => return Err(e),
    };
    let (name, d3) = match read_field(bytes, d2) {
        Ok(x) => x,
        Err(e) => return Err(e),
    };
    let sleep_argv0: String = match text_from_utf8(name.as_slice()) {
        Ok(s) => s,
        Err(e) => return Err(cat2("sleep_argv0 not UTF-8: ", e.as_str())),
    };
    if bytes.len() - d3 < 8 {
        return Err("truncated u64 (clip_time)".to_owned());
    }
    let high: u32 = get_u32(bytes, d3);
    let low: u32 = get_u32(bytes, d3 + 4);
    let clip_time: u64 = (high as u64) * 0x1_0000_0000 + low as u64;
    proof {
        let d = bytes@.skip(d3 as int);
        assert(d.take(4) =~= bytes@.subrange(d3 as int, d3 + 4));
        assert(d.subrange(4, 8) =~= bytes@.subrange(d3 + 4, d3 + 8));
        assert(d.skip(8) =~= bytes@.skip(d3 + 8));
    }
    let (pushed_bytes, d5) = match read_field(bytes, d3 + 8) {
        Ok(x) => x,
        Err(e) => return Err(e),
    };
    let (restore_bytes, d6) = match read_field(bytes, d5) {
        Ok(x) => x,
        Err(e) => return Err(e),
    };
    if d6 != bytes.len() {
        return Err(
            cat3("trailing ", dec_usize(bytes.len() - d6).as_str(), " byte(s) after plan"),
        );
    }
    Ok(
        ClipPlan {
            copy,
            paste,
            sleep_argv0,
            clip_time,
            pushed_bytes,
            restore_bytes,
            user_message: String::new(),
        },
    )
}

/// Whether the clipboard still holds what was pushed onto it.
pub open spec fn is_untouched(plan: PlanView, current: Seq<u8>) -> bool {
    current == plan.pushed
}

/// A clipboard is put back exactly while it holds, byte for byte, what was
/// pushed onto it: what somebody copied in the meantime is never lost.
pub proof fn law_only_an_untouched_clipboard_is_restored(plan: PlanView, current: Seq<u8>)
    ensures
        is_untouched(plan, current) <==> current.len() == plan.pushed.len() && forall|i: int|
            0 <= i < current.len() ==> #[trigger] current[i] == plan.pushed[i],
{
    if current.len() == plan.pushed.len() && forall|i: int|
        0 <= i < current.len() ==> #[trigger] current[i] == plan.pushed[i] {
        assert(current =~= plan.pushed);
    }
}

/// Whether the clipboard is put back: only if it still holds what was put
/// there. Otherwise the user has copied something else meanwhile.
pub fn should_restore(plan: &ClipPlan, current: &Vec<u8>) -> (r: bool)
    ensures
        r == (current@ == plan.pushed_bytes@),
        r == is_untouched(plan@, current@),
{
    bytes_same(current.as_slice(), plan.pushed_bytes.as_slice())
}

// --------------------------------------------------------------------- laws

/// Whether some bytes are short enough for a length of four bytes.
pub open spec fn fits_field(b: Seq<u8>) -> bool {
    b.len() < 0x1_0000_0000
}

/// Whether a program and its arguments are short enough.
pub open spec fn fits_invocation(i: InvocationView) -> bool {
    &&& fits_field(i.program)
    &&& i.args.len() < 0x1_0000_0000
    &&& forall|k: int| 0 <= k < i.args.len() ==> fits_field(#[trigger] i.args[k])
}

/// Whether every field of a plan is short enough.
pub open spec fn fits_plan(p: PlanView) -> bool {
    &&& fits_invocation(p.copy)
    &&& fits_invocation(p.paste)
    &&& fits_field(encode_utf8(p.sleep_argv0))
    &&& fits_field(p.pushed)
    &&& fits_field(p.restore)
}

proof fn lemma_field_back(x: Seq<u8>, rest: Seq<u8>)
    requires
        fits_field(x),
    ensures
        take_field(ssh_string(x) + rest) == Ok::<(Seq<u8>, Seq<u8>), Seq<char>>((x, rest)),
{
    let d = ssh_string(x) + rest;
    lemma_be32_round_trip(x.len());
    assert(d.take(4) =~= be32(x.len()));
    assert(d.skip(4).take(x.len() as int) =~= x);
    assert(d.skip(4).skip(x.len() as int) =~= rest);
}

proof fn lemma_fields_back(args: Seq<Seq<u8>>, rest: Seq<u8>)
    requires
        forall|k: int| 0 <= k < args.len() ==> fits_field(#[trigger] args[k]),
    ensures
        take_fields(fields(args) + rest, args.len()) == Ok::<(Seq<Seq<u8>>, Seq<u8>), Seq<char>>(
            (args, rest),
        ),
    decreases args.len(),
{
    if args.len() == 0 {
        assert(fields(args) + rest =~= rest);
        assert(args =~= seq![]);
    } else {
        let more = args.skip(1);
        lemma_fields_back(more, rest);
        lemma_field_back(args[0], fields(more) + rest);
        assert(fields(args) + rest =~= ssh_string(args[0]) + (fields(more) + rest));
        assert(seq![args[0]] + more =~= args);
    }
}

proof fn lemma_invocation_back(i: InvocationView, rest: Seq<u8>)
    requires
        fits_invocation(i),
    ensures
        take_invocation(invocation_bytes(i) + rest) == Ok::<
            (InvocationView, Seq<u8>),
            Seq<char>,
        >((i, rest)),
{
    let d = arg_list(i.args) + rest;
    lemma_be32_round_trip(i.args.len());
    assert(d.take(4) =~= be32(i.args.len()));
    assert(d.skip(4) =~= fields(i.args) + rest);
    lemma_fields_back(i.args, rest);
    lemma_field_back(i.program, d);
    assert(invocation_bytes(i) + rest =~= ssh_string(i.program) + d);
}

proof fn lemma_time_back(n: u64, rest: Seq<u8>)
    ensures
        take_time(be64(n) + rest) == Ok::<(u64, Seq<u8>), Seq<char>>((n, rest)),
{
    let d = be64(n) + rest;
    lemma_be32_round_trip((n / 0x1_0000_0000) as nat);
    lemma_be32_round_trip((n % 0x1_0000_0000) as nat);
    assert(d.take(4) =~= be32((n / 0x1_0000_0000) as nat));
    assert(d.subrange(4, 8) =~= be32((n % 0x1_0000_0000) as nat));
    assert(d.skip(8) =~= rest);
}

/// A plan that is written and read again is the same plan, whatever bytes
/// are in it.
pub proof fn law_plan_survives(p: PlanView)
    requires
        fits_plan(p),
    ensures
        plan_of(plan_bytes(p)) == Ok::<PlanView, Seq<char>>(p),
{
    encode_utf8_valid_utf8(p.sleep_argv0);
    encode_utf8_decode_utf8(p.sleep_argv0);
    let d6 = Seq::<u8>::empty();
    let d5 = ssh_string(p.restore);
    let d4 = ssh_string(p.pushed) + d5;
    let d3 = be64(p.clip_time) + d4;
    let d2 = ssh_string(encode_utf8(p.sleep_argv0)) + d3;
    let d1 = invocation_bytes(p.paste) + d2;
    assert(d5 =~= ssh_string(p.restore) + d6);
    lemma_field_back(p.restore, d6);
    lemma_field_back(p.pushed, d5);
    lemma_time_back(p.clip_time, d4);
    lemma_field_back(encode_utf8(p.sleep_argv0), d3);
    lemma_invocation_back(p.paste, d2);
    lemma_invocation_back(p.copy, d1);
}

proof fn lemma_field_grows(d: Seq<u8>, more: Seq<u8>)
    requires
        take_field(d) is Ok,
    ensures
        take_field(d + more) == Ok::<(Seq<u8>, Seq<u8>), Seq<char>>(
            ((take_field(d)->Ok_0).0, (take_field(d)->Ok_0).1 + more),
        ),
{
    let n = be32_value(d.take(4)) as int;
    assert((d + more).take(4) =~= d.take(4));
    assert((d + more).skip(4).take(n) =~= d.skip(4).take(n));
    assert((d + more).skip(4).skip(n) =~= d.skip(4).skip(n) + more);
}

proof fn lemma_fields_grow(d: Seq<u8>, n: nat, more: Seq<u8>)
    requires
        take_fields(d, n) is Ok,
    ensures
        take_fields(d + more, n) == Ok::<(Seq<Seq<u8>>, Seq<u8>), Seq<char>>(
            ((take_fields(d, n)->Ok_0).0, (take_fields(d, n)->Ok_0).1 + more),
        ),
    decreases n,
{
    if n > 0 {
        lemma_field_grows(d, more);
        lemma_fields_grow((take_field(d)->Ok_0).1, (n - 1) as nat, more);
    }
}

proof fn lemma_invocation_grows(d: Seq<u8>, more: Seq<u8>)
    requires
        take_invocation(d) is Ok,
    ensures
        take_invocation(d + more) == Ok::<(InvocationView, Seq<u8>), Seq<char>>(
            ((take_invocation(d)->Ok_0).0, (take_invocation(d)->Ok_0).1 + more),
        ),
{
    lemma_field_grows(d, more);
    let e = (take_field(d)->Ok_0).1;
    assert((e + more).take(4) =~= e.take(4));
    assert((e + more).skip(4) =~= e.skip(4) + more);
    lemma_fields_grow(e.skip(4), be32_value(e.take(4)), more);
}

proof fn lemma_time_grows(d: Seq<u8>, more: Seq<u8>)
    requires
        take_time(d) is Ok,
    ensures
        take_time(d + more) == Ok::<(u64, Seq<u8>), Seq<char>>(
            ((take_time(d)->Ok_0).0, (take_time(d)->Ok_0).1 + more),
        ),
{
    assert((d + more).take(4) =~= d.take(4));
    assert((d + more).subrange(4, 8) =~= d.subrange(4, 8));
    assert((d + more).skip(8) =~= d.skip(8) + more);
}

proof fn lemma_plan_grows(d: Seq<u8>, more: Seq<u8>)
    requires
        take_plan(d) is Ok,
    ensures
        take_plan(d + more) == Ok::<(PlanView, Seq<u8>), Seq<char>>(
            ((take_plan(d)->Ok_0).0, (take_plan(d)->Ok_0).1 + more),
        ),
{
    lemma_invocation_grows(d, more);
    let d1 = (take_invocation(d)->Ok_0).1;
    lemma_invocation_grows(d1, more);
    let d2 = (take_invocation(d1)->Ok_0).1;
    lemma_field_grows(d2, more);
    let d3 = (take_field(d2)->Ok_0).1;
    lemma_time_grows(d3, more);
    let d4 = (take_time(d3)->Ok_0).1;
    lemma_field_grows(d4, more);
    let d5 = (take_field(d4)->Ok_0).1;
    lemma_field_grows(d5, more);
}

/// Bytes behind a plan are refused, and counted.
pub proof fn law_trailing_bytes_are_refused(d: Seq<u8>, more: Seq<u8>)
    requires
        plan_of(d) is Ok,
        more.len() > 0,
    ensures
        plan_of(d + more) == Err::<PlanView, Seq<char>>(
            "trailing "@ + dec(more.len()) + " byte(s) after plan"@,
        ),
{
    lemma_plan_grows(d, more);
    assert((take_plan(d)->Ok_0).1 + more =~= more);
}

/// A plan that was cut off anywhere is refused.
pub proof fn law_truncated_plan_is_refused(d: Seq<u8>, cut: int)
    requires
        plan_of(d) is Ok,
        0 <= cut < d.len(),
    ensures
        plan_of(d.take(cut)) is Err,
{
    if plan_of(d.take(cut)) is Ok {
        law_trailing_bytes_are_refused(d.take(cut), d.skip(cut));
        assert(d.take(cut) + d.skip(cut) =~= d);
    }
}

proof fn lemma_field_is_written(d: Seq<u8>)
    requires
        take_field(d) is Ok,
    ensures
        d == ssh_string((take_field(d)->Ok_0).0) + (take_field(d)->Ok_0).1,
        fits_field((take_field(d)->Ok_0).0),
{
    let (x, rest) = take_field(d)->Ok_0;
    lemma_be32_of_value(d.take(4));
    assert(d =~= d.take(4) + x + rest);
    assert(d =~= ssh_string(x) + rest);
}

proof fn lemma_fields_are_written(d: Seq<u8>, n: nat)
    requires
        take_fields(d, n) is Ok,
    ensures
        d == fields((take_fields(d, n)->Ok_0).0) + (take_fields(d, n)->Ok_0).1,
        (take_fields(d, n)->Ok_0).0.len() == n,
    decreases n,
{
    if n == 0 {
        assert(d =~= fields(seq![]) + d);
    } else {
        lemma_field_is_written(d);
        let (x, rest) = take_field(d)->Ok_0;
        lemma_fields_are_written(rest, (n - 1) as nat);
        let (xs, end) = take_fields(rest, (n - 1) as nat)->Ok_0;
        assert((seq![x] + xs).skip(1) =~= xs);
        assert(d =~= fields(seq![x] + xs) + end);
    }
}

proof fn lemma_invocation_is_written(d: Seq<u8>)
    requires
        take_invocation(d) is Ok,
    ensures
        d == invocation_bytes((take_invocation(d)->Ok_0).0) + (take_invocation(d)->Ok_0).1,
{
    lemma_field_is_written(d);
    let (program, e) = take_field(d)->Ok_0;
    lemma_be32_of_value(e.take(4));
    lemma_fields_are_written(e.skip(4), be32_value(e.take(4)));
    let (args, end) = take_args(e)->Ok_0;
    assert(e =~= e.take(4) + e.skip(4));
    assert(e =~= arg_list(args) + end);
    assert(d =~= (ssh_string(program) + arg_list(args)) + end);
}

/// Only what is written for a plan is read as one: bytes that are read as a
/// plan are the bytes of that plan.
pub proof fn law_only_written_plans_are_read(d: Seq<u8>, p: PlanView)
    requires
        plan_of(d) == Ok::<PlanView, Seq<char>>(p),
    ensures
        plan_bytes(p) == d,
{
    lemma_invocation_is_written(d);
    let d1 = (take_invocation(d)->Ok_0).1;
    lemma_invocation_is_written(d1);
    let d2 = (take_invocation(d1)->Ok_0).1;
    lemma_field_is_written(d2);
    let (name, d3) = take_field(d2)->Ok_0;
    decode_utf8_encode_utf8(name);
    let d4 = d3.skip(8);
    lemma_be32_of_value(d3.take(4));
    lemma_be32_of_value(d3.subrange(4, 8));
    let high = be32_value(d3.take(4));
    let low = be32_value(d3.subrange(4, 8));
    assert(p.clip_time == high * 0x1_0000_0000 + low);
    assert(p.clip_time / 0x1_0000_0000 == high);
    assert(p.clip_time % 0x1_0000_0000 == low);
    assert(d3 =~= be64(p.clip_time) + d4);
    lemma_field_is_written(d4);
    let d5 = (take_field(d4)->Ok_0).1;
    lemma_field_is_written(d5);
    assert(d5 =~= ssh_string(p.restore));
}

} // verus!
