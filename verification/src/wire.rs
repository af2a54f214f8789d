//! The byte framing that the SSH formats share: big-endian numbers and
//! length-prefixed strings.
use vstd::prelude::*;

verus! {

/// The four big-endian bytes of `n`, taken modulo two to the thirty-second.
#[verifier::opaque]
pub open spec fn be32(n: nat) -> Seq<u8> {
    seq![
        ((n / 0x100_0000) % 256) as u8,
        ((n / 0x1_0000) % 256) as u8,
        ((n / 0x100) % 256) as u8,
        (n % 256) as u8,
    ]
}

/// The number that four big-endian bytes hold.
#[verifier::opaque]
pub open spec fn be32_value(b: Seq<u8>) -> nat {
    (b[0] * 0x100_0000 + b[1] * 0x1_0000 + b[2] * 0x100 + b[3]) as nat
}

/// Writing a number and reading it back gives the number.
pub proof fn lemma_be32_round_trip(n: nat)
    requires
        n < 0x1_0000_0000,
    ensures
        be32_value(be32(n)) == n,
        be32(n).len() == 4,
{
    reveal(be32);
    reveal(be32_value);
}

/// A number takes four bytes.
pub proof fn lemma_be32_len(n: nat)
    ensures
        be32(n).len() == 4,
{
    reveal(be32);
}

/// Four bytes are the writing of the number they hold.
pub proof fn lemma_be32_of_value(b: Seq<u8>)
    requires
        b.len() == 4,
    ensures
        be32(be32_value(b)) == b,
        be32_value(b) < 0x1_0000_0000,
{
    reveal(be32);
    reveal(be32_value);
    let (x, y, z, w) = (b[0] as int, b[1] as int, b[2] as int, b[3] as int);
    let v = be32_value(b);
    assert(v == x * 0x100_0000 + y * 0x1_0000 + z * 0x100 + w);
    assert(v / 0x100_0000 == x);
    assert(v / 0x1_0000 == x * 0x100 + y);
    assert(v / 0x100 == x * 0x1_0000 + y * 0x100 + z);
    assert(be32(v) =~= b);
}

/// Appends bytes.
pub fn put(out: &mut Vec<u8>, bytes: &[u8])
    ensures
        final(out)@ == old(out)@ + bytes@,
{
    out.extend_from_slice(bytes);
    assert(out@ =~= old(out)@ + bytes@);
}

/// Whether two byte strings are equal.
pub fn bytes_same(a: &[u8], b: &[u8]) -> (r: bool)
    ensures
        r == (a@ == b@),
{
    if a.len() != b.len() {
        return false;
    }
    for i in 0..a.len()
        invariant
            a@.len() == b@.len(),
            forall|j: int| 0 <= j < i ==> a@[j] == b@[j],
    {
        if a[i] != b[i] {
            assert(a@[i as int] != b@[i as int]);
            return false;
        }
    }
    assert(a@ =~= b@);
    true
}

/// Appends a number in four big-endian bytes.
pub fn put_u32(out: &mut Vec<u8>, n: u32)
    ensures
        final(out)@ == old(out)@ + be32(n as nat),
{
    out.push((n / 0x100_0000) as u8);
    out.push(((n / 0x1_0000) % 256) as u8);
    out.push(((n / 0x100) % 256) as u8);
    out.push((n % 256) as u8);
    proof {
        reveal(be32);
        assert(out@ =~= old(out)@ + be32(n as nat));
    }
}

/// Keeps the low thirty-two bits of a length.
pub fn low_u32(n: usize) -> (r: u32)
    ensures
        r == n as nat % 0x1_0000_0000,
{
    ((n as u64) % 0x1_0000_0000) as u32
}

/// A length-prefixed string. A body of more than four gigabytes has its
/// length cut to thirty-two bits.
pub open spec fn ssh_string(body: Seq<u8>) -> Seq<u8> {
    be32(body.len() % 0x1_0000_0000) + body
}

/// Appends a length-prefixed string.
pub fn put_string(out: &mut Vec<u8>, body: &[u8])
    ensures
        final(out)@ == old(out)@ + ssh_string(body@),
{
    put_u32(out, low_u32(body.len()));
    put(out, body);
    assert(out@ =~= old(out)@ + ssh_string(body@));
}

/// Reads a number from four big-endian bytes.
pub fn get_u32(data: &[u8], at: usize) -> (r: u32)
    requires
        at + 4 <= data@.len(),
    ensures
        r == be32_value(data@.subrange(at as int, at + 4)),
{
    let a: u32 = data[at] as u32;
    let b: u32 = data[at + 1] as u32;
    let c: u32 = data[at + 2] as u32;
    let d: u32 = data[at + 3] as u32;
    proof {
        reveal(be32_value);
    }
    a * 0x100_0000 + b * 0x1_0000 + c * 0x100 + d
}

/// Why no length-prefixed string could be read.
pub enum FieldError {
    /// Fewer than four bytes are left for the length.
    NoLength,
    /// The length, and the smaller number of bytes behind it.
    TooLong(usize, usize),
}

/// The extent of the length-prefixed string at `at`: where its body starts
/// and ends.
pub open spec fn field_at(data: Seq<u8>, at: int) -> Result<(int, int), FieldError> {
    if at + 4 > data.len() {
        Err(FieldError::NoLength)
    } else {
        let len = be32_value(data.subrange(at, at + 4));
        let rest = data.len() - (at + 4);
        if len > rest {
            Err(FieldError::TooLong(len as usize, rest as usize))
        } else {
            Ok((at + 4, at + 4 + len))
        }
    }
}

/// Finds the extent of the length-prefixed string at `at`.
pub fn find_field(data: &[u8], at: usize) -> (r: Result<(usize, usize), FieldError>)
    ensures
        match r {
            Ok((from, to)) => field_at(data@, at as int) == Ok::<(int, int), FieldError>(
                (from as int, to as int),
            ) && at + 4 == from && from <= to <= data@.len(),
            Err(e) => field_at(data@, at as int) == Err::<(int, int), FieldError>(e),
        },
{
    if data.len() < 4 || at > data.len() - 4 {
        return Err(FieldError::NoLength);
    }
    let len: u32 = get_u32(data, at);
    let rest: usize = data.len() - at - 4;
    proof {
        lemma_be32_of_value(data@.subrange(at as int, at + 4));
    }
    if len as u64 > rest as u64 {
        return Err(FieldError::TooLong(len as usize, rest));
    }
    Ok((at + 4, at + 4 + len as usize))
}

/// The body of the length-prefixed string at `at`, where there is one.
pub open spec fn field_body(data: Seq<u8>, at: int) -> Seq<u8> {
    let (from, to) = field_at(data, at)->Ok_0;
    data.subrange(from, to)
}

/// A length-prefixed string written at `at` is read back from there.
pub proof fn lemma_field_of_string(before: Seq<u8>, body: Seq<u8>, after: Seq<u8>)
    requires
        body.len() < 0x1_0000_0000,
    ensures
        ({
            let data = before + ssh_string(body) + after;
            let at = before.len() as int;
            &&& field_at(data, at) == Ok::<(int, int), FieldError>(
                (at + 4, at + 4 + body.len()),
            )
            &&& field_body(data, at) == body
        }),
{
    let data = before + ssh_string(body) + after;
    let at = before.len() as int;
    lemma_be32_round_trip(body.len());
    assert(data.subrange(at, at + 4) =~= be32(body.len()));
    assert(data.subrange(at + 4, at + 4 + body.len()) =~= body);
}

/// A number is written with its highest byte first, and a string with its
/// length before it.
pub proof fn law_highest_byte_comes_first(n: nat, body: Seq<u8>)
    requires
        n < 0x1_0000_0000,
        body.len() < 0x1_0000_0000,
    ensures
        be32(n).len() == 4,
        be32(n)[0] * 16777216 + be32(n)[1] * 65536 + be32(n)[2] * 256 + be32(n)[3] == n,
        ssh_string(body).len() == body.len() + 4,
        ssh_string(body).skip(4) == body,
        ssh_string(body).take(4) == be32(body.len()),
{
    lemma_be32_round_trip(n);
    assert(be32_value(be32(n)) == n);
    reveal(be32_value);
    lemma_be32_len(body.len());
    assert(ssh_string(body).skip(4) =~= body);
    assert(ssh_string(body).take(4) =~= be32(body.len()));
}

} // verus!
