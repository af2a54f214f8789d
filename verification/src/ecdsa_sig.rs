//! ECDSA signatures in their three framings: DER `SEQUENCE { INTEGER r,
//! INTEGER s }` as a card returns it, the SSH blob `string(r) || string(s)`
//! as an agent returns it, and the raw fixed-width `r || s`.
//!
//! The bytes come from a card or an agent and may be anything; what is not
//! a signature is refused with a message.
use crate::text::{cat2, cat3, cat5, dec, dec_usize, hex2, hex2_str};
use crate::wire::{
    field_at, field_body, find_field, lemma_be32_len, lemma_field_of_string, put, ssh_string,
    FieldError,
};
use vstd::prelude::*;
use vstd::slice::{slice_subrange, slice_to_vec};

verus! {

// ------------------------------------------------------------- DER lengths

/// A DER length prefix: the length and the number of bytes it takes up, or
/// why there is none. Only the shortest form of each length is accepted,
/// and none above two bytes.
pub open spec fn der_length(b: Seq<u8>) -> Result<(nat, nat), Seq<char>> {
    if b.len() == 0 {
        Err("DER length: missing length byte"@)
    } else if b[0] < 0x80 {
        Ok((b[0] as nat, 1))
    } else if b[0] == 0x81 {
        if b.len() < 2 {
            Err("DER length: truncated 0x81"@)
        } else if b[1] < 0x80 {
            Err("DER length: non-canonical 0x81 short length"@)
        } else {
            Ok((b[1] as nat, 2))
        }
    } else if b[0] == 0x82 {
        if b.len() < 3 {
            Err("DER length: truncated 0x82"@)
        } else if b[1] == 0 {
            Err("DER length: non-canonical 0x82 encoding"@)
        } else {
            Ok(((b[1] * 256 + b[2]) as nat, 3))
        }
    } else {
        Err("DER length: unsupported form 0x"@ + hex2(b[0], false))
    }
}

/// Reads a DER length prefix.
pub fn parse_der_length(bytes: &[u8]) -> (r: Result<(usize, usize), String>)
    ensures
        match r {
            Ok((len, header)) => der_length(bytes@) == Ok::<(nat, nat), Seq<char>>(
                (len as nat, header as nat),
            ) && len <= 0xFFFF && 1 <= header <= 3 && header <= bytes@.len(),
            Err(e) => der_length(bytes@) == Err::<(nat, nat), Seq<char>>(e@),
        },
{
    if bytes.len() == 0 {
        return Err("DER length: missing length byte".to_owned());
    }
    let first: u8 = bytes[0];
    if first < 0x80 {
        Ok((first as usize, 1))
    } else if first == 0x81 {
        if bytes.len() < 2 {
            return Err("DER length: truncated 0x81".to_owned());
        }
        if bytes[1] < 0x80 {
            return Err("DER length: non-canonical 0x81 short length".to_owned());
        }
        Ok((bytes[1] as usize, 2))
    } else if first == 0x82 {
        if bytes.len() < 3 {
            return Err("DER length: truncated 0x82".to_owned());
        }
        if bytes[1] == 0 {
            return Err("DER length: non-canonical 0x82 encoding".to_owned());
        }
        Ok((bytes[1] as usize * 256 + bytes[2] as usize, 3))
    } else {
        Err(cat2("DER length: unsupported form 0x", hex2_str(first, false).as_str()))
    }
}

/// The DER length prefix that is written for a length; one above two bytes
/// is written as the largest that fits.
pub open spec fn der_length_bytes(len: nat) -> Seq<u8> {
    if len < 0x80 {
        seq![len as u8]
    } else if len <= 0xFF {
        seq![0x81u8, len as u8]
    } else {
        let n = if len > 0xFFFF {
            0xFFFF
        } else {
            len
        };
        seq![0x82u8, (n / 256) as u8, (n % 256) as u8]
    }
}

/// Appends the DER length prefix for `len`.
pub fn encode_der_length(out: &mut Vec<u8>, len: usize)
    ensures
        final(out)@ == old(out)@ + der_length_bytes(len as nat),
{
    if len < 0x80 {
        out.push(len as u8);
    } else if len <= 0xFF {
        out.push(0x81);
        out.push(len as u8);
    } else {
        let n: usize = if len > 0xFFFF {
            0xFFFF
        } else {
            len
        };
        out.push(0x82);
        out.push((n / 256) as u8);
        out.push((n % 256) as u8);
    }
    assert(out@ =~= old(out)@ + der_length_bytes(len as nat));
}

/// A length written in front of anything is read back.
proof fn lemma_length_round_trip(len: nat, rest: Seq<u8>)
    requires
        len <= 0xFFFF,
    ensures
        der_length(der_length_bytes(len) + rest) == Ok::<(nat, nat), Seq<char>>(
            (len, der_length_bytes(len).len()),
        ),
{
}

/// A length that is read was written in the one way there is.
proof fn lemma_length_is_canonical(b: Seq<u8>)
    requires
        der_length(b) is Ok,
    ensures
        ({
            let (len, header) = der_length(b)->Ok_0;
            &&& len <= 0xFFFF
            &&& 1 <= header <= 3
            &&& header <= b.len()
            &&& b.subrange(0, header as int) == der_length_bytes(len)
        }),
{
    let (len, header) = der_length(b)->Ok_0;
    assert(b.subrange(0, header as int) =~= der_length_bytes(len));
}

// --------------------------------------------------------- reading the DER

/// The INTEGER at `pos` of a body that ends at `end`: its bytes and the
/// position behind it, or why there is none.
pub open spec fn der_integer(
    der: Seq<u8>,
    pos: int,
    end: int,
    label: Seq<char>,
) -> Result<(Seq<u8>, int), Seq<char>> {
    if pos >= end {
        Err("invalid DER ECDSA signature: missing INTEGER for "@ + label)
    } else if der[pos] != 0x02 {
        Err("expected INTEGER tag for "@ + label)
    } else {
        match der_length(der.subrange(pos + 1, end)) {
            Err(e) => Err(e),
            Ok((len, header)) => {
                let from = pos + 1 + header;
                if from + len > usize::MAX {
                    Err("DER INTEGER length overflows usize"@)
                } else if from + len > end {
                    Err(
                        "invalid DER ECDSA signature: "@ + label
                            + " INTEGER length exceeds SEQUENCE"@,
                    )
                } else {
                    Ok((der.subrange(from, from + len), from + len))
                }
            },
        }
    }
}

/// Reads the INTEGER at `pos` of a body that ends at `end`.
pub fn read_der_integer(der: &[u8], pos: usize, end: usize, label: &str) -> (r: Result<
    (Vec<u8>, usize),
    String,
>)
    requires
        end <= der@.len(),
    ensures
        match r {
            Ok((bytes, next)) => der_integer(der@, pos as int, end as int, label@) == Ok::<
                (Seq<u8>, int),
                Seq<char>,
            >((bytes@, next as int)) && next <= end,
            Err(e) => der_integer(der@, pos as int, end as int, label@) == Err::<
                (Seq<u8>, int),
                Seq<char>,
            >(e@),
        },
{
    if pos >= end {
        return Err(cat2("invalid DER ECDSA signature: missing INTEGER for ", label));
    }
    if der[pos] != 0x02 {
        return Err(cat2("expected INTEGER tag for ", label));
    }
    match parse_der_length(slice_subrange(der, pos + 1, end)) {
        Err(e) => Err(e),
        Ok((len, header)) => {
            let from: usize = pos + 1 + header;
            match from.checked_add(len) {
                None => Err("DER INTEGER length overflows usize".to_owned()),
                Some(to) => {
                    if to > end {
                        return Err(
                            cat3(
                                "invalid DER ECDSA signature: ",
                                label,
                                " INTEGER length exceeds SEQUENCE",
                            ),
                        );
                    }
                    Ok((slice_to_vec(slice_subrange(der, from, to)), to))
                },
            }
        },
    }
}

/// The two integers of a DER signature, each as it is encoded, or why the
/// bytes are no signature. Bytes behind the SEQUENCE are not looked at.
pub open spec fn der_signature(der: Seq<u8>) -> Result<(Seq<u8>, Seq<u8>), Seq<char>> {
    if der.len() == 0 || der[0] != 0x30 {
        Err("invalid DER ECDSA signature: not a SEQUENCE"@)
    } else {
        match der_length(der.subrange(1, der.len() as int)) {
            Err(e) => Err(e),
            Ok((len, header)) => {
                let start = 1 + header;
                let end = start + len;
                if der.len() < end {
                    Err("invalid DER ECDSA signature: truncated body"@)
                } else {
                    match der_integer(der, start as int, end as int, "r"@) {
                        Err(e) => Err(e),
                        Ok((r, after_r)) => match der_integer(der, after_r, end as int, "s"@) {
                            Err(e) => Err(e),
                            Ok((s, after_s)) => if after_s != end {
                                Err("invalid DER ECDSA signature: trailing bytes after s"@)
                            } else {
                                Ok((r, s))
                            },
                        },
                    }
                }
            },
        }
    }
}

/// Decodes a DER signature into its two integers.
pub fn decode_der_ecdsa_signature(der: &[u8]) -> (r: Result<(Vec<u8>, Vec<u8>), String>)
    ensures
        match r {
            Ok((a, b)) => der_signature(der@) == Ok::<(Seq<u8>, Seq<u8>), Seq<char>>((a@, b@)),
            Err(e) => der_signature(der@) == Err::<(Seq<u8>, Seq<u8>), Seq<char>>(e@),
        },
{
    if der.len() == 0 || der[0] != 0x30 {
        return Err("invalid DER ECDSA signature: not a SEQUENCE".to_owned());
    }
    let (len, header) = match parse_der_length(slice_subrange(der, 1, der.len())) {
        Err(e) => return Err(e),
        Ok(x) => x,
    };
    let start: usize = 1 + header;
    let end: usize = start + len;
    if der.len() < end {
        return Err("invalid DER ECDSA signature: truncated body".to_owned());
    }
    let (r, after_r) = match read_der_integer(der, start, end, "r") {
        Err(e) => return Err(e),
        Ok(x) => x,
    };
    let (s, after_s) = match read_der_integer(der, after_r, end, "s") {
        Err(e) => return Err(e),
        Ok(x) => x,
    };
    if after_s != end {
        return Err("invalid DER ECDSA signature: trailing bytes after s".to_owned());
    }
    Ok((r, s))
}

// --------------------------------------------------------------- raw r || s

/// `b` without the leading zero bytes that make it longer than `n`.
pub open spec fn stripped(b: Seq<u8>, n: nat) -> Seq<u8>
    decreases b.len(),
{
    if b.len() > n && b[0] == 0 {
        stripped(b.subrange(1, b.len() as int), n)
    } else {
        b
    }
}

/// `b` in exactly `n` bytes: stripped of leading zeros or padded with them,
/// or why it does not fit.
pub open spec fn fixed_width(b: Seq<u8>, n: nat, label: Seq<char>) -> Result<Seq<u8>, Seq<char>> {
    let t = stripped(b, n);
    if t.len() > n {
        Err(
            "ECDSA "@ + label + " integer is "@ + dec(t.len()) + " bytes, exceeds field length "@
                + dec(n),
        )
    } else {
        Ok(Seq::new((n - t.len()) as nat, |i: int| 0u8) + t)
    }
}

/// Brings an integer to exactly `field_len` bytes.
pub fn fixed_width_be(int_bytes: &[u8], field_len: usize, label: &str) -> (r: Result<
    Vec<u8>,
    String,
>)
    ensures
        match r {
            Ok(out) => fixed_width(int_bytes@, field_len as nat, label@) == Ok::<
                Seq<u8>,
                Seq<char>,
            >(out@) && out@.len() == field_len,
            Err(e) => fixed_width(int_bytes@, field_len as nat, label@) == Err::<
                Seq<u8>,
                Seq<char>,
            >(e@),
        },
{
    let n: usize = int_bytes.len();
    let mut i: usize = 0;
    assert(int_bytes@.subrange(0, n as int) =~= int_bytes@);
    while n - i > field_len && int_bytes[i] == 0
        invariant
            n == int_bytes@.len(),
            i <= n,
            stripped(int_bytes@, field_len as nat) == stripped(
                int_bytes@.subrange(i as int, n as int),
                field_len as nat,
            ),
        decreases n - i,
    {
        proof {
            let t = int_bytes@.subrange(i as int, n as int);
            assert(t.subrange(1, t.len() as int) =~= int_bytes@.subrange(i + 1, n as int));
        }
        i = i + 1;
    }
    let ghost t = int_bytes@.subrange(i as int, n as int);
    assert(stripped(int_bytes@, field_len as nat) == t);
    if n - i > field_len {
        let mut e: String = cat5(
            "ECDSA ",
            label,
            " integer is ",
            dec_usize(n - i).as_str(),
            " bytes, exceeds field length ",
        );
        e.append(dec_usize(field_len).as_str());
        return Err(e);
    }
    let mut out: Vec<u8> = Vec::new();
    let pad: usize = field_len - (n - i);
    for k in 0..pad
        invariant
            out@ == Seq::new(k as nat, |i: int| 0u8),
    {
        out.push(0);
        assert(out@ =~= Seq::new((k + 1) as nat, |i: int| 0u8));
    }
    put(&mut out, slice_subrange(int_bytes, i, n));
    Ok(out)
}

/// The raw framing of a DER signature: both integers in `n` bytes each.
pub open spec fn raw_of_der(der: Seq<u8>, n: nat) -> Result<Seq<u8>, Seq<char>> {
    match der_signature(der) {
        Err(e) => Err(e),
        Ok((r, s)) => match fixed_width(r, n, "r"@) {
            Err(e) => Err(e),
            Ok(a) => match fixed_width(s, n, "s"@) {
                Err(e) => Err(e),
                Ok(b) => Ok(a + b),
            },
        },
    }
}

/// Reframes a DER signature as the raw `r || s` of a curve whose field is
/// `field_len` bytes wide.
pub fn der_to_raw_rs(der: &[u8], field_len: usize) -> (r: Result<Vec<u8>, String>)
    requires
        field_len * 2 <= isize::MAX,
    ensures
        match r {
            Ok(out) => raw_of_der(der@, field_len as nat) == Ok::<Seq<u8>, Seq<char>>(out@)
                && out@.len() == 2 * field_len,
            Err(e) => raw_of_der(der@, field_len as nat) == Err::<Seq<u8>, Seq<char>>(e@),
        },
{
    let (r, s) = match decode_der_ecdsa_signature(der) {
        Err(e) => return Err(e),
        Ok(x) => x,
    };
    let mut out: Vec<u8> = match fixed_width_be(r.as_slice(), field_len, "r") {
        Err(e) => return Err(e),
        Ok(x) => x,
    };
    let b: Vec<u8> = match fixed_width_be(s.as_slice(), field_len, "s") {
        Err(e) => return Err(e),
        Ok(x) => x,
    };
    put(&mut out, b.as_slice());
    Ok(out)
}

// ------------------------------------------------------------- the SSH blob

/// The INTEGER that is written for a body; an empty one stands for zero.
pub open spec fn der_integer_bytes(body: Seq<u8>) -> Seq<u8> {
    if body.len() == 0 {
        seq![0x02u8, 1u8, 0u8]
    } else {
        seq![0x02u8] + der_length_bytes(body.len()) + body
    }
}

/// Appends the INTEGER for `body`.
pub fn encode_der_integer(out: &mut Vec<u8>, body: &[u8])
    ensures
        final(out)@ == old(out)@ + der_integer_bytes(body@),
{
    out.push(0x02);
    if body.len() == 0 {
        out.push(1);
        out.push(0);
    } else {
        encode_der_length(out, body.len());
        put(out, body);
    }
    assert(out@ =~= old(out)@ + der_integer_bytes(body@));
}

/// The DER signature of two integers.
pub open spec fn der_signature_bytes(r: Seq<u8>, s: Seq<u8>) -> Seq<u8> {
    let body = der_integer_bytes(r) + der_integer_bytes(s);
    seq![0x30u8] + der_length_bytes(body.len()) + body
}

/// The message for a length-prefixed string that cannot be read.
pub open spec fn blob_field_error(e: FieldError, label: Seq<char>) -> Seq<char> {
    match e {
        FieldError::NoLength => "SSH ECDSA signature: truncated length prefix for "@ + label,
        FieldError::TooLong(len, _) => "SSH ECDSA signature: "@ + label + " length "@ + dec(
            len as nat,
        ) + " exceeds buffer"@,
    }
}

/// The two bodies of an SSH signature blob, or why it is none.
pub open spec fn blob_parts(blob: Seq<u8>) -> Result<(Seq<u8>, Seq<u8>), Seq<char>> {
    match field_at(blob, 0) {
        Err(e) => Err(blob_field_error(e, "r"@)),
        Ok((_, pos)) => match field_at(blob, pos) {
            Err(e) => Err(blob_field_error(e, "s"@)),
            Ok((_, end)) => if end != blob.len() {
                Err(
                    "invalid SSH ECDSA signature: "@ + dec((blob.len() - end) as nat)
                        + " trailing bytes after s"@,
                )
            } else {
                Ok((field_body(blob, 0), field_body(blob, pos)))
            },
        },
    }
}

/// The DER framing of an SSH signature blob.
pub open spec fn der_of_blob(blob: Seq<u8>) -> Result<Seq<u8>, Seq<char>> {
    match blob_parts(blob) {
        Err(e) => Err(e),
        Ok((r, s)) => Ok(der_signature_bytes(r, s)),
    }
}

fn field_error_text(e: FieldError, label: &str) -> (r: String)
    ensures
        r@ == blob_field_error(e, label@),
{
    match e {
        FieldError::NoLength => cat2("SSH ECDSA signature: truncated length prefix for ", label),
        FieldError::TooLong(len, _) => cat5(
            "SSH ECDSA signature: ",
            label,
            " length ",
            dec_usize(len).as_str(),
            " exceeds buffer",
        ),
    }
}

/// Reframes an SSH signature blob as DER.
pub fn ssh_ecdsa_blob_to_der(blob: &[u8]) -> (r: Result<Vec<u8>, String>)
    ensures
        match r {
            Ok(out) => der_of_blob(blob@) == Ok::<Seq<u8>, Seq<char>>(out@),
            Err(e) => der_of_blob(blob@) == Err::<Seq<u8>, Seq<char>>(e@),
        },
{
    let (r_from, r_to) = match find_field(blob, 0) {
        Err(e) => return Err(field_error_text(e, "r")),
        Ok(x) => x,
    };
    let (s_from, s_to) = match find_field(blob, r_to) {
        Err(e) => return Err(field_error_text(e, "s")),
        Ok(x) => x,
    };
    if s_to != blob.len() {
        return Err(
            cat3(
                "invalid SSH ECDSA signature: ",
                dec_usize(blob.len() - s_to).as_str(),
                " trailing bytes after s",
            ),
        );
    }
    let mut body: Vec<u8> = Vec::new();
    encode_der_integer(&mut body, slice_subrange(blob, r_from, r_to));
    encode_der_integer(&mut body, slice_subrange(blob, s_from, s_to));
    let ghost want = der_integer_bytes(field_body(blob@, 0)) + der_integer_bytes(
        field_body(blob@, r_to as int),
    );
    assert(body@ =~= want);
    let mut der: Vec<u8> = Vec::new();
    der.push(0x30);
    encode_der_length(&mut der, body.len());
    put(&mut der, body.as_slice());
    assert(der@ =~= seq![0x30u8] + der_length_bytes(want.len()) + want);
    Ok(der)
}

/// The SSH signature blob of two integers.
pub open spec fn ssh_blob(r: Seq<u8>, s: Seq<u8>) -> Seq<u8> {
    ssh_string(r) + ssh_string(s)
}

// -------------------------------------------------------------------- laws

/// The body that stands for an integer once it has gone through DER.
pub open spec fn normal(b: Seq<u8>) -> Seq<u8> {
    if b.len() == 0 {
        seq![0u8]
    } else {
        b
    }
}

proof fn lemma_integer_round_trip(before: Seq<u8>, body: Seq<u8>, after: Seq<u8>, end: int, label: Seq<char>)
    requires
        body.len() <= 0xFFFF,
        before.len() + der_integer_bytes(body).len() <= end,
        end <= before.len() + der_integer_bytes(body).len() + after.len(),
        end <= usize::MAX,
    ensures
        der_integer(before + der_integer_bytes(body) + after, before.len() as int, end, label)
            == Ok::<(Seq<u8>, int), Seq<char>>(
            (normal(body), (before.len() + der_integer_bytes(body).len()) as int),
        ),
{
    let der = before + der_integer_bytes(body) + after;
    let pos = before.len() as int;
    let n = normal(body);
    assert(der_integer_bytes(body) =~= seq![0x02u8] + der_length_bytes(n.len()) + n);
    let tail = der.subrange(pos + 1, end);
    let rest = (n + after).subrange(0, end - pos - 1 - der_length_bytes(n.len()).len());
    assert(tail =~= der_length_bytes(n.len()) + rest);
    lemma_length_round_trip(n.len(), rest);
    let from = pos + 1 + der_length_bytes(n.len()).len();
    assert(der.subrange(from, from + n.len()) =~= n);
}

/// What is encoded as DER is decoded again: the decoder gives back both
/// integers, with an empty one read as the byte zero that stands for it.
pub proof fn law_decode_inverts_encode(r: Seq<u8>, s: Seq<u8>)
    requires
        (der_integer_bytes(r) + der_integer_bytes(s)).len() <= 0xFFFF,
    ensures
        der_signature(der_signature_bytes(r, s)) == Ok::<(Seq<u8>, Seq<u8>), Seq<char>>(
            (normal(r), normal(s)),
        ),
{
    let a = der_integer_bytes(r);
    let b = der_integer_bytes(s);
    let body = a + b;
    let l = der_length_bytes(body.len());
    let der = der_signature_bytes(r, s);
    assert(der.subrange(1, der.len() as int) =~= l + body);
    lemma_length_round_trip(body.len(), body);
    let start = (1 + l.len()) as int;
    let end = start + body.len();
    let head = seq![0x30u8] + l;
    assert(der =~= head + a + b);
    lemma_integer_round_trip(head, r, b, end, "r"@);
    assert(der =~= (head + a) + b + Seq::<u8>::empty());
    lemma_integer_round_trip(head + a, s, Seq::<u8>::empty(), end, "s"@);
}

proof fn lemma_blob_parts(r: Seq<u8>, s: Seq<u8>)
    requires
        r.len() < 0x1_0000_0000,
        s.len() < 0x1_0000_0000,
    ensures
        blob_parts(ssh_blob(r, s)) == Ok::<(Seq<u8>, Seq<u8>), Seq<char>>((r, s)),
{
    let blob = ssh_blob(r, s);
    lemma_be32_len(r.len());
    lemma_be32_len(s.len());
    lemma_field_of_string(Seq::empty(), r, ssh_string(s));
    assert(Seq::<u8>::empty() + ssh_string(r) + ssh_string(s) =~= blob);
    lemma_field_of_string(ssh_string(r), s, Seq::empty());
    assert(ssh_string(r) + ssh_string(s) + Seq::<u8>::empty() =~= blob);
    assert(blob.len() == 4 + r.len() + 4 + s.len());
}

/// Reframing an agent's blob as DER and decoding it gives back the two
/// integers that the blob holds.
pub proof fn law_blob_round_trips_through_der(r: Seq<u8>, s: Seq<u8>)
    requires
        (der_integer_bytes(r) + der_integer_bytes(s)).len() <= 0xFFFF,
    ensures
        der_of_blob(ssh_blob(r, s)) == Ok::<Seq<u8>, Seq<char>>(der_signature_bytes(r, s)),
        der_signature(der_of_blob(ssh_blob(r, s))->Ok_0) == Ok::<
            (Seq<u8>, Seq<u8>),
            Seq<char>,
        >((normal(r), normal(s))),
{
    assert(r.len() <= der_integer_bytes(r).len());
    assert(s.len() <= der_integer_bytes(s).len());
    lemma_blob_parts(r, s);
    law_decode_inverts_encode(r, s);
}

proof fn lemma_integer_canonical(der: Seq<u8>, pos: int, end: int, label: Seq<char>)
    requires
        0 <= pos,
        end <= der.len(),
        der_integer(der, pos, end, label) is Ok,
    ensures
        ({
            let (body, next) = der_integer(der, pos, end, label)->Ok_0;
            &&& pos < next <= end
            &&& body.len() <= 0xFFFF
            &&& der.subrange(pos, next) == seq![0x02u8] + der_length_bytes(body.len()) + body
        }),
{
    let tail = der.subrange(pos + 1, end);
    lemma_length_is_canonical(tail);
    let (len, header) = der_length(tail)->Ok_0;
    let (body, next) = der_integer(der, pos, end, label)->Ok_0;
    assert(der.subrange(pos, next) =~= seq![der[pos]] + tail.subrange(0, header as int) + body);
}

/// The decoder accepts nothing but encodings: bytes that decode begin with
/// a SEQUENCE of exactly the two INTEGERs, every length in its one form.
pub proof fn law_decode_accepts_only_encodings(der: Seq<u8>)
    requires
        der_signature(der) is Ok,
    ensures
        ({
            let (r, s) = der_signature(der)->Ok_0;
            let body = seq![0x02u8] + der_length_bytes(r.len()) + r + (seq![0x02u8]
                + der_length_bytes(s.len()) + s);
            let whole = seq![0x30u8] + der_length_bytes(body.len()) + body;
            whole.is_prefix_of(der)
        }),
{
    let t = der.subrange(1, der.len() as int);
    lemma_length_is_canonical(t);
    let (len, header) = der_length(t)->Ok_0;
    let start = 1 + header;
    let end = (start + len) as int;
    lemma_integer_canonical(der, start as int, end, "r"@);
    let (r, after_r) = der_integer(der, start as int, end, "r"@)->Ok_0;
    lemma_integer_canonical(der, after_r, end, "s"@);
    let (s, after_s) = der_integer(der, after_r, end, "s"@)->Ok_0;
    let one = seq![0x02u8] + der_length_bytes(r.len()) + r;
    let two = seq![0x02u8] + der_length_bytes(s.len()) + s;
    assert(der.subrange(start as int, end) =~= der.subrange(start as int, after_r) + der.subrange(
        after_r,
        end,
    ));
    let body = one + two;
    assert(der.subrange(start as int, end) == body);
    let whole = seq![0x30u8] + der_length_bytes(body.len()) + body;
    assert(der.subrange(0, end) =~= seq![der[0]] + t.subrange(0, header as int) + der.subrange(
        start as int,
        end,
    ));
    assert(whole == der.subrange(0, end));
}

/// Reframing as DER undoes what the agent did to the card's signature: the
/// blob made of the two integers decodes to the same two integers.
pub proof fn law_forward_path_is_inverted(der: Seq<u8>)
    requires
        der_signature(der) is Ok,
        (der_signature(der)->Ok_0).0.len() > 0,
        (der_signature(der)->Ok_0).1.len() > 0,
    ensures
        ({
            let (r, s) = der_signature(der)->Ok_0;
            &&& der_of_blob(ssh_blob(r, s)) is Ok
            &&& der_signature(der_of_blob(ssh_blob(r, s))->Ok_0) == der_signature(der)
        }),
{
    let (r, s) = der_signature(der)->Ok_0;
    let t = der.subrange(1, der.len() as int);
    lemma_length_is_canonical(t);
    let (len, header) = der_length(t)->Ok_0;
    let start = 1 + header;
    let end = (start + len) as int;
    lemma_integer_canonical(der, start as int, end, "r"@);
    let (_, after_r) = der_integer(der, start as int, end, "r"@)->Ok_0;
    lemma_integer_canonical(der, after_r, end, "s"@);
    assert(der.subrange(start as int, after_r).len() == der_integer_bytes(r).len());
    assert(der.subrange(after_r, end).len() == der_integer_bytes(s).len());
    law_blob_round_trips_through_der(r, s);
}

/// A signature has the same raw framing whether it comes from the card as
/// DER or from the agent as a blob.
pub proof fn law_card_and_agent_agree(der: Seq<u8>, n: nat)
    requires
        der_signature(der) is Ok,
        (der_signature(der)->Ok_0).0.len() > 0,
        (der_signature(der)->Ok_0).1.len() > 0,
    ensures
        ({
            let (r, s) = der_signature(der)->Ok_0;
            &&& der_of_blob(ssh_blob(r, s)) is Ok
            &&& raw_of_der(der_of_blob(ssh_blob(r, s))->Ok_0, n) == raw_of_der(der, n)
        }),
{
    law_forward_path_is_inverted(der);
}

/// The number that big-endian bytes hold.
pub open spec fn be_number(b: Seq<u8>) -> nat
    decreases b.len(),
{
    if b.len() == 0 {
        0
    } else {
        be_number(b.drop_last()) * 256 + b.last() as nat
    }
}

proof fn lemma_leading_zero(b: Seq<u8>)
    ensures
        be_number(seq![0u8] + b) == be_number(b),
    decreases b.len(),
{
    let z = seq![0u8] + b;
    if b.len() == 0 {
        assert(z.drop_last() =~= Seq::<u8>::empty());
        assert(be_number(z.drop_last()) == 0);
    } else {
        assert(z.drop_last() =~= seq![0u8] + b.drop_last());
        lemma_leading_zero(b.drop_last());
    }
}

proof fn lemma_stripped_number(b: Seq<u8>, n: nat)
    ensures
        be_number(stripped(b, n)) == be_number(b),
    decreases b.len(),
{
    if b.len() > n && b[0] == 0 {
        let t = b.subrange(1, b.len() as int);
        lemma_stripped_number(t, n);
        assert(seq![0u8] + t =~= b);
        lemma_leading_zero(t);
    }
}

proof fn lemma_padded_number(k: nat, b: Seq<u8>)
    ensures
        be_number(Seq::new(k, |i: int| 0u8) + b) == be_number(b),
    decreases k,
{
    let z = Seq::new(k, |i: int| 0u8);
    if k == 0 {
        assert(z + b =~= b);
    } else {
        let y = Seq::new((k - 1) as nat, |i: int| 0u8);
        lemma_padded_number((k - 1) as nat, b);
        assert(z + b =~= seq![0u8] + (y + b));
        lemma_leading_zero(y + b);
    }
}

/// Bringing an integer to the field's width does not change its value.
pub proof fn law_fixed_width_keeps_the_number(b: Seq<u8>, n: nat, label: Seq<char>)
    requires
        fixed_width(b, n, label) is Ok,
    ensures
        fixed_width(b, n, label)->Ok_0.len() == n,
        be_number(fixed_width(b, n, label)->Ok_0) == be_number(b),
{
    let t = stripped(b, n);
    lemma_stripped_number(b, n);
    lemma_padded_number((n - t.len()) as nat, t);
}

} // verus!
