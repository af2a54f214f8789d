//! What the agent answers to each request.
//!
//! The card itself, the PIN prompt and the socket are the caller's. This
//! module holds the key list and the cached PIN, reads the requests, decides
//! what is asked of the card and when, and frames the replies.
use crate::card_oracle::{canonical_point, canonicalize_uncompressed};
use crate::crypto::{
    discard, discard_any, ec_convert, opt_bytes, sec1_point, sha256, sha256_of, sha384, sha384_of, sha512,
    sha512_of, ssh_key_from_bytes, ssh_key_of, ssh_signature_check, ssh_signature_flaw, EcCurve,
    EcStep, KeyView, PublicKey,
};
use crate::ecdsa_sig::{decode_der_ecdsa_signature, der_signature, ssh_blob};
use crate::piv::{guid_length_flaw, Guid, PivAlgorithm, CARD_AUTH_SLOT};
use crate::text::{cat2, cat3, cat4, dec, dec_usize, hex_numeral, hex_u32, same};
use crate::wire::{
    be32, be32_value, bytes_same, field_at, field_body, find_field, get_u32, put, put_string, put_u32,
    ssh_string, FieldError,
};
use std::mem::swap;
use vstd::prelude::*;
use vstd::slice::{slice_subrange, slice_to_vec};

verus! {

/// Prompts after the first one, when the card says that the PIN was wrong.
/// Every wrong attempt uses up one of the card's tries.
pub const PIN_RETRY_LIMIT: u32 = 1;

/// The signature flag that asks an RSA key for SHA-256.
pub const RSA_SHA2_256: u32 = 0x02;

/// The signature flag that asks an RSA key for SHA-512.
pub const RSA_SHA2_512: u32 = 0x04;

/// Why a request was refused.
#[derive(Debug)]
pub enum AgentError {
    Other(String),
    Failure,
    /// The request's number is not one the agent serves.
    UnsupportedCommand(u8),
}

/// [`AgentError`] over plain text.
pub enum ErrorView {
    Other(Seq<char>),
    Failure,
    UnsupportedCommand(u8),
}

impl View for AgentError {
    type V = ErrorView;

    open spec fn view(&self) -> ErrorView {
        match self {
            AgentError::Other(e) => ErrorView::Other(e@),
            AgentError::Failure => ErrorView::Failure,
            AgentError::UnsupportedCommand(n) => ErrorView::UnsupportedCommand(*n),
        }
    }
}

impl AgentError {
    /// The words of the error.
    pub fn text(&self) -> (r: String)
        ensures
            r@ == match self@ {
                ErrorView::Other(e) => "Other error: "@ + e,
                ErrorView::Failure => "Generic agent failure"@,
                ErrorView::UnsupportedCommand(n) =>
                    "Agent: Protocol error: Command not supported ("@ + dec(n as nat) + ")"@,
            },
    {
        match self {
            AgentError::Other(e) => cat2("Other error: ", e.as_str()),
            AgentError::Failure => "Generic agent failure".to_owned(),
            AgentError::UnsupportedCommand(n) => cat3(
                "Agent: Protocol error: Command not supported (",
                dec_usize(*n as usize).as_str(),
                ")",
            ),
        }
    }
}

/// The refusal with the given words.
pub open spec fn other<T>(e: Seq<char>) -> Result<T, ErrorView> {
    Err(ErrorView::Other(e))
}

// ---------------------------------------------------------- data to be signed

/// The DigestInfo header of a SHA-256 digest.
pub const RSA_DIGEST_PREFIX_SHA256: [u8; 19] = [
    0x30,
    0x31,
    0x30,
    0x0d,
    0x06,
    0x09,
    0x60,
    0x86,
    0x48,
    0x01,
    0x65,
    0x03,
    0x04,
    0x02,
    0x01,
    0x05,
    0x00,
    0x04,
    0x20,
];

/// The DigestInfo header of a SHA-512 digest.
pub const RSA_DIGEST_PREFIX_SHA512: [u8; 19] = [
    0x30,
    0x51,
    0x30,
    0x0d,
    0x06,
    0x09,
    0x60,
    0x86,
    0x48,
    0x01,
    0x65,
    0x03,
    0x04,
    0x02,
    0x03,
    0x05,
    0x00,
    0x04,
    0x40,
];

/// The PKCS#1 v1.5 signature block: a zero, a one, a run of 0xFF that fills
/// up to the key size, a zero, then the DigestInfo and the digest.
pub open spec fn pkcs1_block(hash: Seq<u8>, prefix: Seq<u8>, key_size: nat) -> Seq<u8> {
    seq![0x00u8, 0x01u8] + Seq::new(
        (key_size - prefix.len() - hash.len() - 3) as nat,
        |i: int| 0xFFu8,
    ) + seq![0x00u8] + prefix + hash
}

/// The block, where the key has room for it: at least eight bytes of
/// padding.
pub open spec fn pkcs1_padded(hash: Seq<u8>, prefix: Seq<u8>, key_size: nat) -> Result<
    Seq<u8>,
    ErrorView,
> {
    if key_size < prefix.len() + hash.len() + 11 {
        other("key too small for digest"@)
    } else {
        Ok(pkcs1_block(hash, prefix, key_size))
    }
}

/// Builds the PKCS#1 v1.5 signature block of a digest.
pub fn pkcs1_v15_pad(hash: &[u8], digest_prefix: &[u8], key_size: usize) -> (r: Result<
    Vec<u8>,
    AgentError,
>)
    requires
        digest_prefix@.len() + hash@.len() + 11 <= usize::MAX,
    ensures
        match r {
            Ok(b) => pkcs1_padded(hash@, digest_prefix@, key_size as nat) == Ok::<
                Seq<u8>,
                ErrorView,
            >(b@) && b@.len() == key_size,
            Err(e) => pkcs1_padded(hash@, digest_prefix@, key_size as nat) == Err::<
                Seq<u8>,
                ErrorView,
            >(e@),
        },
{
    let info: usize = digest_prefix.len() + hash.len();
    if key_size < info + 11 {
        return Err(AgentError::Other("key too small for digest".to_owned()));
    }
    let fill: usize = key_size - info - 3;
    let mut out: Vec<u8> = Vec::new();
    out.push(0x00);
    out.push(0x01);
    for k in 0..fill
        invariant
            out@ == seq![0x00u8, 0x01u8] + Seq::new(k as nat, |i: int| 0xFFu8),
    {
        out.push(0xFF);
        assert(out@ =~= seq![0x00u8, 0x01u8] + Seq::new((k + 1) as nat, |i: int| 0xFFu8));
    }
    out.push(0x00);
    put(&mut out, digest_prefix);
    put(&mut out, hash);
    assert(out@ =~= pkcs1_block(hash@, digest_prefix@, key_size as nat));
    Ok(out)
}

/// Whether the flags ask for SHA-512, which wins over SHA-256.
pub open spec fn wants_sha512(flags: u32) -> bool {
    flags & RSA_SHA2_512 != 0
}

/// The size of an RSA modulus in bytes.
pub open spec fn rsa_size(alg: PivAlgorithm) -> nat {
    if alg is Rsa1024 {
        128
    } else {
        256
    }
}

/// What a key of the algorithm is given to sign: the digest for the
/// elliptic curves, the padded DigestInfo for RSA, the data itself for
/// Ed25519, which hashes on the card.
pub open spec fn sign_data(alg: PivAlgorithm, data: Seq<u8>, flags: u32) -> Seq<u8> {
    match alg {
        PivAlgorithm::EcP256 => sha256_of(data),
        PivAlgorithm::EcP384 => sha384_of(data),
        PivAlgorithm::Ed25519 => data,
        _ => if wants_sha512(flags) {
            pkcs1_block(sha512_of(data), RSA_DIGEST_PREFIX_SHA512@, rsa_size(alg))
        } else {
            pkcs1_block(sha256_of(data), RSA_DIGEST_PREFIX_SHA256@, rsa_size(alg))
        },
    }
}

/// The block for a digest that was already computed.
pub fn rsa_sign_data(alg: PivAlgorithm, hash: &[u8], sha512: bool) -> (r: Result<
    Vec<u8>,
    AgentError,
>)
    requires
        hash@.len() <= 64,
    ensures
        r is Ok,
        r->Ok_0@ == pkcs1_block(
            hash@,
            if sha512 {
                RSA_DIGEST_PREFIX_SHA512@
            } else {
                RSA_DIGEST_PREFIX_SHA256@
            },
            rsa_size(alg),
        ),
{
    let size: usize = match alg {
        PivAlgorithm::Rsa1024 => 128,
        _ => 256,
    };
    if sha512 {
        pkcs1_v15_pad(hash, RSA_DIGEST_PREFIX_SHA512.as_slice(), size)
    } else {
        pkcs1_v15_pad(hash, RSA_DIGEST_PREFIX_SHA256.as_slice(), size)
    }
}

/// Prepares what the card is given to sign.
pub fn prepare_sign_data(alg: PivAlgorithm, data: &[u8], flags: u32) -> (r: Result<
    Vec<u8>,
    AgentError,
>)
    ensures
        r is Ok,
        r->Ok_0@ == sign_data(alg, data@, flags),
{
    match alg {
        PivAlgorithm::EcP256 => Ok(sha256(data)),
        PivAlgorithm::EcP384 => Ok(sha384(data)),
        PivAlgorithm::Ed25519 => Ok(slice_to_vec(data)),
        _ => {
            if flags & RSA_SHA2_512 != 0 {
                rsa_sign_data(alg, sha512(data).as_slice(), true)
            } else {
                rsa_sign_data(alg, sha256(data).as_slice(), false)
            }
        },
    }
}

// ------------------------------------------------------------- signatures

/// A signature in SSH terms.
pub struct SshSignature {
    pub algorithm: String,
    pub data: Vec<u8>,
}

/// The SSH name of the algorithm that a signature is made with.
pub open spec fn signature_name(alg: PivAlgorithm, flags: u32) -> Seq<char> {
    match alg {
        PivAlgorithm::EcP256 => "ecdsa-sha2-nistp256"@,
        PivAlgorithm::EcP384 => "ecdsa-sha2-nistp384"@,
        PivAlgorithm::Ed25519 => "ssh-ed25519"@,
        _ => if wants_sha512(flags) {
            "rsa-sha2-512"@
        } else {
            "rsa-sha2-256"@
        },
    }
}

/// The SSH encoding of what the card returned: the two integers of an
/// elliptic-curve signature each as a length-prefixed string, any other
/// signature as it is.
pub open spec fn signature_data(alg: PivAlgorithm, sig: Seq<u8>) -> Result<Seq<u8>, ErrorView> {
    if alg is EcP256 || alg is EcP384 {
        match der_signature(sig) {
            Err(e) => other(e),
            Ok((r, s)) => Ok(ssh_blob(r, s)),
        }
    } else {
        Ok(sig)
    }
}

/// The signature in SSH terms, or what is wrong with it.
pub open spec fn signature_outcome(
    alg: PivAlgorithm,
    sig: Seq<u8>,
    flags: u32,
) -> Result<(Seq<char>, Seq<u8>), ErrorView> {
    match signature_data(alg, sig) {
        Err(e) => Err(e),
        Ok(data) => match ssh_signature_flaw(signature_name(alg, flags), data) {
            Some(e) => other(e),
            None => Ok((signature_name(alg, flags), data)),
        },
    }
}

/// Encodes two integers as the SSH signature blob.
pub fn encode_ecdsa_ssh_signature(r: &[u8], s: &[u8]) -> (b: Vec<u8>)
    ensures
        b@ == ssh_blob(r@, s@),
{
    let mut out: Vec<u8> = Vec::new();
    put_string(&mut out, r);
    put_string(&mut out, s);
    assert(out@ =~= ssh_blob(r@, s@));
    out
}

/// Encodes what the card returned, before the signature is checked.
pub fn encode_card_signature(alg: PivAlgorithm, sig_bytes: &[u8]) -> (r: Result<
    Vec<u8>,
    AgentError,
>)
    ensures
        match r {
            Ok(d) => signature_data(alg, sig_bytes@) == Ok::<Seq<u8>, ErrorView>(d@),
            Err(e) => signature_data(alg, sig_bytes@) == Err::<Seq<u8>, ErrorView>(e@),
        },
{
    match alg {
        PivAlgorithm::EcP256 | PivAlgorithm::EcP384 => {
            match decode_der_ecdsa_signature(sig_bytes) {
                Err(e) => Err(AgentError::Other(e)),
                Ok((r, s)) => Ok(encode_ecdsa_ssh_signature(r.as_slice(), s.as_slice())),
            }
        },
        _ => Ok(slice_to_vec(sig_bytes)),
    }
}

/// Turns what the card returned into an SSH signature.
pub fn to_ssh_signature(alg: PivAlgorithm, sig_bytes: &[u8], flags: u32) -> (r: Result<
    SshSignature,
    AgentError,
>)
    ensures
        match r {
            Ok(s) => signature_outcome(alg, sig_bytes@, flags) == Ok::<
                (Seq<char>, Seq<u8>),
                ErrorView,
            >((s.algorithm@, s.data@)),
            Err(e) => signature_outcome(alg, sig_bytes@, flags) == Err::<
                (Seq<char>, Seq<u8>),
                ErrorView,
            >(e@),
        },
        alg is Rsa1024 || alg is Rsa2048 ==> r is Ok,
        alg is Ed25519 ==> (r is Ok <==> sig_bytes@.len() == 64),
{
    let name: &str = match alg {
        PivAlgorithm::EcP256 => "ecdsa-sha2-nistp256",
        PivAlgorithm::EcP384 => "ecdsa-sha2-nistp384",
        PivAlgorithm::Ed25519 => "ssh-ed25519",
        _ => {
            if flags & RSA_SHA2_512 != 0 {
                "rsa-sha2-512"
            } else {
                "rsa-sha2-256"
            }
        },
    };
    match encode_card_signature(alg, sig_bytes) {
        Err(e) => Err(e),
        Ok(data) => match ssh_signature_check(name, data.as_slice()) {
            Some(e) => Err(AgentError::Other(e)),
            None => Ok(SshSignature { algorithm: name.to_owned(), data }),
        },
    }
}

// --------------------------------------------------------- reading requests

/// The words for a length-prefixed string that cannot be read.
pub open spec fn string_error(e: FieldError) -> Seq<char> {
    match e {
        FieldError::NoLength => "SSH string: not enough data for length"@,
        FieldError::TooLong(len, rest) => "SSH string: length "@ + dec(len as nat)
            + " exceeds remaining data "@ + dec(rest as nat),
    }
}

/// The length-prefixed string at `at` and the position behind it.
pub open spec fn string_at(data: Seq<u8>, at: int) -> Result<(Seq<u8>, int), Seq<char>> {
    match field_at(data, at) {
        Err(e) => Err(string_error(e)),
        Ok((_, to)) => Ok((field_body(data, at), to)),
    }
}

/// Reads the length-prefixed string at `offset`.
pub fn read_ssh_string<'a>(data: &'a [u8], offset: usize) -> (r: Result<(&'a [u8], usize), String>)
    ensures
        match r {
            Ok((body, next)) => string_at(data@, offset as int) == Ok::<
                (Seq<u8>, int),
                Seq<char>,
            >((body@, next as int)) && next <= data@.len(),
            Err(e) => string_at(data@, offset as int) == Err::<(Seq<u8>, int), Seq<char>>(e@),
        },
{
    match find_field(data, offset) {
        Err(FieldError::NoLength) => Err("SSH string: not enough data for length".to_owned()),
        Err(FieldError::TooLong(len, rest)) => Err(
            cat4(
                "SSH string: length ",
                dec_usize(len).as_str(),
                " exceeds remaining data ",
                dec_usize(rest).as_str(),
            ),
        ),
        Ok((from, to)) => Ok((slice_subrange(data, from, to), to)),
    }
}

/// The flags word at `at`.
pub open spec fn flags_at(data: Seq<u8>, at: int, label: Seq<char>) -> Result<nat, Seq<char>> {
    if at + 4 > data.len() {
        Err(label + ": truncated flags field"@)
    } else {
        Ok(be32_value(data.subrange(at, at + 4)))
    }
}

/// Reads the flags word at `offset`.
pub fn read_u32_be(data: &[u8], offset: usize, label: &str) -> (r: Result<u32, String>)
    ensures
        match r {
            Ok(n) => flags_at(data@, offset as int, label@) == Ok::<nat, Seq<char>>(n as nat),
            Err(e) => flags_at(data@, offset as int, label@) == Err::<nat, Seq<char>>(e@),
        },
{
    if data.len() < 4 || offset > data.len() - 4 {
        return Err(cat2(label, ": truncated flags field"));
    }
    Ok(get_u32(data, offset))
}

/// The SEC1 point in the SSH encoding of an elliptic-curve key: the third
/// string, behind the names of algorithm and curve.
pub open spec fn blob_point(blob: Seq<u8>) -> Result<Seq<u8>, Seq<char>> {
    match string_at(blob, 0) {
        Err(e) => Err(e),
        Ok((_, a)) => match string_at(blob, a) {
            Err(e) => Err(e),
            Ok((_, b)) => match string_at(blob, b) {
                Err(e) => Err(e),
                Ok((p, _)) => Ok(p),
            },
        },
    }
}

/// Extracts the SEC1 point from the SSH encoding of an elliptic-curve key.
pub fn extract_ec_point_from_ssh_blob(blob: &[u8]) -> (r: Result<Vec<u8>, String>)
    ensures
        match r {
            Ok(p) => blob_point(blob@) == Ok::<Seq<u8>, Seq<char>>(p@),
            Err(e) => blob_point(blob@) == Err::<Seq<u8>, Seq<char>>(e@),
        },
{
    let a: usize = match read_ssh_string(blob, 0) {
        Err(e) => return Err(e),
        Ok((_, pos)) => pos,
    };
    let b: usize = match read_ssh_string(blob, a) {
        Err(e) => return Err(e),
        Ok((_, pos)) => pos,
    };
    match read_ssh_string(blob, b) {
        Err(e) => Err(e),
        Ok((p, _)) => Ok(slice_to_vec(p)),
    }
}

/// The body of an extension request, which is itself one string.
pub open spec fn request_body(details: Seq<u8>) -> Result<Seq<u8>, Seq<char>> {
    match string_at(details, 0) {
        Err(e) => Err(e),
        Ok((inner, _)) => Ok(inner),
    }
}

/// An ECDH request: the agent's key, and the partner's.
pub open spec fn ecdh_request(details: Seq<u8>) -> Result<(Seq<u8>, Seq<u8>), Seq<char>> {
    match request_body(details) {
        Err(e) => Err(e),
        Ok(inner) => match string_at(inner, 0) {
            Err(e) => Err(e),
            Ok((card_key, a)) => match string_at(inner, a) {
                Err(e) => Err(e),
                Ok((partner, b)) => match flags_at(inner, b, "ecdh"@) {
                    Err(e) => Err(e),
                    Ok(_) => Ok((card_key, partner)),
                },
            },
        },
    }
}

/// Reads an ECDH request.
pub fn parse_ecdh_request<'a>(details: &'a [u8]) -> (r: Result<(&'a [u8], &'a [u8]), String>)
    ensures
        match r {
            Ok((k, p)) => ecdh_request(details@) == Ok::<(Seq<u8>, Seq<u8>), Seq<char>>(
                (k@, p@),
            ),
            Err(e) => ecdh_request(details@) == Err::<(Seq<u8>, Seq<u8>), Seq<char>>(e@),
        },
{
    let inner: &'a [u8] = match read_ssh_string(details, 0) {
        Err(e) => return Err(e),
        Ok((b, _)) => b,
    };
    let (card_key, a) = match read_ssh_string(inner, 0) {
        Err(e) => return Err(e),
        Ok(x) => x,
    };
    let (partner, b) = match read_ssh_string(inner, a) {
        Err(e) => return Err(e),
        Ok(x) => x,
    };
    match read_u32_be(inner, b, "ecdh") {
        Err(e) => Err(e),
        Ok(_) => Ok((card_key, partner)),
    }
}

/// An attestation request: the agent's key.
pub open spec fn attest_request(details: Seq<u8>) -> Result<Seq<u8>, Seq<char>> {
    match request_body(details) {
        Err(e) => Err(e),
        Ok(inner) => match string_at(inner, 0) {
            Err(e) => Err(e),
            Ok((card_key, a)) => match flags_at(inner, a, "attest"@) {
                Err(e) => Err(e),
                Ok(_) => Ok(card_key),
            },
        },
    }
}

/// Reads an attestation request.
pub fn parse_attest_request<'a>(details: &'a [u8]) -> (r: Result<&'a [u8], String>)
    ensures
        match r {
            Ok(k) => attest_request(details@) == Ok::<Seq<u8>, Seq<char>>(k@),
            Err(e) => attest_request(details@) == Err::<Seq<u8>, Seq<char>>(e@),
        },
{
    let inner: &'a [u8] = match read_ssh_string(details, 0) {
        Err(e) => return Err(e),
        Ok((b, _)) => b,
    };
    let (card_key, a) = match read_ssh_string(inner, 0) {
        Err(e) => return Err(e),
        Ok(x) => x,
    };
    match read_u32_be(inner, a, "attest") {
        Err(e) => Err(e),
        Ok(_) => Ok(card_key),
    }
}

/// A request to seal a box anew: the box, the card and slot the new box is
/// meant for, and the partner's key.
pub struct ReboxRequest {
    pub boxed: Vec<u8>,
    pub guid: Vec<u8>,
    pub slot: u8,
    pub partner: Vec<u8>,
}

/// The parts of a request to seal a box anew.
pub open spec fn rebox_request(details: Seq<u8>) -> Result<
    (Seq<u8>, Seq<u8>, u8, Seq<u8>),
    Seq<char>,
> {
    match request_body(details) {
        Err(e) => Err(e),
        Ok(inner) => match string_at(inner, 0) {
            Err(e) => Err(e),
            Ok((boxed, a)) => match string_at(inner, a) {
                Err(e) => Err(e),
                Ok((guid, b)) => if b >= inner.len() {
                    Err("ecdh-rebox: truncated slot_id"@)
                } else {
                    match string_at(inner, b + 1) {
                        Err(e) => Err(e),
                        Ok((partner, c)) => match flags_at(inner, c, "ecdh-rebox"@) {
                            Err(e) => Err(e),
                            Ok(flags) => if flags != 0 {
                                Err("ecdh-rebox: unsupported flags 0x"@ + hex_numeral(flags))
                            } else {
                                Ok((boxed, guid, inner[b], partner))
                            },
                        },
                    }
                },
            },
        },
    }
}

/// Reads a request to seal a box anew.
pub fn parse_rebox_request(details: &[u8]) -> (r: Result<ReboxRequest, String>)
    ensures
        match r {
            Ok(q) => rebox_request(details@) == Ok::<
                (Seq<u8>, Seq<u8>, u8, Seq<u8>),
                Seq<char>,
            >((q.boxed@, q.guid@, q.slot, q.partner@)),
            Err(e) => rebox_request(details@) == Err::<
                (Seq<u8>, Seq<u8>, u8, Seq<u8>),
                Seq<char>,
            >(e@),
        },
{
    let inner: &[u8] = match read_ssh_string(details, 0) {
        Err(e) => return Err(e),
        Ok((b, _)) => b,
    };
    let (boxed, a) = match read_ssh_string(inner, 0) {
        Err(e) => return Err(e),
        Ok(x) => x,
    };
    let (guid, b) = match read_ssh_string(inner, a) {
        Err(e) => return Err(e),
        Ok(x) => x,
    };
    if b >= inner.len() {
        return Err("ecdh-rebox: truncated slot_id".to_owned());
    }
    let slot: u8 = inner[b];
    let (partner, c) = match read_ssh_string(inner, b + 1) {
        Err(e) => return Err(e),
        Ok(x) => x,
    };
    match read_u32_be(inner, c, "ecdh-rebox") {
        Err(e) => Err(e),
        Ok(flags) => {
            if flags != 0 {
                Err(cat2("ecdh-rebox: unsupported flags 0x", hex_u32(flags).as_str()))
            } else {
                Ok(
                    ReboxRequest {
                        boxed: slice_to_vec(boxed),
                        guid: slice_to_vec(guid),
                        slot,
                        partner: slice_to_vec(partner),
                    },
                )
            }
        },
    }
}

// ------------------------------------------------------------- the key list

/// A key that a card holds, as it was read when the card was loaded.
pub struct CachedKey {
    pub guid: Guid,
    pub reader_name: String,
    pub slot_id: u8,
    pub algorithm: PivAlgorithm,
    pub public_key: PublicKey,
    pub comment: String,
}

/// [`CachedKey`] over plain values.
pub struct CachedView {
    pub guid: Seq<u8>,
    pub reader_name: Seq<char>,
    pub slot_id: u8,
    pub algorithm: PivAlgorithm,
    pub public_key: KeyView,
    pub comment: Seq<char>,
}

impl View for CachedKey {
    type V = CachedView;

    open spec fn view(&self) -> CachedView {
        CachedView {
            guid: self.guid@,
            reader_name: self.reader_name@,
            slot_id: self.slot_id,
            algorithm: self.algorithm,
            public_key: self.public_key@,
            comment: self.comment@,
        }
    }
}

/// A key list over plain values.
pub open spec fn keys_view(keys: Seq<CachedKey>) -> Seq<CachedView> {
    keys.map_values(|k: CachedKey| k@)
}

/// A second copy of a public key.
pub fn copy_public_key(k: &PublicKey) -> (r: PublicKey)
    ensures
        r@ == k@,
{
    let sec1: Option<Vec<u8>> = match &k.sec1 {
        Some(p) => Some(slice_to_vec(p.as_slice())),
        None => None,
    };
    PublicKey { blob: slice_to_vec(k.blob.as_slice()), sec1 }
}

impl CachedKey {
    /// A second copy of the key.
    pub fn copy(&self) -> (r: CachedKey)
        ensures
            r@ == self@,
    {
        CachedKey {
            guid: self.guid,
            reader_name: self.reader_name.clone(),
            slot_id: self.slot_id,
            algorithm: self.algorithm,
            public_key: copy_public_key(&self.public_key),
            comment: self.comment.clone(),
        }
    }
}

/// The first key from `i` on with the given SSH encoding.
pub open spec fn key_with_blob(keys: Seq<CachedView>, blob: Seq<u8>, i: int) -> int
    decreases keys.len() - i,
{
    if i >= keys.len() {
        keys.len() as int
    } else if keys[i].public_key.blob == blob {
        i
    } else {
        key_with_blob(keys, blob, i + 1)
    }
}

/// The first key from `i` on that sits on the given card.
pub open spec fn key_on_card(keys: Seq<CachedView>, guid: Seq<u8>, i: int) -> int
    decreases keys.len() - i,
{
    if i >= keys.len() {
        keys.len() as int
    } else if keys[i].guid == guid {
        i
    } else {
        key_on_card(keys, guid, i + 1)
    }
}

/// The first elliptic-curve key from `i` on with the given point.
pub open spec fn key_with_point(keys: Seq<CachedView>, point: Seq<u8>, i: int) -> int
    decreases keys.len() - i,
{
    if i >= keys.len() {
        keys.len() as int
    } else if keys[i].public_key.sec1 == Some(point) {
        i
    } else {
        key_with_point(keys, point, i + 1)
    }
}

/// The agent's state: the keys it serves and the PIN it remembers.
pub struct PiggyAgent {
    pub keys: Vec<CachedKey>,
    pub pin: Option<String>,
}

/// A PIN for one operation, and whether it was just asked for; such a PIN
/// is kept only once the card has accepted it.
pub struct AcquiredPin {
    pub pin: String,
    pub fresh: bool,
}

/// One entry of the list that the agent shows.
pub struct Identity {
    pub pubkey: PublicKey,
    pub comment: String,
}

/// An extension's reply.
pub struct Extension {
    pub name: String,
    pub details: Vec<u8>,
}

/// The identities of a key list, over plain values.
pub open spec fn identities_view(ids: Seq<Identity>) -> Seq<(KeyView, Seq<char>)> {
    ids.map_values(|i: Identity| (i.pubkey@, i.comment@))
}

/// What the agent shows of its keys: the public key and the comment, in
/// order.
pub open spec fn shown(keys: Seq<CachedView>) -> Seq<(KeyView, Seq<char>)> {
    keys.map_values(|k: CachedView| (k.public_key, k.comment))
}

/// The words of the prompt, for a card that goes by a short name.
pub fn agent_pin_prompt(short_id: &str) -> (r: String)
    ensures
        r@ == "Enter PIN for token "@ + short_id@,
{
    cat2("Enter PIN for token ", short_id)
}

/// What tells the prompt program which request the PIN is for.
pub fn agent_pin_context(op: &str, short_id: &str) -> (r: String)
    ensures
        r@ == "piggy-agent:"@ + op@ + ":"@ + short_id@,
{
    cat4("piggy-agent:", op, ":", short_id)
}

impl PiggyAgent {
    /// An agent that serves the given keys and remembers no PIN.
    pub fn new(keys: Vec<CachedKey>) -> (r: PiggyAgent)
        ensures
            r.keys == keys,
            r.pin is None,
    {
        PiggyAgent { keys, pin: None }
    }

    /// Finds a key by its SSH encoding.
    pub fn find_key(&self, blob: &[u8]) -> (r: Option<usize>)
        ensures
            match r {
                Some(i) => i < self.keys@.len() && i == key_with_blob(
                    keys_view(self.keys@),
                    blob@,
                    0,
                ),
                None => key_with_blob(keys_view(self.keys@), blob@, 0) == self.keys@.len(),
            },
    {
        let ghost all = keys_view(self.keys@);
        let mut i: usize = 0;
        while i < self.keys.len()
            invariant
                i <= self.keys@.len(),
                all == keys_view(self.keys@),
                key_with_blob(all, blob@, 0) == key_with_blob(all, blob@, i as int),
            decreases self.keys@.len() - i,
        {
            assert(all[i as int] == self.keys@[i as int]@);
            if bytes_same(self.keys[i].public_key.blob.as_slice(), blob) {
                return Some(i);
            }
            i = i + 1;
        }
        None
    }

    /// Finds a key by the card it sits on.
    pub fn find_key_by_guid(&self, guid: &Guid) -> (r: Option<usize>)
        ensures
            match r {
                Some(i) => i < self.keys@.len() && i == key_on_card(
                    keys_view(self.keys@),
                    guid@,
                    0,
                ),
                None => key_on_card(keys_view(self.keys@), guid@, 0) == self.keys@.len(),
            },
    {
        let ghost all = keys_view(self.keys@);
        let mut i: usize = 0;
        while i < self.keys.len()
            invariant
                i <= self.keys@.len(),
                all == keys_view(self.keys@),
                key_on_card(all, guid@, 0) == key_on_card(all, guid@, i as int),
            decreases self.keys@.len() - i,
        {
            assert(all[i as int] == self.keys@[i as int]@);
            if self.keys[i].guid.same(guid) {
                return Some(i);
            }
            i = i + 1;
        }
        None
    }

    /// Finds an elliptic-curve key by its uncompressed point.
    pub fn find_key_by_point(&self, point: &[u8]) -> (r: Option<usize>)
        ensures
            match r {
                Some(i) => i < self.keys@.len() && i == key_with_point(
                    keys_view(self.keys@),
                    point@,
                    0,
                ),
                None => key_with_point(keys_view(self.keys@), point@, 0) == self.keys@.len(),
            },
    {
        let ghost all = keys_view(self.keys@);
        let mut i: usize = 0;
        while i < self.keys.len()
            invariant
                i <= self.keys@.len(),
                all == keys_view(self.keys@),
                key_with_point(all, point@, 0) == key_with_point(all, point@, i as int),
            decreases self.keys@.len() - i,
        {
            assert(all[i as int] == self.keys@[i as int]@);
            if let Some(p) = &self.keys[i].public_key.sec1 {
                if bytes_same(p.as_slice(), point) {
                    return Some(i);
                }
            }
            i = i + 1;
        }
        None
    }

    /// Lists the keys that the agent serves.
    pub fn request_identities(&self) -> (r: Vec<Identity>)
        ensures
            identities_view(r@) == shown(keys_view(self.keys@)),
    {
        let mut out: Vec<Identity> = Vec::new();
        let ghost all = shown(keys_view(self.keys@));
        for i in 0..self.keys.len()
            invariant
                all == shown(keys_view(self.keys@)),
                identities_view(out@) == all.take(i as int),
        {
            let ghost before = identities_view(out@);
            let k: &CachedKey = &self.keys[i];
            out.push(
                Identity { pubkey: copy_public_key(&k.public_key), comment: k.comment.clone() },
            );
            assert(identities_view(out@) =~= before.push(all[i as int]));
            assert(all.take(i + 1) =~= all.take(i as int).push(all[i as int]));
        }
        assert(all.take(self.keys@.len() as int) =~= all);
        out
    }

    /// Forgets the PIN. What is sent along is not looked at.
    pub fn lock(&mut self, _key: &str)
        ensures
            final(self).pin is None,
            final(self).keys == old(self).keys,
    {
        self.forget_pin();
    }

    /// Remembers a PIN in place of any other.
    pub fn unlock(&mut self, key: String)
        ensures
            final(self).pin == Some(key),
            final(self).keys == old(self).keys,
    {
        self.forget_pin();
        self.pin = Some(key);
    }

    /// The remembered PIN, for an operation that needs one.
    pub fn cached_pin(&self) -> (r: Option<AcquiredPin>)
        ensures
            match self.pin {
                Some(p) => r is Some && r->0.pin == p && !r->0.fresh,
                None => r is None,
            },
    {
        match &self.pin {
            Some(p) => Some(AcquiredPin { pin: p.clone(), fresh: false }),
            None => None,
        }
    }

    /// Keeps a PIN that was just asked for, now that the card accepted it.
    pub fn cache_pin(&mut self, acquired: &AcquiredPin)
        ensures
            final(self).pin == if acquired.fresh {
                Some(acquired.pin)
            } else {
                old(self).pin
            },
            final(self).keys == old(self).keys,
    {
        if acquired.fresh {
            self.forget_pin();
            self.pin = Some(acquired.pin.clone());
        }
    }

    /// Forgets a PIN that the card rejected.
    pub fn forget_pin(&mut self)
        ensures
            final(self).pin is None,
            final(self).keys == old(self).keys,
    {
        let mut gone: Option<String> = None;
        swap(&mut gone, &mut self.pin);
        discard_any(gone);
    }
}

// --------------------------------------------------------------- extensions

/// The extensions that the agent serves.
#[derive(Clone, Copy, Debug, PartialEq, Eq, Structural)]
pub enum ExtensionKind {
    Query,
    SessionBind,
    PinStatus,
    Ecdh,
    EcdhRebox,
    Attest,
}

/// The name of each extension.
pub open spec fn extension_name(k: ExtensionKind) -> Seq<char> {
    match k {
        ExtensionKind::Query => "query"@,
        ExtensionKind::SessionBind => "session-bind@openssh.com"@,
        ExtensionKind::PinStatus => "pin-status@joyent.com"@,
        ExtensionKind::Ecdh => "ecdh@joyent.com"@,
        ExtensionKind::EcdhRebox => "ecdh-rebox@joyent.com"@,
        ExtensionKind::Attest => "ykpiv-attest@joyent.com"@,
    }
}

/// The request number under which extensions are sent.
pub const EXTENSION_COMMAND: u8 = 27;

/// No two extensions share a name, so a name is recognised as at most one.
pub proof fn law_extension_names_differ(a: ExtensionKind, b: ExtensionKind)
    requires
        extension_name(a) == extension_name(b),
    ensures
        a == b,
{
    reveal_strlit("query");
    reveal_strlit("session-bind@openssh.com");
    reveal_strlit("pin-status@joyent.com");
    reveal_strlit("ecdh@joyent.com");
    reveal_strlit("ecdh-rebox@joyent.com");
    reveal_strlit("ykpiv-attest@joyent.com");
    assert("query"@.len() == 5);
    assert("session-bind@openssh.com"@.len() == 24);
    assert("pin-status@joyent.com"@.len() == 21);
    assert("ecdh@joyent.com"@.len() == 15);
    assert("ecdh-rebox@joyent.com"@.len() == 21);
    assert("ykpiv-attest@joyent.com"@.len() == 23);
    assert("pin-status@joyent.com"@[0] != "ecdh-rebox@joyent.com"@[0]);
}

/// Recognises an extension by its exact name; any other is a request that
/// the agent does not serve.
pub fn extension_kind(name: &str) -> (r: Result<ExtensionKind, AgentError>)
    ensures
        match r {
            Ok(k) => name@ == extension_name(k),
            Err(e) => e@ == ErrorView::UnsupportedCommand(EXTENSION_COMMAND) && forall|
                k: ExtensionKind,
            | #[trigger] extension_name(k) != name@,
        },
{
    if same(name, "query") {
        Ok(ExtensionKind::Query)
    } else if same(name, "session-bind@openssh.com") {
        Ok(ExtensionKind::SessionBind)
    } else if same(name, "pin-status@joyent.com") {
        Ok(ExtensionKind::PinStatus)
    } else if same(name, "ecdh@joyent.com") {
        Ok(ExtensionKind::Ecdh)
    } else if same(name, "ecdh-rebox@joyent.com") {
        Ok(ExtensionKind::EcdhRebox)
    } else if same(name, "ykpiv-attest@joyent.com") {
        Ok(ExtensionKind::Attest)
    } else {
        Err(AgentError::UnsupportedCommand(EXTENSION_COMMAND))
    }
}

/// The bytes of a name.
pub open spec fn name_bytes(k: ExtensionKind) -> Seq<u8> {
    vstd::utf8::encode_utf8(extension_name(k))
}

/// The reply to a query: the name of every extension as a length-prefixed
/// string.
pub open spec fn query_details() -> Seq<u8> {
    ssh_string(name_bytes(ExtensionKind::Query)) + ssh_string(
        name_bytes(ExtensionKind::SessionBind),
    ) + ssh_string(name_bytes(ExtensionKind::PinStatus)) + ssh_string(
        name_bytes(ExtensionKind::Ecdh),
    ) + ssh_string(name_bytes(ExtensionKind::EcdhRebox)) + ssh_string(
        name_bytes(ExtensionKind::Attest),
    )
}

/// What the agent says of its PIN and its cards, one byte each.
pub open spec fn status_bytes(knows_pin: bool, has_cards: bool) -> Seq<u8> {
    seq![
        if knows_pin {
            1u8
        } else {
            0u8
        },
        if has_cards {
            1u8
        } else {
            0u8
        },
    ]
}

/// Answers a query for the extensions that are served.
pub fn query_reply() -> (r: Extension)
    ensures
        r.name@ == extension_name(ExtensionKind::Query),
        r.details@ == query_details(),
{
    let mut out: Vec<u8> = Vec::new();
    put_string(&mut out, "query".as_bytes());
    put_string(&mut out, "session-bind@openssh.com".as_bytes());
    put_string(&mut out, "pin-status@joyent.com".as_bytes());
    put_string(&mut out, "ecdh@joyent.com".as_bytes());
    put_string(&mut out, "ecdh-rebox@joyent.com".as_bytes());
    put_string(&mut out, "ykpiv-attest@joyent.com".as_bytes());
    assert(Seq::<u8>::empty() + ssh_string(name_bytes(ExtensionKind::Query)) =~= ssh_string(
        name_bytes(ExtensionKind::Query),
    ));
    Extension { name: "query".to_owned(), details: out }
}

impl PiggyAgent {
    /// Says in two bytes whether a PIN is remembered and whether a key is
    /// served.
    pub fn pin_status_reply(&self) -> (r: Extension)
        ensures
            r.details@ == status_bytes(self.pin is Some, self.keys@.len() > 0),
            r.name@ == extension_name(ExtensionKind::PinStatus),
            r.details@ == seq![
                if self.pin is Some {
                    1u8
                } else {
                    0u8
                },
                if self.keys@.len() > 0 {
                    1u8
                } else {
                    0u8
                },
            ],
    {
        let has_pin: u8 = if self.pin.is_some() {
            1
        } else {
            0
        };
        let has_card: u8 = if self.keys.len() > 0 {
            1
        } else {
            0
        };
        let mut out: Vec<u8> = Vec::new();
        out.push(has_pin);
        out.push(has_card);
        assert(out@ =~= seq![has_pin, has_card]);
        Extension { name: "pin-status@joyent.com".to_owned(), details: out }
    }
}

// ------------------------------------------------------ what the card is asked

/// What a signing request asks of a card: the key's place in the list and
/// the data to sign.
pub struct SignPlan {
    pub key: usize,
    pub data: Vec<u8>,
}

/// What a key agreement asks of a card: the key's place in the list, the
/// slot to use and the other side's point.
pub struct EcdhPlan {
    pub key: usize,
    pub slot: u8,
    pub point: Vec<u8>,
}

/// The key and the data of a signing request. A key that is not served is
/// refused before any card is touched.
pub open spec fn sign_plan(
    keys: Seq<CachedView>,
    blob: Seq<u8>,
    data: Seq<u8>,
    flags: u32,
) -> Result<(int, Seq<u8>), ErrorView> {
    let i = key_with_blob(keys, blob, 0);
    if i >= keys.len() {
        other("key not found"@)
    } else {
        Ok((i, sign_data(keys[i].algorithm, data, flags)))
    }
}

/// The key and the point of a key agreement, once the agent's key was read
/// from the request.
pub open spec fn ecdh_plan(
    keys: Seq<CachedView>,
    card_key: KeyView,
    partner: Seq<u8>,
) -> Result<(int, Seq<u8>), ErrorView> {
    let i = key_with_blob(keys, card_key.blob, 0);
    if i >= keys.len() {
        other("ecdh: key not found"@)
    } else {
        match blob_point(partner) {
            Err(e) => other(e),
            Ok(p) => if keys[i].algorithm is EcP256 || keys[i].algorithm is EcP384 {
                Ok((i, p))
            } else {
                other("ecdh: key is not an EC key"@)
            },
        }
    }
}

/// The key and the point of a key agreement.
pub open spec fn ecdh_outcome(keys: Seq<CachedView>, details: Seq<u8>) -> Result<
    (int, Seq<u8>),
    ErrorView,
> {
    match ecdh_request(details) {
        Err(e) => other(e),
        Ok((blob, partner)) => match ssh_key_of(blob) {
            Err(e) => other("ecdh: bad card key: "@ + e),
            Ok(k) => ecdh_plan(keys, k, partner),
        },
    }
}

/// The key that an attestation is asked for, once it was read from the
/// request.
pub open spec fn attest_plan(keys: Seq<CachedView>, card_key: KeyView) -> Result<int, ErrorView> {
    let i = key_with_blob(keys, card_key.blob, 0);
    if i >= keys.len() {
        other("attest: key not found"@)
    } else {
        Ok(i)
    }
}

/// The key that an attestation is asked for.
pub open spec fn attest_outcome(keys: Seq<CachedView>, details: Seq<u8>) -> Result<
    int,
    ErrorView,
> {
    match attest_request(details) {
        Err(e) => other(e),
        Ok(blob) => match ssh_key_of(blob) {
            Err(e) => other("attest: bad card key: "@ + e),
            Ok(k) => attest_plan(keys, k),
        },
    }
}

impl PiggyAgent {
    /// Decides what a signing request asks of which card.
    pub fn plan_sign(&self, blob: &[u8], data: &[u8], flags: u32) -> (r: Result<
        SignPlan,
        AgentError,
    >)
        ensures
            match r {
                Ok(p) => sign_plan(keys_view(self.keys@), blob@, data@, flags) == Ok::<
                    (int, Seq<u8>),
                    ErrorView,
                >((p.key as int, p.data@)) && p.key < self.keys@.len(),
                Err(e) => sign_plan(keys_view(self.keys@), blob@, data@, flags) == Err::<
                    (int, Seq<u8>),
                    ErrorView,
                >(e@),
            },
    {
        match self.find_key(blob) {
            None => Err(AgentError::Other("key not found".to_owned())),
            Some(i) => {
                assert(keys_view(self.keys@)[i as int] == self.keys@[i as int]@);
                match prepare_sign_data(self.keys[i].algorithm, data, flags) {
                    Ok(d) => Ok(SignPlan { key: i, data: d }),
                    Err(e) => Err(e),
                }
            },
        }
    }

    /// Decides a key agreement whose agent key was read already.
    pub fn plan_ecdh_with(&self, card_key: &PublicKey, partner: &[u8]) -> (r: Result<
        EcdhPlan,
        AgentError,
    >)
        ensures
            match r {
                Ok(p) => ecdh_plan(keys_view(self.keys@), card_key@, partner@) == Ok::<
                    (int, Seq<u8>),
                    ErrorView,
                >((p.key as int, p.point@)) && p.key < self.keys@.len() && p.slot
                    == self.keys@[p.key as int].slot_id,
                Err(e) => ecdh_plan(keys_view(self.keys@), card_key@, partner@) == Err::<
                    (int, Seq<u8>),
                    ErrorView,
                >(e@),
            },
    {
        match self.find_key(card_key.blob.as_slice()) {
            None => Err(AgentError::Other("ecdh: key not found".to_owned())),
            Some(i) => {
                assert(keys_view(self.keys@)[i as int] == self.keys@[i as int]@);
                let point: Vec<u8> = match extract_ec_point_from_ssh_blob(partner) {
                    Err(e) => return Err(AgentError::Other(e)),
                    Ok(p) => p,
                };
                match self.keys[i].algorithm {
                    PivAlgorithm::EcP256 | PivAlgorithm::EcP384 => Ok(
                        EcdhPlan { key: i, slot: self.keys[i].slot_id, point },
                    ),
                    _ => Err(AgentError::Other("ecdh: key is not an EC key".to_owned())),
                }
            },
        }
    }

    /// Decides what a key agreement asks of which card.
    pub fn plan_ecdh(&self, details: &[u8]) -> (r: Result<EcdhPlan, AgentError>)
        ensures
            match r {
                Ok(p) => ecdh_outcome(keys_view(self.keys@), details@) == Ok::<
                    (int, Seq<u8>),
                    ErrorView,
                >((p.key as int, p.point@)) && p.key < self.keys@.len() && p.slot
                    == self.keys@[p.key as int].slot_id,
                Err(e) => ecdh_outcome(keys_view(self.keys@), details@) == Err::<
                    (int, Seq<u8>),
                    ErrorView,
                >(e@),
            },
    {
        match parse_ecdh_request(details) {
            Err(e) => Err(AgentError::Other(e)),
            Ok((blob, partner)) => match ssh_key_from_bytes(blob) {
                Err(e) => Err(AgentError::Other(cat2("ecdh: bad card key: ", e.as_str()))),
                Ok(k) => self.plan_ecdh_with(&k, partner),
            },
        }
    }

    /// Decides an attestation whose key was read already.
    pub fn plan_attest_with(&self, card_key: &PublicKey) -> (r: Result<usize, AgentError>)
        ensures
            match r {
                Ok(i) => attest_plan(keys_view(self.keys@), card_key@) == Ok::<int, ErrorView>(
                    i as int,
                ) && i < self.keys@.len(),
                Err(e) => attest_plan(keys_view(self.keys@), card_key@) == Err::<int, ErrorView>(
                    e@,
                ),
            },
    {
        match self.find_key(card_key.blob.as_slice()) {
            None => Err(AgentError::Other("attest: key not found".to_owned())),
            Some(i) => Ok(i),
        }
    }

    /// Decides which key an attestation is asked for.
    pub fn plan_attest(&self, details: &[u8]) -> (r: Result<usize, AgentError>)
        ensures
            match r {
                Ok(i) => attest_outcome(keys_view(self.keys@), details@) == Ok::<int, ErrorView>(
                    i as int,
                ) && i < self.keys@.len(),
                Err(e) => attest_outcome(keys_view(self.keys@), details@) == Err::<
                    int,
                    ErrorView,
                >(e@),
            },
    {
        match parse_attest_request(details) {
            Err(e) => Err(AgentError::Other(e)),
            Ok(blob) => match ssh_key_from_bytes(blob) {
                Err(e) => Err(AgentError::Other(cat2("attest: bad card key: ", e.as_str()))),
                Ok(k) => self.plan_attest_with(&k),
            },
        }
    }
}

// ------------------------------------------------------- sealing a box anew

/// What a sealed box says of itself.
pub struct BoxInfo {
    /// The card and slot it was sealed to, where it names them.
    pub guid_slot: Option<(Guid, u8)>,
    /// The key it was sealed to.
    pub recipient_pubkey: Vec<u8>,
    /// The point to derive the secret with.
    pub ephemeral_pubkey: Vec<u8>,
    pub curve: EcCurve,
}

/// The key with the given point in either form; none has a point that
/// cannot be brought to uncompressed form.
pub open spec fn recipient_key(keys: Seq<CachedView>, recipient: Seq<u8>) -> int {
    match canonical_point(recipient) {
        Some(want) => key_with_point(keys, want, 0),
        None => keys.len() as int,
    }
}

/// The key that opens a box and the slot to use: by card and slot where
/// the box names them, else by the key it was sealed to.
pub open spec fn box_key(keys: Seq<CachedView>, b: BoxInfo) -> Result<(int, u8), ErrorView> {
    match b.guid_slot {
        Some((guid, slot)) => {
            let i = key_on_card(keys, guid@, 0);
            if i >= keys.len() {
                other("ecdh-rebox: no matching key for GUID"@)
            } else {
                Ok((i, slot))
            }
        },
        None => {
            let i = recipient_key(keys, b.recipient_pubkey@);
            if i >= keys.len() {
                other("ecdh-rebox: no agent key matches the box recipient"@)
            } else {
                Ok((i, keys[i].slot_id))
            }
        },
    }
}

/// What opening a box asks of a card: the key's place in the list, the slot,
/// and the box's own point, spelled out on its curve.
pub open spec fn rebox_plan(keys: Seq<CachedView>, b: BoxInfo) -> Option<(int, u8, Seq<u8>)> {
    match box_key(keys, b) {
        Err(_) => None,
        Ok((key, slot)) => match sec1_point(b.ephemeral_pubkey@, b.curve is NistP384, false) {
            Some(point) => Some((key, slot, point)),
            None => None,
        },
    }
}

/// The words for a point that could not be converted.
pub open spec fn decompress_error(step: EcStep, e: Seq<char>) -> Seq<char> {
    match step {
        EcStep::Group => "ec group: "@ + e,
        EcStep::Context => "bn ctx: "@ + e,
        EcStep::Decode => "ec decompress: "@ + e,
        EcStep::Encode => "ec to_bytes: "@ + e,
    }
}

/// Whether an error is that of a point that could not be converted.
pub open spec fn is_decompress_error(e: ErrorView) -> bool {
    exists|step: EcStep, said: Seq<char>|
        e == ErrorView::Other(#[trigger] decompress_error(step, said))
}

/// Reports the outcome of converting a point.
pub fn decompress_outcome(converted: Result<Vec<u8>, (EcStep, String)>) -> (r: Result<
    Vec<u8>,
    AgentError,
>)
    ensures
        match converted {
            Ok(p) => r == Ok::<Vec<u8>, AgentError>(p),
            Err((step, e)) => r is Err && r->Err_0@ == ErrorView::Other(
                decompress_error(step, e@),
            ),
        },
{
    match converted {
        Ok(p) => Ok(p),
        Err((EcStep::Group, e)) => Err(AgentError::Other(cat2("ec group: ", e.as_str()))),
        Err((EcStep::Context, e)) => Err(AgentError::Other(cat2("bn ctx: ", e.as_str()))),
        Err((EcStep::Decode, e)) => Err(AgentError::Other(cat2("ec decompress: ", e.as_str()))),
        Err((EcStep::Encode, e)) => Err(AgentError::Other(cat2("ec to_bytes: ", e.as_str()))),
    }
}

/// Brings a point to uncompressed form.
pub fn decompress_ec_point(compressed: &[u8], curve: EcCurve) -> (r: Result<Vec<u8>, AgentError>)
    ensures
        match r {
            Ok(p) => sec1_point(compressed@, curve is NistP384, false) == Some(p@),
            Err(e) => sec1_point(compressed@, curve is NistP384, false) is None
                && is_decompress_error(e@),
        },
{
    let converted: Result<Vec<u8>, (EcStep, String)> = ec_convert(compressed, curve, false);
    let ghost failed = converted;
    let r: Result<Vec<u8>, AgentError> = decompress_outcome(converted);
    proof {
        if let Err((step, e)) = failed {
            assert(r->Err_0@ == ErrorView::Other(decompress_error(step, e@)));
        }
    }
    r
}

impl PiggyAgent {
    /// Finds the key that a box was sealed to, by its public key. A key
    /// whose point cannot be brought to uncompressed form is not found.
    pub fn find_key_by_recipient_pubkey(&self, recipient: &[u8]) -> (r: Option<(usize, u8)>)
        ensures
            match r {
                Some((i, slot)) => i < self.keys@.len() && i == recipient_key(
                    keys_view(self.keys@),
                    recipient@,
                ) && slot == self.keys@[i as int].slot_id,
                None => recipient_key(keys_view(self.keys@), recipient@) == self.keys@.len(),
            },
    {
        match canonicalize_uncompressed(recipient) {
            Err(_) => None,
            Ok(want) => match self.find_key_by_point(want.as_slice()) {
                Some(i) => Some((i, self.keys[i].slot_id)),
                None => None,
            },
        }
    }

    /// Decides which key opens a box. Where the box names no card and its
    /// recipient's point cannot be converted, no key matches.
    pub fn find_box_key(&self, b: &BoxInfo) -> (r: Result<(usize, u8), AgentError>)
        ensures
            match r {
                Ok((i, slot)) => i < self.keys@.len() && box_key(keys_view(self.keys@), *b)
                    == Ok::<(int, u8), ErrorView>((i as int, slot)),
                Err(e) => box_key(keys_view(self.keys@), *b) == Err::<(int, u8), ErrorView>(e@),
            },
    {
        match &b.guid_slot {
            Some((guid, slot)) => match self.find_key_by_guid(guid) {
                Some(i) => Ok((i, *slot)),
                None => Err(AgentError::Other("ecdh-rebox: no matching key for GUID".to_owned())),
            },
            None => match self.find_key_by_recipient_pubkey(b.recipient_pubkey.as_slice()) {
                Some((i, slot)) => {
                    assert(keys_view(self.keys@)[i as int] == self.keys@[i as int]@);
                    Ok((i, slot))
                },
                None => Err(
                    AgentError::Other(
                        "ecdh-rebox: no agent key matches the box recipient".to_owned(),
                    ),
                ),
            },
        }
    }

    /// Decides what opening a box asks of which card.
    pub fn plan_rebox(&self, b: &BoxInfo) -> (r: Result<EcdhPlan, AgentError>)
        ensures
            match r {
                Ok(p) => rebox_plan(keys_view(self.keys@), *b) == Some(
                    (p.key as int, p.slot, p.point@),
                ),
                Err(_) => rebox_plan(keys_view(self.keys@), *b) is None,
            },
            match box_key(keys_view(self.keys@), *b) {
                Err(e) => r is Err && r->Err_0@ == e,
                Ok((key, slot)) => match sec1_point(
                    b.ephemeral_pubkey@,
                    b.curve is NistP384,
                    false,
                ) {
                    Some(point) => {
                        &&& r is Ok
                        &&& r->Ok_0.key == key < self.keys@.len()
                        &&& r->Ok_0.slot == slot
                        &&& r->Ok_0.point@ == point
                    },
                    None => r is Err && is_decompress_error(r->Err_0@),
                },
            },
    {
        match self.find_box_key(b) {
            Err(e) => Err(e),
            Ok((key, slot)) => match decompress_ec_point(b.ephemeral_pubkey.as_slice(), b.curve) {
                Err(e) => Err(e),
                Ok(point) => Ok(EcdhPlan { key, slot, point }),
            },
        }
    }
}

/// The card and slot that the new box names: none where the request leaves
/// the card out.
pub open spec fn rebox_target_of(guid: Seq<u8>, slot: u8) -> Result<
    Option<(Seq<u8>, u8)>,
    Seq<char>,
> {
    if guid.len() == 0 {
        Ok(None)
    } else if guid.len() == 16 {
        Ok(Some((guid, slot)))
    } else {
        Err("ecdh-rebox: bad target GUID: "@ + guid_length_flaw(guid.len()))
    }
}

/// Decides the card and slot that the new box names.
pub fn rebox_target(request: &ReboxRequest) -> (r: Result<Option<(Guid, u8)>, AgentError>)
    ensures
        match r {
            Ok(None) => rebox_target_of(request.guid@, request.slot) == Ok::<
                Option<(Seq<u8>, u8)>,
                Seq<char>,
            >(None),
            Ok(Some((g, slot))) => rebox_target_of(request.guid@, request.slot) == Ok::<
                Option<(Seq<u8>, u8)>,
                Seq<char>,
            >(Some((g@, slot))),
            Err(e) => rebox_target_of(request.guid@, request.slot) is Err && e@
                == ErrorView::Other(rebox_target_of(request.guid@, request.slot)->Err_0),
        },
{
    if request.guid.len() == 0 {
        return Ok(None);
    }
    match Guid::from_bytes(request.guid.as_slice()) {
        Ok(g) => Ok(Some((g, request.slot))),
        Err(e) => Err(AgentError::Other(cat2("ecdh-rebox: bad target GUID: ", e.as_str()))),
    }
}

// ------------------------------------------------------------------ replies

/// The reply of an extension that returns one string.
pub fn string_reply(kind: ExtensionKind, body: &[u8]) -> (r: Extension)
    requires
        kind is Ecdh || kind is EcdhRebox,
    ensures
        r.name@ == extension_name(kind),
        r.details@ == ssh_string(body@),
{
    let mut out: Vec<u8> = Vec::new();
    put_string(&mut out, body);
    assert(out@ =~= ssh_string(body@));
    let name: &str = match kind {
        ExtensionKind::Ecdh => "ecdh@joyent.com",
        _ => "ecdh-rebox@joyent.com",
    };
    Extension { name: name.to_owned(), details: out }
}

/// The certificates of an attestation: how many, then each as a string.
pub open spec fn attest_details(cert: Seq<u8>, device: Option<Seq<u8>>) -> Seq<u8> {
    match device {
        None => be32(1) + ssh_string(cert),
        Some(d) => be32(2) + ssh_string(cert) + ssh_string(d),
    }
}

/// The reply to an attestation: the slot's certificate, then that of the
/// device where it could be read.
pub fn attest_reply(cert: &[u8], device: &Option<Vec<u8>>) -> (r: Extension)
    ensures
        r.name@ == extension_name(ExtensionKind::Attest),
        r.details@ == attest_details(cert@, opt_bytes(*device)),
{
    let mut out: Vec<u8> = Vec::new();
    match device {
        None => {
            put_u32(&mut out, 1);
            put_string(&mut out, cert);
        },
        Some(d) => {
            put_u32(&mut out, 2);
            put_string(&mut out, cert);
            put_string(&mut out, d.as_slice());
        },
    }
    assert(out@ =~= attest_details(cert@, opt_bytes(*device)));
    Extension { name: "ykpiv-attest@joyent.com".to_owned(), details: out }
}

// -------------------------------------------------- one operation on a card

/// How far an operation on a card has got.
pub enum Phase {
    /// A PIN has to be had, from memory or from the user.
    NeedPin,
    /// The card has to be reached and a session begun on it.
    Connect,
    /// The PIN has to be verified within the session.
    Verify,
    /// The operation itself has to be done within the session.
    Operate,
    /// The operation was given up.
    Failed,
}

/// One operation on a card. The PIN is had before the session begins, so
/// that no session waits for a human; the operation runs in the session
/// that verified the PIN. A wrong PIN is asked for again, but not often.
pub struct CardRequest {
    pub slot: u8,
    pub phase: Phase,
    pub pin: Option<AcquiredPin>,
    /// Wrong PINs so far.
    pub attempt: u32,
    /// PINs that were given to the card so far.
    pub verifies: u32,
    /// Whether the card accepted the PIN of this session.
    pub verified: bool,
}

/// What the card said of a PIN.
pub enum Verdict {
    Accepted,
    /// The PIN was wrong; the words of the error.
    Wrong(String),
    /// Something else went wrong; the words of the error.
    Failed(String),
}

/// Where an operation stands after the card was given a PIN, when so many
/// were wrong before.
pub open spec fn phase_after(attempt: nat, verdict: Verdict) -> Phase {
    match verdict {
        Verdict::Accepted => Phase::Operate,
        Verdict::Wrong(_) => if attempt < PIN_RETRY_LIMIT {
            Phase::NeedPin
        } else {
            Phase::Failed
        },
        Verdict::Failed(_) => Phase::Failed,
    }
}

/// The PIN that the agent remembers after the card was given one.
pub open spec fn remembered_after(
    known: Option<String>,
    given: AcquiredPin,
    attempt: nat,
    verdict: Verdict,
) -> Option<String> {
    match verdict {
        Verdict::Accepted => if given.fresh {
            Some(given.pin)
        } else {
            known
        },
        Verdict::Wrong(_) => if attempt < PIN_RETRY_LIMIT {
            None
        } else {
            known
        },
        Verdict::Failed(_) => known,
    }
}

impl CardRequest {
    /// Whether the slot's key works only with a PIN.
    pub open spec fn needs_pin(self) -> bool {
        self.slot != CARD_AUTH_SLOT
    }

    /// What holds of every operation: no more PINs are given to the card
    /// than the limit allows, and nothing is done with a key that needs a
    /// PIN before the card accepted one.
    pub open spec fn wf(self) -> bool {
        &&& self.attempt <= PIN_RETRY_LIMIT
        &&& self.verifies <= PIN_RETRY_LIMIT + 1
        &&& self.verifies <= self.attempt + 1
        &&& !(self.phase is Failed || self.phase is Operate) ==> self.verifies == self.attempt
        &&& self.phase is Operate ==> self.verified || !self.needs_pin()
        &&& self.phase is NeedPin ==> self.needs_pin()
        &&& self.phase is Verify ==> self.pin is Some && self.needs_pin()
        &&& self.phase is Connect ==> (self.pin is Some <==> self.needs_pin())
        &&& self.verified ==> self.verifies > 0
    }

    /// Starts an operation on the given slot.
    pub fn new(slot: u8) -> (r: CardRequest)
        ensures
            r.wf(),
            r.slot == slot,
            r.attempt == 0 && r.verifies == 0 && !r.verified,
            r.pin is None,
            if slot != CARD_AUTH_SLOT {
                r.phase is NeedPin
            } else {
                r.phase is Connect
            },
    {
        CardRequest {
            slot,
            phase: if slot != CARD_AUTH_SLOT {
                Phase::NeedPin
            } else {
                Phase::Connect
            },
            pin: None,
            attempt: 0,
            verifies: 0,
            verified: false,
        }
    }

    /// Takes the PIN that was remembered or asked for.
    pub fn on_pin(&mut self, acquired: AcquiredPin)
        requires
            old(self).wf(),
            old(self).phase is NeedPin,
        ensures
            final(self).wf(),
            final(self).phase is Connect,
            final(self).pin == Some(acquired),
            final(self).slot == old(self).slot,
            final(self).attempt == old(self).attempt,
            final(self).verifies == old(self).verifies,
            final(self).verified == old(self).verified,
    {
        self.pin = Some(acquired);
        self.phase = Phase::Connect;
    }

    /// Takes note of a session on the card.
    pub fn on_session(&mut self)
        requires
            old(self).wf(),
            old(self).phase is Connect,
        ensures
            final(self).wf(),
            if old(self).needs_pin() {
                final(self).phase is Verify
            } else {
                final(self).phase is Operate
            },
            final(self).slot == old(self).slot,
            final(self).pin == old(self).pin,
            final(self).attempt == old(self).attempt,
            final(self).verifies == old(self).verifies,
            final(self).verified == old(self).verified,
    {
        self.phase = if self.slot != CARD_AUTH_SLOT {
            Phase::Verify
        } else {
            Phase::Operate
        };
    }

    fn drop_pin(&mut self)
        ensures
            final(self).pin is None,
            final(self).slot == old(self).slot,
            final(self).phase == old(self).phase,
            final(self).attempt == old(self).attempt,
            final(self).verifies == old(self).verifies,
            final(self).verified == old(self).verified,
    {
        let mut gone: Option<AcquiredPin> = None;
        swap(&mut gone, &mut self.pin);
        if let Some(acquired) = gone {
            discard(acquired.pin);
        }
    }

    /// Gives up: no PIN could be had, the card could not be reached, or the
    /// operation itself failed.
    pub fn on_failure(&mut self)
        requires
            old(self).wf(),
        ensures
            final(self).wf(),
            final(self).phase is Failed,
            final(self).slot == old(self).slot,
            final(self).pin == old(self).pin,
            final(self).attempt == old(self).attempt,
            final(self).verifies == old(self).verifies,
            final(self).verified == old(self).verified,
    {
        self.phase = Phase::Failed;
    }

    /// Takes the card's verdict on the PIN. An accepted PIN is remembered
    /// if it was just asked for. A wrong one is forgotten and asked for
    /// again up to the limit; after that, and on any other failure, the
    /// operation is given up with the error.
    pub fn on_verdict(&mut self, agent: &mut PiggyAgent, verdict: Verdict) -> (r: Option<
        AgentError,
    >)
        requires
            old(self).wf(),
            old(self).phase is Verify,
        ensures
            final(self).wf(),
            final(self).slot == old(self).slot,
            final(self).verifies == old(self).verifies + 1,
            final(agent).keys == old(agent).keys,
            final(self).phase == phase_after(old(self).attempt as nat, verdict),
            final(agent).pin == remembered_after(
                old(agent).pin,
                old(self).pin->0,
                old(self).attempt as nat,
                verdict,
            ),
            match verdict {
                Verdict::Accepted => {
                    &&& r is None
                    &&& final(self).phase is Operate
                    &&& final(self).verified
                    &&& final(self).pin == old(self).pin
                    &&& final(self).attempt == old(self).attempt
                    &&& final(agent).pin == if old(self).pin->0.fresh {
                        Some(old(self).pin->0.pin)
                    } else {
                        old(agent).pin
                    }
                },
                Verdict::Wrong(e) => if old(self).attempt < PIN_RETRY_LIMIT {
                    &&& r is None
                    &&& final(self).phase is NeedPin
                    &&& final(self).pin is None
                    &&& final(self).verified == old(self).verified
                    &&& final(self).attempt == old(self).attempt + 1
                    &&& final(agent).pin is None
                } else {
                    &&& r is Some && r->0@ == ErrorView::Other(e@)
                    &&& final(self).phase is Failed
                    &&& final(self).pin == old(self).pin
                    &&& final(self).verified == old(self).verified
                    &&& final(self).attempt == old(self).attempt
                    &&& final(agent).pin == old(agent).pin
                },
                Verdict::Failed(e) => {
                    &&& r is Some && r->0@ == ErrorView::Other(e@)
                    &&& final(self).phase is Failed
                    &&& final(self).pin == old(self).pin
                    &&& final(self).verified == old(self).verified
                    &&& final(self).attempt == old(self).attempt
                    &&& final(agent).pin == old(agent).pin
                },
            },
    {
        self.verifies = self.verifies + 1;
        match verdict {
            Verdict::Accepted => {
                if let Some(p) = &self.pin {
                    agent.cache_pin(p);
                }
                self.verified = true;
                self.phase = Phase::Operate;
                None
            },
            Verdict::Wrong(e) => {
                if self.attempt < PIN_RETRY_LIMIT {
                    self.attempt = self.attempt + 1;
                    agent.forget_pin();
                    self.drop_pin();
                    self.phase = Phase::NeedPin;
                    None
                } else {
                    self.phase = Phase::Failed;
                    Some(AgentError::Other(e))
                }
            },
            Verdict::Failed(e) => {
                self.phase = Phase::Failed;
                Some(AgentError::Other(e))
            },
        }
    }
}

} // verus!
