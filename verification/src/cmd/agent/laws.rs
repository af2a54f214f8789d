//! What holds across the agent's functions.
use crate::cmd::agent::session::{
    attest_outcome, blob_point, box_key, ecdh_outcome, ecdh_request, flags_at, key_on_card,
    key_with_blob, key_with_point, pkcs1_block, rebox_request, shown, sign_plan, signature_data, signature_name,
    signature_outcome, string_at, BoxInfo, CachedView, ErrorView, RSA_DIGEST_PREFIX_SHA256,
    RSA_DIGEST_PREFIX_SHA512,
};
use crate::crypto::{sec1_point, sha256_of, sha384_of, sha512_of, ssh_key_of, KeyView};
use crate::ecdsa_sig::{der_of_blob, der_signature, law_forward_path_is_inverted};
use crate::piv::{Guid, PivAlgorithm};
use crate::wire::{
    be32, be32_value, lemma_be32_len, lemma_be32_round_trip, lemma_field_of_string, ssh_string,
};
use vstd::prelude::*;

verus! {

/// A signature block is as long as the key, starts with zero and one, has
/// at least eight bytes of padding, and ends in the digest behind its
/// header: whoever strips the padding finds the digest that went in.
pub proof fn law_signature_block_layout(hash: Seq<u8>, prefix: Seq<u8>, key_size: nat)
    requires
        key_size >= prefix.len() + hash.len() + 11,
    ensures
        ({
            let b = pkcs1_block(hash, prefix, key_size);
            let sep = key_size - prefix.len() - hash.len() - 1;
            &&& b.len() == key_size
            &&& b[0] == 0x00 && b[1] == 0x01
            &&& sep >= 10
            &&& forall|i: int| 2 <= i < sep ==> b[i] == 0xFF
            &&& b[sep] == 0x00
            &&& b.subrange(sep + 1, sep + 1 + prefix.len()) == prefix
            &&& b.subrange(key_size - hash.len(), key_size as int) == hash
        }),
{
    let b = pkcs1_block(hash, prefix, key_size);
    let sep = key_size - prefix.len() - hash.len() - 1;
    assert(b.subrange(sep + 1, sep + 1 + prefix.len()) =~= prefix);
    assert(b.subrange(key_size - hash.len(), key_size as int) =~= hash);
}

/// What the agent makes of a card's elliptic-curve signature can be turned
/// back: reframed as DER it holds the integers that the card returned.
pub proof fn law_agent_signature_can_be_turned_back(alg: PivAlgorithm, sig: Seq<u8>)
    requires
        alg is EcP256 || alg is EcP384,
        signature_data(alg, sig) is Ok,
        (der_signature(sig)->Ok_0).0.len() > 0,
        (der_signature(sig)->Ok_0).1.len() > 0,
    ensures
        der_of_blob(signature_data(alg, sig)->Ok_0) is Ok,
        der_signature(der_of_blob(signature_data(alg, sig)->Ok_0)->Ok_0) == der_signature(sig),
{
    law_forward_path_is_inverted(sig);
}

proof fn lemma_no_such_key(keys: Seq<CachedView>, blob: Seq<u8>, i: int)
    requires
        0 <= i <= keys.len(),
        forall|j: int| i <= j < keys.len() ==> (#[trigger] keys[j]).public_key.blob != blob,
    ensures
        key_with_blob(keys, blob, i) == keys.len(),
    decreases keys.len() - i,
{
    if i < keys.len() {
        lemma_no_such_key(keys, blob, i + 1);
    }
}

/// A key that the agent does not serve is refused, whatever is to be
/// signed, without any card being asked.
pub proof fn law_unknown_key_is_refused(
    keys: Seq<CachedView>,
    blob: Seq<u8>,
    data: Seq<u8>,
    flags: u32,
)
    requires
        forall|j: int| 0 <= j < keys.len() ==> (#[trigger] keys[j]).public_key.blob != blob,
    ensures
        sign_plan(keys, blob, data, flags) == Err::<(int, Seq<u8>), ErrorView>(
            ErrorView::Other("key not found"@),
        ),
{
    lemma_no_such_key(keys, blob, 0);
}

// ------------------------------------------------------- which key is used

proof fn lemma_first_with_blob(keys: Seq<CachedView>, blob: Seq<u8>, i: int, from: int)
    requires
        0 <= from <= i < keys.len(),
        keys[i].public_key.blob == blob,
        forall|j: int| 0 <= j < i ==> (#[trigger] keys[j]).public_key.blob != blob,
    ensures
        key_with_blob(keys, blob, from) == i,
    decreases i - from,
{
    if from < i {
        lemma_first_with_blob(keys, blob, i, from + 1);
    }
}

proof fn lemma_first_on_card(keys: Seq<CachedView>, guid: Seq<u8>, i: int, from: int)
    requires
        0 <= from <= i < keys.len(),
        keys[i].guid == guid,
        forall|j: int| 0 <= j < i ==> (#[trigger] keys[j]).guid != guid,
    ensures
        key_on_card(keys, guid, from) == i,
    decreases i - from,
{
    if from < i {
        lemma_first_on_card(keys, guid, i, from + 1);
    }
}

proof fn lemma_first_with_point(keys: Seq<CachedView>, point: Seq<u8>, i: int, from: int)
    requires
        0 <= from <= i < keys.len(),
        keys[i].public_key.sec1 == Some(point),
        forall|j: int| 0 <= j < i ==> (#[trigger] keys[j]).public_key.sec1 != Some(point),
    ensures
        key_with_point(keys, point, from) == i,
    decreases i - from,
{
    if from < i {
        lemma_first_with_point(keys, point, i, from + 1);
    }
}

/// A signing request is served by the first key that has the very encoding
/// that was asked for, and that key is given what its algorithm signs: the
/// SHA-256 or SHA-384 digest of the data on the curves, the data itself for
/// Ed25519.
pub proof fn law_curve_keys_sign_the_digest(
    keys: Seq<CachedView>,
    blob: Seq<u8>,
    data: Seq<u8>,
    flags: u32,
    i: int,
)
    requires
        0 <= i < keys.len(),
        keys[i].public_key.blob == blob,
        forall|j: int| 0 <= j < i ==> (#[trigger] keys[j]).public_key.blob != blob,
    ensures
        sign_plan(keys, blob, data, flags) is Ok,
        (sign_plan(keys, blob, data, flags)->Ok_0).0 == i,
        keys[i].algorithm is EcP256 ==> (sign_plan(keys, blob, data, flags)->Ok_0).1 == sha256_of(
            data,
        ),
        keys[i].algorithm is EcP384 ==> (sign_plan(keys, blob, data, flags)->Ok_0).1 == sha384_of(
            data,
        ),
        keys[i].algorithm is Ed25519 ==> (sign_plan(keys, blob, data, flags)->Ok_0).1 == data,
{
    lemma_first_with_blob(keys, blob, i, 0);
}

/// Whether a block is the signature block of a digest: as long as the key, a
/// zero and a one, padding, a zero, the header of the digest, the digest.
pub open spec fn is_block_of(block: Seq<u8>, size: int, header: Seq<u8>, digest: Seq<u8>) -> bool {
    let sep = size - header.len() - digest.len() - 1;
    &&& block.len() == size
    &&& sep >= 10
    &&& block[0] == 0x00 && block[1] == 0x01
    &&& forall|i: int| 2 <= i < sep ==> block[i] == 0xFF
    &&& block[sep] == 0x00
    &&& block.subrange(sep + 1, sep + 1 + header.len()) == header
    &&& block.subrange(size - digest.len(), size) == digest
}

/// A signing request for an RSA key signs the digest that its flags ask for
/// and that the signature is named after, as long as the digest has its
/// length: SHA-512 where the flags hold the four, SHA-256 otherwise, each
/// behind its own header, in a block as long as the key.
pub proof fn law_rsa_keys_sign_the_named_digest(
    keys: Seq<CachedView>,
    blob: Seq<u8>,
    data: Seq<u8>,
    flags: u32,
    i: int,
)
    requires
        0 <= i < keys.len(),
        keys[i].public_key.blob == blob,
        forall|j: int| 0 <= j < i ==> (#[trigger] keys[j]).public_key.blob != blob,
        keys[i].algorithm is Rsa1024 || keys[i].algorithm is Rsa2048,
        sha256_of(data).len() == 32,
        sha512_of(data).len() == 64,
    ensures
        sign_plan(keys, blob, data, flags) is Ok,
        ({
            let (place, block) = sign_plan(keys, blob, data, flags)->Ok_0;
            let name = signature_name(keys[i].algorithm, flags);
            let size = if keys[i].algorithm is Rsa1024 {
                128int
            } else {
                256int
            };
            let head512 = seq![
                0x30u8, 0x51, 0x30, 0x0d, 0x06, 0x09, 0x60, 0x86, 0x48, 0x01, 0x65, 0x03, 0x04,
                0x02, 0x03, 0x05, 0x00, 0x04, 0x40,
            ];
            let head256 = seq![
                0x30u8, 0x31, 0x30, 0x0d, 0x06, 0x09, 0x60, 0x86, 0x48, 0x01, 0x65, 0x03, 0x04,
                0x02, 0x01, 0x05, 0x00, 0x04, 0x20,
            ];
            &&& place == i
            &&& flags & 4 != 0 ==> name == "rsa-sha2-512"@ && is_block_of(
                block,
                size,
                head512,
                sha512_of(data),
            )
            &&& flags & 4 == 0 ==> name == "rsa-sha2-256"@ && is_block_of(
                block,
                size,
                head256,
                sha256_of(data),
            )
        }),
{
    lemma_first_with_blob(keys, blob, i, 0);
    let size: nat = if keys[i].algorithm is Rsa1024 {
        128
    } else {
        256
    };
    let head512 = seq![
        0x30u8, 0x51, 0x30, 0x0d, 0x06, 0x09, 0x60, 0x86, 0x48, 0x01, 0x65, 0x03, 0x04, 0x02,
        0x03, 0x05, 0x00, 0x04, 0x40,
    ];
    let head256 = seq![
        0x30u8, 0x31, 0x30, 0x0d, 0x06, 0x09, 0x60, 0x86, 0x48, 0x01, 0x65, 0x03, 0x04, 0x02,
        0x01, 0x05, 0x00, 0x04, 0x20,
    ];
    assert(RSA_DIGEST_PREFIX_SHA512@ =~= head512);
    assert(RSA_DIGEST_PREFIX_SHA256@ =~= head256);
    law_signature_block_layout(sha512_of(data), head512, size);
    law_signature_block_layout(sha256_of(data), head256, size);
}

/// A signature is named after the algorithm of its key, and what the card
/// made is passed on as it is, but for a curve, whose two numbers are each
/// framed with their length in four bytes.
pub proof fn law_signature_is_passed_on(
    alg: PivAlgorithm,
    sig: Seq<u8>,
    flags: u32,
    name: Seq<char>,
    data: Seq<u8>,
)
    requires
        signature_outcome(alg, sig, flags) == Ok::<(Seq<char>, Seq<u8>), ErrorView>((name, data)),
    ensures
        alg is EcP256 ==> name == "ecdsa-sha2-nistp256"@,
        alg is EcP384 ==> name == "ecdsa-sha2-nistp384"@,
        alg is Ed25519 ==> name == "ssh-ed25519"@,
        alg is Rsa1024 || alg is Rsa2048 ==> name == if flags & 4 != 0 {
            "rsa-sha2-512"@
        } else {
            "rsa-sha2-256"@
        },
        !(alg is EcP256 || alg is EcP384) ==> data == sig,
        alg is EcP256 || alg is EcP384 ==> der_signature(sig) is Ok && ({
            let (r, s) = der_signature(sig)->Ok_0;
            r.len() < 0x1_0000_0000 && s.len() < 0x1_0000_0000 ==> {
                &&& data.len() == 8 + r.len() + s.len()
                &&& be32_value(data.subrange(0, 4)) == r.len()
                &&& data.subrange(4, 4 + r.len() as int) == r
                &&& be32_value(data.subrange(4 + r.len() as int, 8 + r.len() as int)) == s.len()
                &&& data.subrange(8 + r.len() as int, data.len() as int) == s
            }
        }),
{
    if alg is EcP256 || alg is EcP384 {
        let (r, s) = der_signature(sig)->Ok_0;
        if r.len() < 0x1_0000_0000 && s.len() < 0x1_0000_0000 {
            lemma_be32_round_trip(r.len());
            lemma_be32_round_trip(s.len());
            assert(data.subrange(0, 4) =~= be32(r.len()));
            assert(data.subrange(4, 4 + r.len() as int) =~= r);
            assert(data.subrange(4 + r.len() as int, 8 + r.len() as int) =~= be32(s.len()));
            assert(data.subrange(8 + r.len() as int, data.len() as int) =~= s);
        }
    }
}

/// The agent lists every key that it serves, in order, each with its own
/// comment.
pub proof fn law_every_served_key_is_listed(keys: Seq<CachedView>, i: int)
    requires
        0 <= i < keys.len(),
    ensures
        shown(keys).len() == keys.len(),
        shown(keys)[i] == (keys[i].public_key, keys[i].comment),
{
}

// -------------------------------------------------------- reading a request

proof fn lemma_string_at(before: Seq<u8>, body: Seq<u8>, after: Seq<u8>)
    requires
        body.len() < 0x1_0000_0000,
    ensures
        string_at(before + ssh_string(body) + after, before.len() as int) == Ok::<
            (Seq<u8>, int),
            Seq<char>,
        >((body, (before.len() + 4 + body.len()) as int)),
{
    lemma_field_of_string(before, body, after);
}

/// The SSH encoding of an elliptic-curve key gives back the point that was
/// put into it, whatever the names before it and the bytes behind it.
pub proof fn law_point_is_read_from_its_key(
    name: Seq<u8>,
    curve: Seq<u8>,
    point: Seq<u8>,
    after: Seq<u8>,
)
    requires
        name.len() < 0x1_0000_0000,
        curve.len() < 0x1_0000_0000,
        point.len() < 0x1_0000_0000,
    ensures
        blob_point(ssh_string(name) + ssh_string(curve) + ssh_string(point) + after) == Ok::<
            Seq<u8>,
            Seq<char>,
        >(point),
{
    let a = ssh_string(name);
    let b = ssh_string(curve);
    let c = ssh_string(point);
    let blob = a + b + c + after;
    lemma_be32_len(name.len() % 0x1_0000_0000);
    lemma_be32_len(curve.len() % 0x1_0000_0000);
    lemma_string_at(seq![], name, b + c + after);
    assert(Seq::<u8>::empty() + a + (b + c + after) =~= blob);
    lemma_string_at(a, curve, c + after);
    assert(a + b + (c + after) =~= blob);
    lemma_string_at(a + b, point, after);
}

proof fn lemma_partner(name: Seq<u8>, curve: Seq<u8>, point: Seq<u8>)
    requires
        name.len() < 0x1000_0000,
        curve.len() < 0x1000_0000,
        point.len() < 0x1000_0000,
    ensures
        ({
            let partner = ssh_string(name) + ssh_string(curve) + ssh_string(point);
            &&& partner.len() < 0x4000_0000
            &&& blob_point(partner) == Ok::<Seq<u8>, Seq<char>>(point)
        }),
{
    let partner = ssh_string(name) + ssh_string(curve) + ssh_string(point);
    lemma_be32_len(name.len() % 0x1_0000_0000);
    lemma_be32_len(curve.len() % 0x1_0000_0000);
    lemma_be32_len(point.len() % 0x1_0000_0000);
    law_point_is_read_from_its_key(name, curve, point, seq![]);
    assert(partner + Seq::<u8>::empty() =~= partner);
}

proof fn lemma_ecdh_of_parts(
    details: Seq<u8>,
    inner: Seq<u8>,
    own: Seq<u8>,
    partner: Seq<u8>,
    p: int,
    q: int,
    end: int,
)
    requires
        string_at(details, 0) == Ok::<(Seq<u8>, int), Seq<char>>((inner, end)),
        string_at(inner, 0) == Ok::<(Seq<u8>, int), Seq<char>>((own, p)),
        string_at(inner, p) == Ok::<(Seq<u8>, int), Seq<char>>((partner, q)),
        q + 4 <= inner.len(),
    ensures
        ecdh_request(details) == Ok::<(Seq<u8>, Seq<u8>), Seq<char>>((own, partner)),
{
}

proof fn lemma_ecdh_request(own: Seq<u8>, partner: Seq<u8>, flags: Seq<u8>)
    requires
        own.len() < 0x1000_0000,
        partner.len() < 0x4000_0000,
        flags.len() == 4,
    ensures
        ecdh_request(ssh_string(ssh_string(own) + ssh_string(partner) + flags)) == Ok::<
            (Seq<u8>, Seq<u8>),
            Seq<char>,
        >((own, partner)),
{
    let a = ssh_string(own);
    let b = ssh_string(partner);
    let inner = a + b + flags;
    lemma_be32_len(own.len() % 0x1_0000_0000);
    lemma_be32_len(partner.len() % 0x1_0000_0000);
    lemma_one_string(inner);
    assert(inner =~= Seq::<u8>::empty() + a + (b + flags));
    lemma_string_in(inner, seq![], own, b + flags);
    lemma_string_in(inner, a, partner, flags);
    lemma_ecdh_of_parts(
        ssh_string(inner),
        inner,
        own,
        partner,
        a.len() as int,
        (a.len() + b.len()) as int,
        4 + inner.len() as int,
    );
}

/// A key agreement that was asked for with a key that is served and the key
/// of a partner is done with that very key and the partner's point. The
/// flags do not matter.
pub proof fn law_key_agreement_uses_the_named_key(
    keys: Seq<CachedView>,
    own: Seq<u8>,
    key: KeyView,
    name: Seq<u8>,
    curve: Seq<u8>,
    point: Seq<u8>,
    flags: Seq<u8>,
    i: int,
)
    requires
        own.len() < 0x1000_0000,
        name.len() < 0x1000_0000,
        curve.len() < 0x1000_0000,
        point.len() < 0x1000_0000,
        flags.len() == 4,
        ssh_key_of(own) == Ok::<KeyView, Seq<char>>(key),
        0 <= i < keys.len(),
        keys[i].public_key.blob == key.blob,
        forall|j: int| 0 <= j < i ==> (#[trigger] keys[j]).public_key.blob != key.blob,
    ensures
        ({
            let partner = ssh_string(name) + ssh_string(curve) + ssh_string(point);
            let details = ssh_string(ssh_string(own) + ssh_string(partner) + flags);
            if keys[i].algorithm is EcP256 || keys[i].algorithm is EcP384 {
                ecdh_outcome(keys, details) == Ok::<(int, Seq<u8>), ErrorView>((i, point))
            } else {
                ecdh_outcome(keys, details) == Err::<(int, Seq<u8>), ErrorView>(
                    ErrorView::Other("ecdh: key is not an EC key"@),
                )
            }
        }),
{
    let partner = ssh_string(name) + ssh_string(curve) + ssh_string(point);
    lemma_partner(name, curve, point);
    lemma_ecdh_request(own, partner, flags);
    lemma_first_with_blob(keys, key.blob, i, 0);
}

/// An attestation that was asked for with a key that is served is made for
/// that very key.
pub proof fn law_attestation_is_of_the_named_key(
    keys: Seq<CachedView>,
    own: Seq<u8>,
    key: KeyView,
    flags: Seq<u8>,
    i: int,
)
    requires
        own.len() < 0x1000_0000,
        flags.len() == 4,
        ssh_key_of(own) == Ok::<KeyView, Seq<char>>(key),
        0 <= i < keys.len(),
        keys[i].public_key.blob == key.blob,
        forall|j: int| 0 <= j < i ==> (#[trigger] keys[j]).public_key.blob != key.blob,
    ensures
        attest_outcome(keys, ssh_string(ssh_string(own) + flags)) == Ok::<int, ErrorView>(i),
{
    let a = ssh_string(own);
    let inner = a + flags;
    lemma_be32_len(own.len() % 0x1_0000_0000);
    lemma_string_at(seq![], inner, seq![]);
    assert(Seq::<u8>::empty() + ssh_string(inner) + Seq::<u8>::empty() =~= ssh_string(inner));
    lemma_string_at(seq![], own, flags);
    assert(Seq::<u8>::empty() + a + flags =~= inner);
    lemma_first_with_blob(keys, key.blob, i, 0);
}

proof fn lemma_string_in(whole: Seq<u8>, before: Seq<u8>, body: Seq<u8>, after: Seq<u8>)
    requires
        whole == before + ssh_string(body) + after,
        body.len() < 0x1_0000_0000,
    ensures
        string_at(whole, before.len() as int) == Ok::<(Seq<u8>, int), Seq<char>>(
            (body, (before.len() + 4 + body.len()) as int),
        ),
{
    lemma_string_at(before, body, after);
}

proof fn lemma_rebox_of_parts(
    details: Seq<u8>,
    inner: Seq<u8>,
    boxed: Seq<u8>,
    guid: Seq<u8>,
    slot: u8,
    partner: Seq<u8>,
    p: int,
    q: int,
    at: int,
    end: int,
)
    requires
        string_at(details, 0) == Ok::<(Seq<u8>, int), Seq<char>>((inner, end)),
        string_at(inner, 0) == Ok::<(Seq<u8>, int), Seq<char>>((boxed, p)),
        string_at(inner, p) == Ok::<(Seq<u8>, int), Seq<char>>((guid, q)),
        0 <= q < inner.len(),
        inner[q] == slot,
        string_at(inner, q + 1) == Ok::<(Seq<u8>, int), Seq<char>>((partner, at)),
        flags_at(inner, at, "ecdh-rebox"@) == Ok::<nat, Seq<char>>(0),
    ensures
        rebox_request(details) == Ok::<(Seq<u8>, Seq<u8>, u8, Seq<u8>), Seq<char>>(
            (boxed, guid, slot, partner),
        ),
{
}

proof fn lemma_one_string(body: Seq<u8>)
    requires
        body.len() < 0x1_0000_0000,
    ensures
        string_at(ssh_string(body), 0) == Ok::<(Seq<u8>, int), Seq<char>>(
            (body, 4 + body.len() as int),
        ),
{
    let whole = ssh_string(body);
    assert(whole =~= Seq::<u8>::empty() + whole + Seq::<u8>::empty());
    lemma_string_in(whole, seq![], body, seq![]);
}

proof fn lemma_rebox_strings(
    a: Seq<u8>,
    b: Seq<u8>,
    one: Seq<u8>,
    c: Seq<u8>,
    flags: Seq<u8>,
    inner: Seq<u8>,
)
    requires
        inner == a + b + one + c + flags,
        one.len() == 1,
        flags.len() == 4,
    ensures
        inner == Seq::<u8>::empty() + a + (b + one + c + flags),
        inner == a + b + (one + c + flags),
        inner == (a + b + one) + c + flags,
        inner.len() == a.len() + b.len() + 1 + c.len() + 4,
        inner[(a.len() + b.len()) as int] == one[0],
        inner.subrange(
            (a.len() + b.len() + 1 + c.len()) as int,
            (a.len() + b.len() + 1 + c.len() + 4) as int,
        ) == flags,
{
    assert(inner =~= Seq::<u8>::empty() + a + (b + one + c + flags));
    assert(inner =~= a + b + (one + c + flags));
    assert(inner.subrange(
        (a.len() + b.len() + 1 + c.len()) as int,
        (a.len() + b.len() + 1 + c.len() + 4) as int,
    ) =~= flags);
}

/// A request to seal a box anew is read as what was put into it: the box, the
/// card, the slot and the partner's key.
#[verifier::spinoff_prover]
#[verifier::rlimit(40)]
pub proof fn law_rebox_request_is_read_back(
    boxed: Seq<u8>,
    guid: Seq<u8>,
    slot: u8,
    partner: Seq<u8>,
    flags: Seq<u8>,
)
    requires
        boxed.len() < 0x1000_0000,
        guid.len() < 0x1000_0000,
        partner.len() < 0x1000_0000,
        flags == seq![0u8, 0, 0, 0],
    ensures
        rebox_request(
            ssh_string(
                ssh_string(boxed) + ssh_string(guid) + seq![slot] + ssh_string(partner) + flags,
            ),
        ) == Ok::<(Seq<u8>, Seq<u8>, u8, Seq<u8>), Seq<char>>((boxed, guid, slot, partner)),
{
    let a = ssh_string(boxed);
    let b = ssh_string(guid);
    let c = ssh_string(partner);
    let one = seq![slot];
    let inner = a + b + one + c + flags;
    lemma_be32_len(boxed.len() % 0x1_0000_0000);
    lemma_be32_len(guid.len() % 0x1_0000_0000);
    lemma_be32_len(partner.len() % 0x1_0000_0000);
    lemma_rebox_strings(a, b, one, c, flags, inner);
    lemma_one_string(inner);
    lemma_string_in(inner, seq![], boxed, b + one + c + flags);
    lemma_string_in(inner, a, guid, one + c + flags);
    lemma_string_in(inner, a + b + one, partner, flags);
    let p = a.len() as int;
    let q = p + b.len();
    let at = q + 1 + c.len();
    assert(be32_value(flags) == 0) by {
        reveal(be32_value);
    }
    lemma_rebox_of_parts(
        ssh_string(inner),
        inner,
        boxed,
        guid,
        slot,
        partner,
        p,
        q,
        at,
        4 + inner.len() as int,
    );
}

/// A box that names a card is opened with the first key of that card, in the
/// slot that it names.
pub proof fn law_box_is_opened_on_the_card_it_names(
    keys: Seq<CachedView>,
    b: BoxInfo,
    guid: Guid,
    slot: u8,
    i: int,
)
    requires
        b.guid_slot == Some((guid, slot)),
        0 <= i < keys.len(),
        keys[i].guid == guid@,
        forall|j: int| 0 <= j < i ==> (#[trigger] keys[j]).guid != guid@,
    ensures
        box_key(keys, b) == Ok::<(int, u8), ErrorView>((i, slot)),
{
    lemma_first_on_card(keys, guid@, i, 0);
}

/// A box that names no card is opened with the key that it was sealed to, in
/// that key's slot, whether its point is written out or compressed.
pub proof fn law_box_is_opened_with_its_recipients_key(
    keys: Seq<CachedView>,
    b: BoxInfo,
    point: Seq<u8>,
    i: int,
)
    requires
        b.guid_slot is None,
        ({
            let sealed_to = b.recipient_pubkey@;
            ||| sealed_to == point && point.len() > 0 && point[0] == 4
            ||| sealed_to.len() == 33 && sealed_to[0] != 4 && sec1_point(sealed_to, false, false)
                == Some(point)
            ||| sealed_to.len() == 49 && sealed_to[0] != 4 && sec1_point(sealed_to, true, false)
                == Some(point)
        }),
        0 <= i < keys.len(),
        keys[i].public_key.sec1 == Some(point),
        forall|j: int| 0 <= j < i ==> (#[trigger] keys[j]).public_key.sec1 != Some(point),
    ensures
        box_key(keys, b) == Ok::<(int, u8), ErrorView>((i, keys[i].slot_id)),
{
    lemma_first_with_point(keys, point, i, 0);
}

} // verus!
