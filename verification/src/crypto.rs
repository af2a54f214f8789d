//! What the other modules take from the cryptography crates. Each trusted
//! function here makes one outside call; its contract says what is relied
//! on.
use crate::text::{all_hex, hex_digit, hex_value};
use vstd::prelude::*;

verus! {

// -------------------------------------------------------------------- hex

/// Bytes in hexadecimal, two digits each.
pub open spec fn hex_text(b: Seq<u8>, upper: bool) -> Seq<char> {
    Seq::new(
        2 * b.len(),
        |i: int|
            hex_digit(
                if i % 2 == 0 {
                    b[i / 2] as int / 16
                } else {
                    b[i / 2] as int % 16
                },
                upper,
            ),
    )
}

/// The bytes that an even number of hexadecimal digits stand for.
pub open spec fn hex_bytes(s: Seq<char>) -> Seq<u8> {
    Seq::new(
        s.len() / 2,
        |i: int| (hex_value(s[2 * i])->0 * 16 + hex_value(s[2 * i + 1])->0) as u8,
    )
}

/// Whether a text is bytes in hexadecimal: an even number of digits.
pub open spec fn is_hex(s: Seq<char>) -> bool {
    s.len() % 2 == 0 && all_hex(s)
}

/// `hex::encode_upper`: two upper-case digits per byte.
#[verifier::external_body]
pub(crate) fn hex_encode_upper(data: &[u8]) -> (r: String)
    ensures
        r@ == hex_text(data@, true),
{
    hex::encode_upper(data)
}

/// What `hex::decode` says of a text that is no hexadecimal.
pub uninterp spec fn hex_error_text(s: Seq<char>) -> Seq<char>;

/// `hex::decode`: succeeds on exactly the texts made of an even number of
/// digits in either case, with the bytes they stand for. The words of the
/// error depend on the text alone.
#[verifier::external_body]
pub(crate) fn hex_decode(s: &str) -> (r: Result<Vec<u8>, String>)
    ensures
        match r {
            Ok(b) => is_hex(s@) && b@ == hex_bytes(s@),
            Err(e) => !is_hex(s@) && e@ == hex_error_text(s@),
        },
{
    hex::decode(s).map_err(|e| e.to_string())
}

proof fn lemma_hex_digit(d: int, upper: bool)
    requires
        0 <= d < 16,
    ensures
        hex_value(hex_digit(d, upper)) == Some(d),
{
}

/// Bytes written in hexadecimal are read back.
pub proof fn law_hex_round_trip(b: Seq<u8>, upper: bool)
    ensures
        is_hex(hex_text(b, upper)),
        hex_bytes(hex_text(b, upper)) == b,
{
    let t = hex_text(b, upper);
    assert forall|i: int| 0 <= i < t.len() implies hex_value(#[trigger] t[i]) is Some by {
        lemma_hex_digit(b[i / 2] as int / 16, upper);
        lemma_hex_digit(b[i / 2] as int % 16, upper);
    }
    assert forall|i: int| 0 <= i < b.len() implies hex_bytes(t)[i] == b[i] by {
        lemma_hex_digit(b[i] as int / 16, upper);
        lemma_hex_digit(b[i] as int % 16, upper);
        assert((2 * i) / 2 == i && (2 * i) % 2 == 0);
        assert((2 * i + 1) / 2 == i && (2 * i + 1) % 2 == 1);
        assert(t[2 * i] == hex_digit(b[i] as int / 16, upper));
        assert(t[2 * i + 1] == hex_digit(b[i] as int % 16, upper));
    }
    assert(hex_bytes(t) =~= b);
}

// ----------------------------------------------------------------- digests

/// The SHA-256 digest of `data`.
pub uninterp spec fn sha256_of(data: Seq<u8>) -> Seq<u8>;

/// The SHA-384 digest of `data`.
pub uninterp spec fn sha384_of(data: Seq<u8>) -> Seq<u8>;

/// The SHA-512 digest of `data`.
pub uninterp spec fn sha512_of(data: Seq<u8>) -> Seq<u8>;

/// `sha2::Sha256::digest`: thirty-two bytes that depend on the data alone.
#[verifier::external_body]
pub(crate) fn sha256(data: &[u8]) -> (r: Vec<u8>)
    ensures
        r@ == sha256_of(data@),
        r@.len() == 32,
{
    <sha2::Sha256 as sha2::Digest>::digest(data).to_vec()
}

/// `sha2::Sha384::digest`: forty-eight bytes that depend on the data alone.
#[verifier::external_body]
pub(crate) fn sha384(data: &[u8]) -> (r: Vec<u8>)
    ensures
        r@ == sha384_of(data@),
        r@.len() == 48,
{
    <sha2::Sha384 as sha2::Digest>::digest(data).to_vec()
}

/// `sha2::Sha512::digest`: sixty-four bytes that depend on the data alone.
#[verifier::external_body]
pub(crate) fn sha512(data: &[u8]) -> (r: Vec<u8>)
    ensures
        r@ == sha512_of(data@),
        r@.len() == 64,
{
    <sha2::Sha512 as sha2::Digest>::digest(data).to_vec()
}

// ------------------------------------------------------------------ chance

/// `openssl::rand::rand_bytes`: as many bytes as were asked for, or the
/// library's error text. Which bytes they are is chance.
#[verifier::external_body]
pub(crate) fn random_bytes(n: usize) -> (r: Result<Vec<u8>, String>)
    requires
        n <= 0x7FFF_FFFF,
    ensures
        r is Ok ==> r->Ok_0@.len() == n,
{
    let mut buf = vec![0u8; n];
    openssl::rand::rand_bytes(&mut buf).map_err(|e| e.to_string())?;
    Ok(buf)
}

// ------------------------------------------------------------------ wiping

/// `zeroize::Zeroize::zeroize` of a text: it is overwritten and then empty.
/// That nothing of it is left in memory is no property of a value and is left
/// unsaid.
#[verifier::external_body]
pub(crate) fn wipe_text(secret: &mut String)
    ensures
        final(secret)@ == Seq::<char>::empty(),
{
    zeroize::Zeroize::zeroize(secret)
}

/// `zeroize::Zeroize::zeroize` of bytes: they are overwritten and then gone.
/// That nothing of them is left in memory is no property of a value and is
/// left unsaid.
#[verifier::external_body]
pub(crate) fn wipe_bytes(secret: &mut Vec<u8>)
    ensures
        final(secret)@ == Seq::<u8>::empty(),
{
    zeroize::Zeroize::zeroize(secret)
}

/// Gives up a secret that is no longer needed.
pub(crate) fn discard(secret: String) {
    let mut secret: String = secret;
    wipe_text(&mut secret);
}

/// Gives up a secret, where there is one.
pub(crate) fn discard_any(secret: Option<String>) {
    if let Some(s) = secret {
        discard(s);
    }
}

/// Gives up a key that is no longer needed.
pub(crate) fn discard_key(secret: Vec<u8>) {
    let mut secret: Vec<u8> = secret;
    wipe_bytes(&mut secret);
}

/// Gives up several secrets.
pub(crate) fn discard_all(secrets: Vec<String>) {
    let mut left: Vec<String> = secrets;
    while left.len() > 0
        decreases left@.len(),
    {
        discard_any(left.pop());
    }
}

// ---------------------------------------------------------------- SSH keys

/// A public key as far as it is looked at: its SSH encoding, by which keys
/// are told apart, and the SEC1 point of an elliptic-curve key.
pub struct PublicKey {
    pub blob: Vec<u8>,
    pub sec1: Option<Vec<u8>>,
}

/// [`PublicKey`] over plain bytes.
pub struct KeyView {
    pub blob: Seq<u8>,
    pub sec1: Option<Seq<u8>>,
}

/// Optional bytes over plain bytes.
pub open spec fn opt_bytes(o: Option<Vec<u8>>) -> Option<Seq<u8>> {
    match o {
        Some(p) => Some(p@),
        None => None,
    }
}

impl View for PublicKey {
    type V = KeyView;

    open spec fn view(&self) -> KeyView {
        KeyView { blob: self.blob@, sec1: opt_bytes(self.sec1) }
    }
}

/// What the SSH encoding of a public key holds, or what is wrong with it.
pub uninterp spec fn ssh_key_of(blob: Seq<u8>) -> Result<KeyView, Seq<char>>;

/// `ssh_key::PublicKey::from_bytes`: the key that the bytes encode, or the
/// crate's error text; both depend on the bytes alone.
#[verifier::external_body]
pub(crate) fn ssh_key_from_bytes(blob: &[u8]) -> (r: Result<PublicKey, String>)
    ensures
        match r {
            Ok(k) => ssh_key_of(blob@) == Ok::<KeyView, Seq<char>>(k@),
            Err(e) => ssh_key_of(blob@) == Err::<KeyView, Seq<char>>(e@),
        },
{
    let key = ssh_key::PublicKey::from_bytes(blob).map_err(|e| e.to_string())?;
    let blob = key.to_bytes().map_err(|e| e.to_string())?;
    let sec1 = key.key_data().ecdsa().map(|p| p.as_sec1_bytes().to_vec());
    Ok(PublicKey { blob, sec1 })
}

/// What a line in OpenSSH format says, or what is wrong with it.
pub uninterp spec fn openssh_key_of(line: Seq<char>) -> Result<KeyView, Seq<char>>;

/// `ssh_key::PublicKey::from_openssh`: the key of the line, or the crate's
/// error text; both depend on the line alone.
#[verifier::external_body]
pub(crate) fn ssh_key_from_openssh(line: &str) -> (r: Result<PublicKey, String>)
    ensures
        match r {
            Ok(k) => openssh_key_of(line@) == Ok::<KeyView, Seq<char>>(k@),
            Err(e) => openssh_key_of(line@) == Err::<KeyView, Seq<char>>(e@),
        },
{
    let key = ssh_key::PublicKey::from_openssh(line).map_err(|e| e.to_string())?;
    let blob = key.to_bytes().map_err(|e| e.to_string())?;
    let sec1 = key.key_data().ecdsa().map(|p| p.as_sec1_bytes().to_vec());
    Ok(PublicKey { blob, sec1 })
}

/// The line in OpenSSH format of a key and a comment, or what is wrong with
/// the key.
pub uninterp spec fn openssh_line_of(blob: Seq<u8>, comment: Seq<char>) -> Result<
    Seq<char>,
    Seq<char>,
>;

/// `ssh_key::PublicKey::to_openssh`, of the key that `from_bytes` reads, with
/// a comment set: the line, or the crate's error text; both depend on the
/// bytes and the comment alone.
#[verifier::external_body]
pub(crate) fn ssh_key_line(blob: &[u8], comment: &str) -> (r: Result<String, String>)
    ensures
        match r {
            Ok(line) => openssh_line_of(blob@, comment@) == Ok::<Seq<char>, Seq<char>>(line@),
            Err(e) => openssh_line_of(blob@, comment@) == Err::<Seq<char>, Seq<char>>(e@),
        },
{
    let mut key = ssh_key::PublicKey::from_bytes(blob).map_err(|e| e.to_string())?;
    key.set_comment(comment);
    key.to_openssh().map_err(|e| e.to_string())
}

/// What is wrong with a signature of an algorithm, if anything.
pub uninterp spec fn ssh_signature_flaw(algorithm: Seq<char>, data: Seq<u8>) -> Option<Seq<char>>;

/// `ssh_key::Algorithm::new` and `ssh_key::Signature::new`: whether the
/// bytes are a signature of the named algorithm, else the crate's error
/// text. Any bytes are one for the two RSA algorithms, and exactly
/// sixty-four for Ed25519; what an elliptic-curve signature must look like
/// is left to the crate.
#[verifier::external_body]
pub(crate) fn ssh_signature_check(algorithm: &str, data: &[u8]) -> (r: Option<String>)
    ensures
        match r {
            None => ssh_signature_flaw(algorithm@, data@) is None,
            Some(e) => ssh_signature_flaw(algorithm@, data@) == Some(e@),
        },
        algorithm@ == "rsa-sha2-256"@ || algorithm@ == "rsa-sha2-512"@ ==> r is None,
        algorithm@ == "ssh-ed25519"@ ==> (r is None <==> data@.len() == 64),
{
    let named = ssh_key::Algorithm::new(algorithm);
    named.and_then(|a| ssh_key::Signature::new(a, data)).err().map(|e| e.to_string())
}

// ------------------------------------------------------------------ curves

/// The two curves whose points are handled.
#[derive(Clone, Copy, Debug, PartialEq, Eq, Structural)]
pub enum EcCurve {
    NistP256,
    NistP384,
}

/// The step at which a point could not be converted.
#[derive(Clone, Copy, Debug, PartialEq, Eq, Structural)]
pub enum EcStep {
    Group,
    Context,
    Decode,
    Encode,
}

/// The SEC1 encoding, compressed or not, of the point that `point` encodes
/// on P-384 or P-256; nothing where it encodes none.
pub uninterp spec fn sec1_point(point: Seq<u8>, p384: bool, compressed: bool) -> Option<Seq<u8>>;

/// `EcPoint::from_bytes` and `EcPoint::to_bytes` of the openssl crate:
/// whether there is a result, and which, depends on the point, the curve and
/// the form alone. The words of an error name lines of the library's own
/// source, and with them the step that failed are left open.
#[verifier::external_body]
pub(crate) fn ec_convert(point: &[u8], curve: EcCurve, compressed: bool) -> (r: Result<
    Vec<u8>,
    (EcStep, String),
>)
    ensures
        match r {
            Ok(p) => sec1_point(point@, curve is NistP384, compressed) == Some(p@),
            Err(_) => sec1_point(point@, curve is NistP384, compressed) is None,
        },
{
    let (nid, form) = (
        if let EcCurve::NistP384 = curve { openssl::nid::Nid::SECP384R1 } else { openssl::nid::Nid::X9_62_PRIME256V1 },
        if compressed { openssl::ec::PointConversionForm::COMPRESSED } else { openssl::ec::PointConversionForm::UNCOMPRESSED },
    );
    let group = openssl::ec::EcGroup::from_curve_name(nid).map_err(|e| (EcStep::Group, e.to_string()))?;
    let mut ctx = openssl::bn::BigNumContext::new().map_err(|e| (EcStep::Context, e.to_string()))?;
    let p = openssl::ec::EcPoint::from_bytes(&group, point, &mut ctx).map_err(|e| (EcStep::Decode, e.to_string()))?;
    p.to_bytes(&group, form, &mut ctx).map_err(|e| (EcStep::Encode, e.to_string()))
}

/// The SHA-256 digest as OpenSSL computes it.
pub uninterp spec fn openssl_sha256_of(data: Seq<u8>) -> Seq<u8>;

/// The SHA-384 digest as OpenSSL computes it.
pub uninterp spec fn openssl_sha384_of(data: Seq<u8>) -> Seq<u8>;

/// `openssl::sha::sha256`: thirty-two bytes that depend on the data alone.
#[verifier::external_body]
pub(crate) fn openssl_sha256(data: &[u8]) -> (r: Vec<u8>)
    ensures
        r@ == openssl_sha256_of(data@),
        r@.len() == 32,
{
    openssl::sha::sha256(data).to_vec()
}

/// `openssl::sha::sha384`: forty-eight bytes that depend on the data alone.
#[verifier::external_body]
pub(crate) fn openssl_sha384(data: &[u8]) -> (r: Vec<u8>)
    ensures
        r@ == openssl_sha384_of(data@),
        r@.len() == 48,
{
    openssl::sha::sha384(data).to_vec()
}

// ------------------------------------------------------------ certificates

/// The values in a certificate's subject; nothing where the bytes are no
/// certificate.
pub uninterp spec fn subject_values_of(der: Seq<u8>) -> Option<Seq<Seq<char>>>;

/// Entries over plain text.
pub open spec fn entries_view(e: Seq<(String, String)>) -> Seq<(Seq<char>, Seq<char>)> {
    e.map_values(|x: (String, String)| (x.0@, x.1@))
}

/// The values of entries.
pub open spec fn values_of(e: Seq<(Seq<char>, Seq<char>)>) -> Seq<Seq<char>> {
    e.map_values(|x: (Seq<char>, Seq<char>)| x.1)
}

/// `X509::from_der` and `X509::subject_name` of the openssl crate: the
/// entries of the subject, each a short name and a value, or nothing where
/// the bytes are no certificate. Whether there are entries, and their values,
/// depend on the bytes alone; a value ends at its first NUL, and one that is
/// no text is empty. The short names come from a table of the library that is
/// linked, which gives an attribute that it does not know the name of the
/// undefined one: they are left open.
#[verifier::external_body]
pub(crate) fn x509_subject(der: &[u8]) -> (r: Option<Vec<(String, String)>>)
    ensures
        match r {
            Some(e) => subject_values_of(der@) == Some(values_of(entries_view(e@))),
            None => subject_values_of(der@) is None,
        },
{
    let cert = openssl::x509::X509::from_der(der).ok()?;
    let entry = |e: &openssl::x509::X509NameEntryRef| {
        let name = e.object().nid().short_name().map(|s| s.to_owned());
        let value = e.data().as_utf8().map(|s| s.to_string());
        (name.unwrap_or_else(|_| e.object().to_string()), value.unwrap_or_default())
    };
    Some(cert.subject_name().entries().map(entry).collect())
}

/// The PEM text of a certificate; nothing where the bytes are none.
pub uninterp spec fn pem_of(der: Seq<u8>) -> Option<Seq<char>>;

/// `X509::from_der` and `X509::to_pem` of the openssl crate: whether there is
/// a PEM text, and which, depends on the bytes alone. The words of an error
/// name lines of the library's own source and are left open.
#[verifier::external_body]
pub(crate) fn x509_pem(der: &[u8]) -> (r: Result<String, String>)
    ensures
        match r {
            Ok(p) => pem_of(der@) == Some(p@),
            Err(_) => pem_of(der@) is None,
        },
{
    let pem = openssl::x509::X509::from_der(der).and_then(|c| c.to_pem());
    pem.map(|p| String::from_utf8_lossy(&p).into_owned()).map_err(|e| e.to_string())
}

} // verus!
