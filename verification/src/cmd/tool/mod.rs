//! `piggy tool`: single operations on a card. Only some operations and
//! options are known here; any other invocation is left to the program
//! that `piggy` falls back on.
use crate::crypto::{
    entries_view, hex_text, openssh_key_of, openssh_line_of, openssl_sha256, openssl_sha256_of,
    openssl_sha384, openssl_sha384_of, pem_of, ssh_key_from_openssh, ssh_key_line,
    subject_values_of, values_of, x509_pem, x509_subject, KeyView, PublicKey,
};
use crate::piv::{is_valid_piv_slot, valid_slot, Guid, PivAlgorithm};
use crate::text::{
    all_hex, cat2, cat3, cat4, cat5, chars_of, debug_str, debug_text, dec, dec_u64, dec_usize,
    hex2, hex2_str, hex_byte, hex_value_of, parse_hex_byte, same, starts_with, texts, trim,
    trimmed,
};
use vstd::prelude::*;

pub mod job;
pub mod laws;

verus! {

/// One invocation: the options, the operation and its arguments.
pub struct Invocation {
    /// The start of the GUID that selects a card.
    pub guid: Option<String>,
    /// The codes that were given, in order.
    pub pins: Vec<String>,
    pub op: String,
    pub positionals: Vec<String>,
}

/// [`Invocation`] over plain text.
pub struct InvocationView {
    pub guid: Option<Seq<char>>,
    pub pins: Seq<Seq<char>>,
    pub op: Seq<char>,
    pub positionals: Seq<Seq<char>>,
}

impl View for Invocation {
    type V = InvocationView;

    open spec fn view(&self) -> InvocationView {
        InvocationView {
            guid: crate::text::opt_text(self.guid),
            pins: texts(self.pins@),
            op: self.op@,
            positionals: texts(self.positionals@),
        }
    }
}

/// The operations that are known.
pub open spec fn known_op(op: Seq<char>) -> bool {
    ||| op == "pubkey"@
    ||| op == "cert"@
    ||| op == "attest"@
    ||| op == "sign"@
    ||| op == "ecdh"@
    ||| op == "change-pin"@
    ||| op == "change-puk"@
    ||| op == "reset-pin"@
}

/// Reads the arguments from `i` on, with the options before them already
/// read: options come first, `-g` and `-P` each with a value, then the
/// operation, then its arguments.
pub open spec fn parse_from(
    args: Seq<Seq<char>>,
    i: int,
    guid: Option<Seq<char>>,
    pins: Seq<Seq<char>>,
) -> Option<InvocationView>
    decreases args.len() - i,
{
    if i >= args.len() {
        None
    } else if args[i].len() > 0 && args[i][0] == '-' {
        if i + 1 >= args.len() {
            None
        } else if args[i] == "-g"@ {
            parse_from(args, i + 2, Some(args[i + 1]), pins)
        } else if args[i] == "-P"@ {
            parse_from(args, i + 2, guid, pins.push(args[i + 1]))
        } else {
            None
        }
    } else if known_op(args[i]) {
        Some(
            InvocationView {
                guid,
                pins,
                op: args[i],
                positionals: args.subrange(i + 1, args.len() as int),
            },
        )
    } else {
        None
    }
}

fn is_known_op(op: &str) -> (r: bool)
    ensures
        r == known_op(op@),
{
    same(op, "pubkey") || same(op, "cert") || same(op, "attest") || same(op, "sign") || same(
        op,
        "ecdh",
    ) || same(op, "change-pin") || same(op, "change-puk") || same(op, "reset-pin")
}

fn is_flag(s: &str) -> (r: bool)
    ensures
        r == (s@.len() > 0 && s@[0] == '-'),
{
    s.unicode_len() > 0 && s.get_char(0) == '-'
}

fn copy_from(args: &[String], from: usize) -> (r: Vec<String>)
    requires
        from <= args@.len(),
    ensures
        texts(r@) == texts(args@).subrange(from as int, args@.len() as int),
{
    let mut out: Vec<String> = Vec::new();
    let ghost all = texts(args@);
    for i in from..args.len()
        invariant
            from <= args@.len(),
            all == texts(args@),
            texts(out@) == all.subrange(from as int, i as int),
    {
        let ghost before = texts(out@);
        out.push(args[i].clone());
        assert(texts(out@) =~= before.push(all[i as int]));
        assert(texts(out@) =~= all.subrange(from as int, i + 1));
    }
    out
}

/// Reads an invocation, or nothing where it is not one that is known.
pub fn parse(args: &[String]) -> (r: Option<Invocation>)
    ensures
        match r {
            Some(inv) => parse_from(texts(args@), 0, None, seq![]) == Some(inv@),
            None => parse_from(texts(args@), 0, None, seq![]) is None,
        },
{
    let ghost all = texts(args@);
    let mut guid: Option<String> = None;
    let mut pins: Vec<String> = Vec::new();
    let mut i: usize = 0;
    assert(texts(pins@) =~= seq![]);
    while i < args.len()
        invariant
            i <= args@.len(),
            all == texts(args@),
            parse_from(all, 0, None, seq![]) == parse_from(
                all,
                i as int,
                crate::text::opt_text(guid),
                texts(pins@),
            ),
        decreases args@.len() - i,
    {
        assert(all[i as int] == args@[i as int]@);
        if !is_flag(args[i].as_str()) {
            if !is_known_op(args[i].as_str()) {
                return None;
            }
            return Some(
                Invocation {
                    guid,
                    pins,
                    op: args[i].clone(),
                    positionals: copy_from(args, i + 1),
                },
            );
        }
        if args.len() - i < 2 {
            return None;
        }
        assert(all[i + 1] == args@[i + 1]@);
        if same(args[i].as_str(), "-g") {
            guid = Some(args[i + 1].clone());
        } else if same(args[i].as_str(), "-P") {
            let ghost before = texts(pins@);
            pins.push(args[i + 1].clone());
            assert(texts(pins@) =~= before.push(all[i + 1]));
        } else {
            return None;
        }
        i = i + 2;
    }
    None
}

/// The credential that is changed.
#[derive(Clone, Copy, Debug, PartialEq, Eq, Structural)]
pub enum Secret {
    Pin,
    Puk,
}

impl Secret {
    /// What the credential is called.
    pub fn label(self) -> (r: &'static str)
        ensures
            r@ == match self {
                Secret::Pin => "PIN"@,
                Secret::Puk => "PUK"@,
            },
    {
        match self {
            Secret::Pin => "PIN",
            Secret::Puk => "PUK",
        }
    }

    /// The operation that changes it.
    pub fn op(self) -> (r: &'static str)
        ensures
            r@ == match self {
                Secret::Pin => "change-pin"@,
                Secret::Puk => "change-puk"@,
            },
    {
        match self {
            Secret::Pin => "change-pin",
            Secret::Puk => "change-puk",
        }
    }
}

/// What is to be done.
#[derive(Clone, Copy, Debug, PartialEq, Eq, Structural)]
pub enum ToolOp {
    Pubkey,
    Cert,
    Attest,
    Sign,
    Ecdh,
    Change(Secret),
    ResetPin,
}

/// The name of each operation.
pub open spec fn op_name(op: ToolOp) -> Seq<char> {
    match op {
        ToolOp::Pubkey => "pubkey"@,
        ToolOp::Cert => "cert"@,
        ToolOp::Attest => "attest"@,
        ToolOp::Sign => "sign"@,
        ToolOp::Ecdh => "ecdh"@,
        ToolOp::Change(Secret::Pin) => "change-pin"@,
        ToolOp::Change(Secret::Puk) => "change-puk"@,
        ToolOp::ResetPin => "reset-pin"@,
    }
}

/// Decides what an invocation asks for; nothing where the whole invocation
/// is left to the program that is fallen back on.
pub fn run(args: &[String]) -> (r: Option<(ToolOp, Invocation)>)
    ensures
        match r {
            Some((op, inv)) => parse_from(texts(args@), 0, None, seq![]) == Some(inv@) && inv.op@
                == op_name(op),
            None => parse_from(texts(args@), 0, None, seq![]) is None,
        },
{
    let inv: Invocation = match parse(args) {
        None => return None,
        Some(inv) => inv,
    };
    proof {
        lemma_parsed_op_is_known(texts(args@), 0, None, seq![]);
    }
    let name: &str = inv.op.as_str();
    let op: ToolOp = if same(name, "pubkey") {
        ToolOp::Pubkey
    } else if same(name, "cert") {
        ToolOp::Cert
    } else if same(name, "attest") {
        ToolOp::Attest
    } else if same(name, "sign") {
        ToolOp::Sign
    } else if same(name, "ecdh") {
        ToolOp::Ecdh
    } else if same(name, "change-pin") {
        ToolOp::Change(Secret::Pin)
    } else if same(name, "change-puk") {
        ToolOp::Change(Secret::Puk)
    } else {
        ToolOp::ResetPin
    };
    Some((op, inv))
}

proof fn lemma_parsed_op_is_known(
    args: Seq<Seq<char>>,
    i: int,
    guid: Option<Seq<char>>,
    pins: Seq<Seq<char>>,
)
    ensures
        parse_from(args, i, guid, pins) is Some ==> known_op(
            parse_from(args, i, guid, pins)->0.op,
        ),
    decreases args.len() - i,
{
    if i < args.len() && args[i].len() > 0 && args[i][0] == '-' && i + 1 < args.len() {
        if args[i] == "-g"@ {
            lemma_parsed_op_is_known(args, i + 2, Some(args[i + 1]), pins);
        } else if args[i] == "-P"@ {
            lemma_parsed_op_is_known(args, i + 2, guid, pins.push(args[i + 1]));
        }
    }
}

// --------------------------------------------------------------- arguments

/// A numeral without the marker in front of it.
pub open spec fn without_0x(s: Seq<char>) -> Seq<char> {
    if "0x"@.is_prefix_of(s) {
        s.subrange(2, s.len() as int)
    } else {
        s
    }
}

/// The slot that the first argument names, or what is printed where it
/// names none.
pub open spec fn slot_outcome(positionals: Seq<Seq<char>>, op: Seq<char>) -> Result<
    u8,
    Seq<char>,
> {
    if positionals.len() == 0 {
        Err("piggy tool "@ + op + ": missing slot (e.g. 9d)"@)
    } else {
        let raw = positionals[0];
        match hex_byte(without_0x(raw)) {
            None => Err(
                "piggy tool "@ + op + ": invalid slot "@ + debug_text(raw)
                    + " (want a hex slot id like 9d)"@,
            ),
            Some(slot) => if valid_slot(slot) {
                Ok(slot)
            } else {
                Err(
                    "piggy tool "@ + op + ": "@ + debug_text(raw)
                        + " is not a PIV slot that holds a certificate"@,
                )
            },
        }
    }
}

/// Reads the slot that the first argument names. Without one the exit code
/// is two.
pub fn slot_arg(inv: &Invocation, op: &str) -> (r: Result<u8, (i32, String)>)
    ensures
        match r {
            Ok(s) => slot_outcome(texts(inv.positionals@), op@) == Ok::<u8, Seq<char>>(s),
            Err((code, e)) => code == 2 && slot_outcome(texts(inv.positionals@), op@) == Err::<
                u8,
                Seq<char>,
            >(e@),
        },
{
    if inv.positionals.len() == 0 {
        return Err((2, cat3("piggy tool ", op, ": missing slot (e.g. 9d)")));
    }
    let raw: &str = inv.positionals[0].as_str();
    assert(texts(inv.positionals@)[0] == raw@);
    let digits: &str = if starts_with(raw, "0x") {
        proof {
            reveal_strlit("0x");
        }
        raw.substring_char(2, raw.unicode_len())
    } else {
        raw
    };
    match parse_hex_byte(digits) {
        None => Err(
            (
                2,
                cat5(
                    "piggy tool ",
                    op,
                    ": invalid slot ",
                    debug_str(raw).as_str(),
                    " (want a hex slot id like 9d)",
                ),
            ),
        ),
        Some(slot) => {
            if is_valid_piv_slot(slot) {
                Ok(slot)
            } else {
                Err(
                    (
                        2,
                        cat5(
                            "piggy tool ",
                            op,
                            ": ",
                            debug_str(raw).as_str(),
                            " is not a PIV slot that holds a certificate",
                        ),
                    ),
                )
            }
        },
    }
}

/// A character with an ASCII letter made upper case.
pub open spec fn upper_char(c: char) -> char {
    if 'a' <= c <= 'z' {
        (c as int - 32) as char
    } else {
        c
    }
}

/// A text with its ASCII letters made upper case.
pub open spec fn upper(s: Seq<char>) -> Seq<char> {
    s.map_values(|c: char| upper_char(c))
}

fn to_upper(s: &str) -> (r: String)
    ensures
        r@ == upper(s@),
{
    let v: Vec<char> = chars_of(s);
    let mut out: String = String::new();
    for i in 0..v.len()
        invariant
            v@ == s@,
            out@ == upper(s@).take(i as int),
    {
        let c: char = v[i];
        let u: char = if 'a' <= c && c <= 'z' {
            ((c as u32 - 32) as u8) as char
        } else {
            c
        };
        assert(u == upper_char(c));
        out.push(u);
        assert(out@ =~= upper(s@).take(i + 1));
    }
    assert(upper(s@).take(v@.len() as int) =~= upper(s@));
    out
}

fn is_all_hex(s: &str) -> (r: bool)
    ensures
        r == all_hex(s@),
{
    let v: Vec<char> = chars_of(s);
    for i in 0..v.len()
        invariant
            v@ == s@,
            forall|j: int| 0 <= j < i ==> crate::text::hex_value(#[trigger] s@[j]) is Some,
    {
        if hex_value_of(v[i]).is_none() {
            assert(crate::text::hex_value(s@[i as int]) is None);
            return false;
        }
    }
    true
}

/// Whether a card's GUID starts with the given digits.
pub open spec fn guid_starts(g: Guid, prefix: Seq<char>) -> bool {
    prefix.is_prefix_of(hex_text(g@, true))
}

/// The places of the cards among the first `n` whose GUID starts with the
/// given digits.
pub open spec fn matching(cards: Seq<Guid>, prefix: Seq<char>, n: nat) -> Seq<int>
    decreases n,
{
    if n == 0 {
        seq![]
    } else {
        let before = matching(cards, prefix, (n - 1) as nat);
        if guid_starts(cards[n - 1], prefix) {
            before.push(n - 1)
        } else {
            before
        }
    }
}

/// The card to operate on: the one whose GUID starts with the given
/// digits, or the only one there is; more or fewer than one is an error.
pub open spec fn card_choice(cards: Seq<Guid>, prefix: Option<Seq<char>>) -> Result<
    int,
    Seq<char>,
> {
    if cards.len() == 0 {
        Err("no PIV tokens present"@)
    } else {
        match prefix {
            Some(p) => {
                let u = upper(p);
                let m = matching(cards, u, cards.len());
                if !all_hex(u) {
                    Err("-g "@ + debug_text(u) + ": not a hex GUID prefix"@)
                } else if m.len() == 0 {
                    Err("no PIV token matches GUID prefix "@ + u)
                } else if m.len() == 1 {
                    Ok(m[0])
                } else {
                    Err(dec(m.len()) + " PIV tokens match GUID prefix "@ + u)
                }
            },
            None => if cards.len() > 1 {
                Err("more than one PIV token present; select one with -g <guid>"@)
            } else {
                Ok(0)
            },
        }
    }
}

/// Chooses the card to operate on.
pub fn select_token(cards: &Vec<Guid>, guid_prefix: &Option<String>) -> (r: Result<usize, String>)
    ensures
        match r {
            Ok(i) => card_choice(cards@, crate::text::opt_text(*guid_prefix)) == Ok::<
                int,
                Seq<char>,
            >(i as int) && i < cards@.len(),
            Err(e) => card_choice(cards@, crate::text::opt_text(*guid_prefix)) == Err::<
                int,
                Seq<char>,
            >(e@),
        },
{
    if cards.len() == 0 {
        return Err("no PIV tokens present".to_owned());
    }
    match guid_prefix {
        Some(p) => {
            let u: String = to_upper(p.as_str());
            if !is_all_hex(u.as_str()) {
                return Err(cat3("-g ", debug_str(u.as_str()).as_str(), ": not a hex GUID prefix"));
            }
            let mut count: usize = 0;
            let mut first: usize = 0;
            for i in 0..cards.len()
                invariant
                    count == matching(cards@, u@, i as nat).len(),
                    count <= i,
                    first < cards@.len() || cards@.len() == 0,
                    count > 0 ==> matching(cards@, u@, i as nat)[0] == first,
            {
                if starts_with(cards[i].to_hex().as_str(), u.as_str()) {
                    if count == 0 {
                        first = i;
                    }
                    count = count + 1;
                }
            }
            if count == 0 {
                Err(cat2("no PIV token matches GUID prefix ", u.as_str()))
            } else if count == 1 {
                Ok(first)
            } else {
                Err(
                    cat3(
                        dec_usize(count).as_str(),
                        " PIV tokens match GUID prefix ",
                        u.as_str(),
                    ),
                )
            }
        },
        None => {
            if cards.len() > 1 {
                Err("more than one PIV token present; select one with -g <guid>".to_owned())
            } else {
                Ok(0)
            }
        },
    }
}

// --------------------------------------------------------------- operations

/// The comment behind a printed key: the slot, the card and the subject of
/// the slot's certificate.
pub open spec fn comment_of(slot: u8, guid: Seq<u8>, subject: Seq<char>) -> Seq<char> {
    "PIV_slot_"@ + hex2(slot, true) + "@"@ + hex_text(guid, true) + " \""@ + subject + "\""@
}

/// The comment behind a printed key.
pub fn pubkey_comment(slot: u8, guid: &Guid, subject: &str) -> (r: String)
    ensures
        r@ == comment_of(slot, guid@, subject@),
{
    let mut s: String = cat4(
        "PIV_slot_",
        hex2_str(slot, true).as_str(),
        "@",
        guid.to_hex().as_str(),
    );
    s.append(" \"");
    s.append(subject);
    s.append("\"");
    s
}

/// A subject in one line: each entry as `/NAME=VALUE`.
pub open spec fn oneline(entries: Seq<(Seq<char>, Seq<char>)>) -> Seq<char>
    decreases entries.len(),
{
    if entries.len() == 0 {
        seq![]
    } else {
        oneline(entries.drop_last()) + "/"@ + entries.last().0 + "="@ + entries.last().1
    }
}

/// Writes a subject in one line.
pub fn subject_line(entries: &Vec<(String, String)>) -> (r: String)
    ensures
        r@ == oneline(entries_view(entries@)),
{
    let mut out: String = String::new();
    let ghost all = entries_view(entries@);
    for i in 0..entries.len()
        invariant
            all == entries_view(entries@),
            out@ == oneline(all.take(i as int)),
    {
        assert(all.take(i + 1).drop_last() =~= all.take(i as int));
        assert(all.take(i + 1).last() == all[i as int]);
        out.append("/");
        out.append(entries[i].0.as_str());
        out.append("=");
        out.append(entries[i].1.as_str());
    }
    assert(all.take(entries@.len() as int) =~= all);
    out
}

/// Whether a line is the subject of a certificate: its values in order, each
/// under some name; nothing where the bytes are no certificate.
pub open spec fn is_subject(cert_der: Seq<u8>, line: Seq<char>) -> bool {
    match subject_values_of(cert_der) {
        Some(values) => exists|e: Seq<(Seq<char>, Seq<char>)>|
            line == #[trigger] oneline(e) && values_of(e) == values,
        None => line.len() == 0,
    }
}

/// The subject of a certificate in one line; nothing where the bytes are no
/// certificate.
pub fn subject_oneline(cert_der: &[u8]) -> (r: String)
    ensures
        is_subject(cert_der@, r@),
{
    match x509_subject(cert_der) {
        Some(e) => {
            assert(values_of(entries_view(e@)) == subject_values_of(cert_der@)->0);
            subject_line(&e)
        },
        None => String::new(),
    }
}

/// What is printed of a key that was written, or what is said where it could
/// not be.
pub fn pubkey_outcome(line: Result<String, String>) -> (r: Result<String, String>)
    ensures
        match line {
            Ok(l) => r == Ok::<String, String>(l),
            Err(e) => r is Err && r->Err_0@ == "render OpenSSH: "@ + e@,
        },
{
    match line {
        Ok(l) => Ok(l),
        Err(e) => Err(cat2("render OpenSSH: ", e.as_str())),
    }
}

/// Prints the key of a slot in OpenSSH format, with the slot, the card and
/// the subject of the certificate as its comment.
pub fn cmd_pubkey(slot: u8, guid: &Guid, cert_der: &[u8], key: &PublicKey) -> (r: Result<
    String,
    String,
>)
    ensures
        exists|subject: Seq<char>| #[trigger]
            is_subject(cert_der@, subject) && match openssh_line_of(
                key.blob@,
                comment_of(slot, guid@, subject),
            ) {
                Ok(line) => r is Ok && r->Ok_0@ == line,
                Err(e) => r is Err && r->Err_0@ == "render OpenSSH: "@ + e,
            },
{
    let subject: String = subject_oneline(cert_der);
    let comment: String = pubkey_comment(slot, guid, subject.as_str());
    let r: Result<String, String> = pubkey_outcome(
        ssh_key_line(key.blob.as_slice(), comment.as_str()),
    );
    assert(is_subject(cert_der@, subject@));
    r
}

/// The words for a certificate that could not be put into PEM text.
pub open spec fn pem_error(said: Seq<char>) -> Seq<char> {
    "encode PEM: "@ + said
}

/// The PEM text of a certificate.
pub fn print_cert_pem(cert_der: &[u8]) -> (r: Result<String, String>)
    ensures
        match r {
            Ok(p) => pem_of(cert_der@) == Some(p@),
            Err(e) => pem_of(cert_der@) is None && exists|said: Seq<char>|
                e@ == #[trigger] pem_error(said),
        },
{
    match x509_pem(cert_der) {
        Ok(p) => Ok(p),
        Err(e) => {
            let words: String = cat2("encode PEM: ", e.as_str());
            assert(words@ == pem_error(e@));
            Err(words)
        },
    }
}

/// The name of an algorithm in messages.
pub open spec fn algorithm_text(a: PivAlgorithm) -> Seq<char> {
    match a {
        PivAlgorithm::EcP256 => "EcP256"@,
        PivAlgorithm::EcP384 => "EcP384"@,
        PivAlgorithm::Rsa1024 => "Rsa1024"@,
        PivAlgorithm::Rsa2048 => "Rsa2048"@,
        PivAlgorithm::Ed25519 => "Ed25519"@,
    }
}

/// The digest that a key signs: that of its curve, or why there is none.
pub open spec fn digest_outcome(slot: u8, a: PivAlgorithm, input: Seq<u8>) -> Result<
    Seq<u8>,
    Seq<char>,
> {
    match a {
        PivAlgorithm::EcP256 => Ok(openssl_sha256_of(input)),
        PivAlgorithm::EcP384 => Ok(openssl_sha384_of(input)),
        _ => Err(
            "slot "@ + hex2(slot, true) + " key algorithm "@ + algorithm_text(a)
                + " is not supported for signing"@,
        ),
    }
}

/// Computes the digest that a key signs.
pub fn sign_digest(slot: u8, a: PivAlgorithm, input: &[u8]) -> (r: Result<Vec<u8>, String>)
    ensures
        match r {
            Ok(d) => digest_outcome(slot, a, input@) == Ok::<Seq<u8>, Seq<char>>(d@),
            Err(e) => digest_outcome(slot, a, input@) == Err::<Seq<u8>, Seq<char>>(e@),
        },
{
    match a {
        PivAlgorithm::EcP256 => Ok(openssl_sha256(input)),
        PivAlgorithm::EcP384 => Ok(openssl_sha384(input)),
        _ => Err(
            cat5(
                "slot ",
                hex2_str(slot, true).as_str(),
                " key algorithm ",
                crate::cmd::agent::algorithm_name(a),
                " is not supported for signing",
            ),
        ),
    }
}

/// Whether a slot's key can take part in a key agreement.
pub fn can_ecdh(slot: u8) -> (r: bool)
    ensures
        r == (slot == 0x9A || slot == 0x9C || slot == 0x9D || slot == 0x9E),
{
    slot == 0x9A || slot == 0x9C || slot == 0x9D || slot == 0x9E
}

/// The point of a public key that was read, or what is wrong with it.
pub open spec fn point_of_key(k: Result<KeyView, Seq<char>>) -> Result<Seq<u8>, Seq<char>> {
    match k {
        Err(e) => Err("failed to parse public key input: "@ + e),
        Ok(v) => match v.sec1 {
            Some(p) => Ok(p),
            None => Err("public key input is not an EC key"@),
        },
    }
}

/// Takes the point of a public key that was read.
pub fn ec_point_of(key: Result<PublicKey, String>) -> (r: Result<Vec<u8>, String>)
    ensures
        ({
            let k = match key {
                Ok(v) => Ok::<KeyView, Seq<char>>(v@),
                Err(e) => Err(e@),
            };
            match r {
                Ok(p) => point_of_key(k) == Ok::<Seq<u8>, Seq<char>>(p@),
                Err(e) => point_of_key(k) == Err::<Seq<u8>, Seq<char>>(e@),
            }
        }),
{
    match key {
        Err(e) => Err(cat2("failed to parse public key input: ", e.as_str())),
        Ok(k) => match k.sec1 {
            Some(p) => Ok(p),
            None => Err("public key input is not an EC key".to_owned()),
        },
    }
}

/// Reads the point of an elliptic-curve key in OpenSSH format.
pub fn parse_openssh_ec_point(input: &str) -> (r: Result<Vec<u8>, String>)
    ensures
        match r {
            Ok(p) => point_of_key(openssh_key_of(trimmed(input@))) == Ok::<Seq<u8>, Seq<char>>(
                p@,
            ),
            Err(e) => point_of_key(openssh_key_of(trimmed(input@))) == Err::<Seq<u8>, Seq<char>>(
                e@,
            ),
        },
{
    ec_point_of(ssh_key_from_openssh(trim(input).as_str()))
}

// ------------------------------------------------------------- credentials

/// A credential: given with the invocation, or to be asked for with these
/// words under this context.
pub enum Credential {
    Given(String),
    Ask { prompt: String, context: String },
}

/// [`Credential`] over plain text.
pub enum CredentialView {
    Given(Seq<char>),
    Ask(Seq<char>, Seq<char>),
}

impl View for Credential {
    type V = CredentialView;

    open spec fn view(&self) -> CredentialView {
        match self {
            Credential::Given(p) => CredentialView::Given(p@),
            Credential::Ask { prompt, context } => CredentialView::Ask(prompt@, context@),
        }
    }
}

/// The PIN for an operation: the first code that was given, else asked for.
pub open spec fn pin_source(pins: Seq<Seq<char>>, op: Seq<char>) -> CredentialView {
    if pins.len() > 0 {
        CredentialView::Given(pins[0])
    } else {
        CredentialView::Ask("Enter PIV PIN for "@ + op + ": "@, "piggy-tool:"@ + op)
    }
}

/// Decides where the PIN for an operation comes from.
pub fn get_pin(inv: &Invocation, op: &str) -> (r: Credential)
    ensures
        r@ == pin_source(texts(inv.pins@), op@),
{
    if inv.pins.len() > 0 {
        assert(texts(inv.pins@)[0] == inv.pins@[0]@);
        return Credential::Given(inv.pins[0].clone());
    }
    Credential::Ask {
        prompt: cat3("Enter PIV PIN for ", op, ": "),
        context: cat2("piggy-tool:", op),
    }
}

/// A credential of an operation that takes two: the code at its place among
/// those given, else asked for.
pub open spec fn secret_source(
    pins: Seq<Seq<char>>,
    place: int,
    op: Seq<char>,
    which: Seq<char>,
    label: Seq<char>,
) -> CredentialView {
    if place < pins.len() {
        CredentialView::Given(pins[place])
    } else {
        CredentialView::Ask(
            "Enter "@ + which + " "@ + label + ": "@,
            "piggy-tool:"@ + op + ":"@ + which,
        )
    }
}

fn secret_at(inv: &Invocation, place: usize, op: &str, which: &str, label: &str) -> (r: Credential)
    ensures
        r@ == secret_source(texts(inv.pins@), place as int, op@, which@, label@),
{
    if place < inv.pins.len() {
        assert(texts(inv.pins@)[place as int] == inv.pins@[place as int]@);
        return Credential::Given(inv.pins[place].clone());
    }
    Credential::Ask {
        prompt: cat5("Enter ", which, " ", label, ": "),
        context: cat4("piggy-tool:", op, ":", which),
    }
}

/// Decides where the current and the new value of a credential come from.
pub fn change_sources(inv: &Invocation, secret: Secret) -> (r: (Credential, Credential))
    ensures
        ({
            let label = match secret {
                Secret::Pin => "PIN"@,
                Secret::Puk => "PUK"@,
            };
            let op = op_name(ToolOp::Change(secret));
            &&& r.0@ == secret_source(texts(inv.pins@), 0, op, "current"@, label)
            &&& r.1@ == secret_source(texts(inv.pins@), 1, op, "new"@, label)
        }),
{
    let (label, op) = (secret.label(), secret.op());
    (secret_at(inv, 0, op, "current", label), secret_at(inv, 1, op, "new", label))
}

/// Decides where the PUK and the new PIN of a reset come from.
pub fn reset_sources(inv: &Invocation) -> (r: (Credential, Credential))
    ensures
        r.0@ == secret_source(texts(inv.pins@), 0, "reset-pin"@, "current"@, "PUK"@),
        r.1@ == secret_source(texts(inv.pins@), 1, "reset-pin"@, "new"@, "PIN"@),
{
    (
        secret_at(inv, 0, "reset-pin", "current", "PUK"),
        secret_at(inv, 1, "reset-pin", "new", "PIN"),
    )
}

/// How the card answered a change of credential.
pub enum ChangeOutcome {
    Done,
    /// The value that authorises the change was wrong; the tries left.
    Incorrect(u32),
    Failed(String),
}

/// What is printed of a change, and the exit code.
pub fn cmd_change_secret(secret: Secret, outcome: &ChangeOutcome) -> (r: (i32, Option<String>))
    ensures
        ({
            let op = op_name(ToolOp::Change(secret));
            let label = match secret {
                Secret::Pin => "PIN"@,
                Secret::Puk => "PUK"@,
            };
            match outcome {
                ChangeOutcome::Done => r.0 == 0 && r.1 is None,
                ChangeOutcome::Incorrect(n) => r.0 == 1 && r.1 is Some && r.1->0@ == "piggy tool "@
                    + op + ": current "@ + label + " was incorrect ("@ + dec(*n as nat)
                    + " attempt(s) remaining); "@ + label + " change failed"@,
                ChangeOutcome::Failed(e) => r.0 == 1 && r.1 is Some && r.1->0@ == "piggy tool "@
                    + op + ": failed to set new "@ + label + ": "@ + e@,
            }
        }),
{
    let (label, op) = (secret.label(), secret.op());
    match outcome {
        ChangeOutcome::Done => (0, None),
        ChangeOutcome::Incorrect(n) => {
            let mut s: String = cat5("piggy tool ", op, ": current ", label, " was incorrect (");
            s.append(dec_u64(*n as u64).as_str());
            s.append(" attempt(s) remaining); ");
            s.append(label);
            s.append(" change failed");
            (1, Some(s))
        },
        ChangeOutcome::Failed(e) => {
            let mut s: String = cat5("piggy tool ", op, ": failed to set new ", label, ": ");
            s.append(e.as_str());
            (1, Some(s))
        },
    }
}

/// What is printed of a reset, and the exit code.
pub fn cmd_reset_pin(outcome: &ChangeOutcome) -> (r: (i32, Option<String>))
    ensures
        match outcome {
            ChangeOutcome::Done => r.0 == 0 && r.1 is None,
            ChangeOutcome::Incorrect(n) => r.0 == 1 && r.1 is Some && r.1->0@
                == "piggy tool reset-pin: PUK was incorrect ("@ + dec(*n as nat)
                + " attempt(s) remaining); PIN reset failed"@,
            ChangeOutcome::Failed(e) => r.0 == 1 && r.1 is Some && r.1->0@
                == "piggy tool reset-pin: failed to reset PIN: "@ + e@,
        },
{
    match outcome {
        ChangeOutcome::Done => (0, None),
        ChangeOutcome::Incorrect(n) => (
            1,
            Some(
                cat3(
                    "piggy tool reset-pin: PUK was incorrect (",
                    dec_u64(*n as u64).as_str(),
                    " attempt(s) remaining); PIN reset failed",
                ),
            ),
        ),
        ChangeOutcome::Failed(e) => (
            1,
            Some(cat2("piggy tool reset-pin: failed to reset PIN: ", e.as_str())),
        ),
    }
}

} // verus!
