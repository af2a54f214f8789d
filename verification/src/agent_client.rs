//! Asking an SSH agent: reading what it answers.
use crate::card_oracle::{OracleError, OracleView};
use crate::cmd::agent::session::{extension_name, query_details, ExtensionKind};
use crate::text::{cat2, cat3, cat5, dec, dec_usize, text_from_utf8, texts, utf8_error_text};
use crate::wire::{
    be32_value, field_at, field_body, find_field, lemma_be32_len, lemma_field_of_string,
    put_string, ssh_string, FieldError,
};
use vstd::prelude::*;
use vstd::slice::slice_subrange;
use vstd::utf8::{decode_utf8, encode_utf8, valid_utf8};

verus! {

/// The outcome of asking the agent for one signature: the algorithm, the
/// length and the time in milliseconds, or the agent's error.
pub struct SignProbe {
    pub comment: String,
    pub fingerprint: String,
    pub outcome: Result<(String, usize, u64), String>,
}

/// The socket that takes precedence over the ambient one, where the
/// variable is set to something. A path is any bytes.
pub fn piggy_auth_sock_override(variable: Option<Vec<u8>>) -> (r: Option<Vec<u8>>)
    ensures
        match variable {
            Some(v) => if v@.len() > 0 {
                r == Some(v)
            } else {
                r is None
            },
            None => r is None,
        },
{
    match variable {
        Some(v) => {
            if v.len() == 0 {
                None
            } else {
                Some(v)
            }
        },
        None => None,
    }
}

// ---------------------------------------------------- the list of extensions

/// The names in `buf` from `at` on, each a length-prefixed string, up to
/// the end.
pub open spec fn flat_names(buf: Seq<u8>, at: int) -> Result<Seq<Seq<char>>, Seq<char>>
    decreases buf.len() - at,
    when 0 <= at <= buf.len()
{
    if at >= buf.len() {
        Ok(seq![])
    } else {
        match field_at(buf, at) {
            Err(FieldError::NoLength) => Err(
                "query response: truncated length prefix ("@ + dec((buf.len() - at) as nat)
                    + " trailing bytes)"@,
            ),
            Err(FieldError::TooLong(len, rest)) => Err(
                "query response: truncated name (want "@ + dec(len as nat) + " bytes, have "@
                    + dec(rest as nat) + ")"@,
            ),
            Ok((_, next)) => {
                let body = field_body(buf, at);
                if !valid_utf8(body) {
                    Err("query response: non-UTF-8 extension name: "@ + utf8_error_text(body))
                } else {
                    match flat_names(buf, next) {
                        Err(e) => Err(e),
                        Ok(rest) => Ok(seq![decode_utf8(body)] + rest),
                    }
                }
            },
        }
    }
}

/// Reads names that follow each other up to the end.
pub fn parse_flat_cstrings(buf: &[u8]) -> (r: Result<Vec<String>, String>)
    ensures
        match r {
            Ok(names) => flat_names(buf@, 0) == Ok::<Seq<Seq<char>>, Seq<char>>(texts(names@)),
            Err(e) => flat_names(buf@, 0) == Err::<Seq<Seq<char>>, Seq<char>>(e@),
        },
{
    let mut names: Vec<String> = Vec::new();
    let mut at: usize = 0;
    while at < buf.len()
        invariant
            at <= buf@.len(),
            match flat_names(buf@, at as int) {
                Ok(rest) => flat_names(buf@, 0) == Ok::<Seq<Seq<char>>, Seq<char>>(
                    texts(names@) + rest,
                ),
                Err(e) => flat_names(buf@, 0) == Err::<Seq<Seq<char>>, Seq<char>>(e),
            },
        decreases buf@.len() - at,
    {
        match find_field(buf, at) {
            Err(FieldError::NoLength) => return Err(
                cat3(
                    "query response: truncated length prefix (",
                    dec_usize(buf.len() - at).as_str(),
                    " trailing bytes)",
                ),
            ),
            Err(FieldError::TooLong(len, rest)) => return Err(
                cat5(
                    "query response: truncated name (want ",
                    dec_usize(len).as_str(),
                    " bytes, have ",
                    dec_usize(rest).as_str(),
                    ")",
                ),
            ),
            Ok((from, to)) => {
                let body: &[u8] = slice_subrange(buf, from, to);
                match text_from_utf8(body) {
                    Err(e) => return Err(
                        cat2("query response: non-UTF-8 extension name: ", e.as_str()),
                    ),
                    Ok(name) => {
                        let ghost before = texts(names@);
                        names.push(name);
                        proof {
                            assert(texts(names@) =~= before.push(name@));
                            if let Ok(rest) = flat_names(buf@, to as int) {
                                assert(before + (seq![name@] + rest) =~= texts(names@) + rest);
                            }
                        }
                    },
                }
                at = to;
            },
        }
    }
    assert(texts(names@) + seq![] =~= texts(names@));
    Ok(names)
}

/// Whether a reply is one string that wraps the list.
pub open spec fn is_wrapped(details: Seq<u8>) -> bool {
    details.len() >= 4 && be32_value(details.subrange(0, 4)) + 4 == details.len()
}

/// The names in a reply to a query. Agents send them one after another, or
/// wrapped in one more string; a reply whose first length covers the rest
/// is taken as wrapped.
pub open spec fn query_names(details: Seq<u8>) -> Result<Seq<Seq<char>>, Seq<char>> {
    if is_wrapped(details) {
        flat_names(details.subrange(4, details.len() as int), 0)
    } else {
        flat_names(details, 0)
    }
}

/// Reads a reply to a query.
pub fn decode_query_response(details: &[u8]) -> (r: Result<Vec<String>, String>)
    ensures
        match r {
            Ok(names) => query_names(details@) == Ok::<Seq<Seq<char>>, Seq<char>>(texts(names@)),
            Err(e) => query_names(details@) == Err::<Seq<Seq<char>>, Seq<char>>(e@),
        },
{
    if let Ok((from, to)) = find_field(details, 0) {
        if to == details.len() {
            return parse_flat_cstrings(slice_subrange(details, from, to));
        }
    }
    parse_flat_cstrings(details)
}

/// Reads the agent's answer to a query, which must carry a list.
pub fn probe_extensions(reply: Option<Vec<u8>>) -> (r: Result<Vec<String>, String>)
    ensures
        match reply {
            None => r is Err && r->Err_0@
                == "agent answered query with plain SUCCESS (no extension list)"@,
            Some(details) => match r {
                Ok(names) => query_names(details@) == Ok::<Seq<Seq<char>>, Seq<char>>(
                    texts(names@),
                ),
                Err(e) => query_names(details@) == Err::<Seq<Seq<char>>, Seq<char>>(e@),
            },
        },
{
    match reply {
        None => Err("agent answered query with plain SUCCESS (no extension list)".to_owned()),
        Some(details) => decode_query_response(details.as_slice()),
    }
}

/// The reply that must come back from a key agreement.
pub fn ecdh_reply(reply: Option<Vec<u8>>) -> (r: Result<Vec<u8>, OracleError>)
    ensures
        match reply {
            None => r is Err && r->Err_0@ == OracleView::Protocol(
                "agent returned SUCCESS instead of ExtensionResponse"@,
            ),
            Some(details) => r == Ok::<Vec<u8>, OracleError>(details),
        },
{
    match reply {
        None => Err(
            OracleError::Protocol("agent returned SUCCESS instead of ExtensionResponse".to_owned()),
        ),
        Some(details) => Ok(details),
    }
}

// -------------------------------------------------------------------- laws

/// A list of names one after another.
pub open spec fn flat_encoding(names: Seq<Seq<char>>) -> Seq<u8>
    decreases names.len(),
{
    if names.len() == 0 {
        seq![]
    } else {
        ssh_string(encode_utf8(names[0])) + flat_encoding(names.subrange(1, names.len() as int))
    }
}

/// Writes a list of names one after another.
pub fn encode_names(names: &Vec<String>) -> (r: Vec<u8>)
    ensures
        r@ == flat_encoding(texts(names@)),
{
    let ghost all = texts(names@);
    let mut out: Vec<u8> = Vec::new();
    let n: usize = names.len();
    let mut i: usize = 0;
    assert(all.subrange(0, all.len() as int) =~= all);
    assert(out@ + flat_encoding(all) =~= flat_encoding(all));
    while i < n
        invariant
            n == names@.len(),
            i <= n,
            all == texts(names@),
            flat_encoding(all) == out@ + flat_encoding(all.subrange(i as int, n as int)),
        decreases n - i,
    {
        let ghost before = out@;
        let ghost rest = all.subrange(i as int, n as int);
        put_string(&mut out, names[i].as_str().as_bytes());
        assert(rest[0] == names@[i as int]@);
        assert(rest.subrange(1, rest.len() as int) =~= all.subrange(i + 1, n as int));
        assert(out@ + flat_encoding(all.subrange(i + 1, n as int)) =~= before + flat_encoding(
            rest,
        ));
        i = i + 1;
    }
    assert(out@ + flat_encoding(all.subrange(n as int, n as int)) =~= out@);
    out
}

/// Whether every name is short enough for its length prefix.
pub open spec fn names_fit(names: Seq<Seq<char>>) -> bool {
    forall|i: int| 0 <= i < names.len() ==> encode_utf8(#[trigger] names[i]).len() < 0x1_0000_0000
}

proof fn lemma_flat_round_trip(before: Seq<u8>, names: Seq<Seq<char>>)
    requires
        names_fit(names),
    ensures
        flat_names(before + flat_encoding(names), before.len() as int) == Ok::<
            Seq<Seq<char>>,
            Seq<char>,
        >(names),
    decreases names.len(),
{
    let buf = before + flat_encoding(names);
    if names.len() > 0 {
        let body = encode_utf8(names[0]);
        let rest = names.subrange(1, names.len() as int);
        lemma_field_of_string(before, body, flat_encoding(rest));
        assert(buf =~= before + ssh_string(body) + flat_encoding(rest));
        vstd::utf8::encode_utf8_valid_utf8(names[0]);
        vstd::utf8::encode_utf8_decode_utf8(names[0]);
        assert forall|i: int| 0 <= i < rest.len() implies encode_utf8(#[trigger] rest[i]).len()
            < 0x1_0000_0000 by {
            assert(rest[i] == names[i + 1]);
        }
        lemma_be32_len(body.len() % 0x1_0000_0000);
        let next = before + ssh_string(body);
        lemma_flat_round_trip(next, rest);
        assert(next + flat_encoding(rest) =~= buf);
        assert(seq![names[0]] + rest =~= names);
        assert(decode_utf8(field_body(buf, before.len() as int)) == names[0]);
    } else {
        assert(buf =~= before);
        assert(names =~= seq![]);
    }
}

/// A list that an agent sends one name after another is read back, as long
/// as it does not hold exactly one name: that one is taken for a wrapped
/// list.
pub proof fn law_flat_list_is_read_back(names: Seq<Seq<char>>)
    requires
        names_fit(names),
        names.len() != 1,
    ensures
        query_names(flat_encoding(names)) == Ok::<Seq<Seq<char>>, Seq<char>>(names),
{
    let buf = flat_encoding(names);
    lemma_flat_round_trip(Seq::empty(), names);
    assert(Seq::<u8>::empty() + buf =~= buf);
    if names.len() >= 2 {
        let rest = names.subrange(1, names.len() as int);
        let body = encode_utf8(names[0]);
        lemma_field_of_string(Seq::empty(), body, flat_encoding(rest));
        assert(Seq::<u8>::empty() + ssh_string(body) + flat_encoding(rest) =~= buf);
        lemma_be32_len(encode_utf8(rest[0]).len() % 0x1_0000_0000);
        lemma_be32_len(body.len() % 0x1_0000_0000);
        assert(flat_encoding(rest).len() >= 4);
        assert(!is_wrapped(buf));
    }
}

/// A list that an agent wraps in one more string is read back.
pub proof fn law_wrapped_list_is_read_back(names: Seq<Seq<char>>)
    requires
        names_fit(names),
        flat_encoding(names).len() < 0x1_0000_0000,
    ensures
        query_names(ssh_string(flat_encoding(names))) == Ok::<Seq<Seq<char>>, Seq<char>>(names),
{
    let body = flat_encoding(names);
    let buf = ssh_string(body);
    lemma_flat_round_trip(Seq::empty(), names);
    assert(Seq::<u8>::empty() + body =~= body);
    lemma_field_of_string(Seq::empty(), body, Seq::empty());
    assert(Seq::<u8>::empty() + buf + Seq::<u8>::empty() =~= buf);
    lemma_be32_len(body.len() % 0x1_0000_0000);
    assert(buf.subrange(4, buf.len() as int) =~= body);
    assert(is_wrapped(buf));
}

/// The names of the extensions that the agent serves.
pub open spec fn served_names() -> Seq<Seq<char>> {
    seq![
        extension_name(ExtensionKind::Query),
        extension_name(ExtensionKind::SessionBind),
        extension_name(ExtensionKind::PinStatus),
        extension_name(ExtensionKind::Ecdh),
        extension_name(ExtensionKind::EcdhRebox),
        extension_name(ExtensionKind::Attest),
    ]
}

proof fn lemma_encoding_len(s: Seq<char>)
    ensures
        encode_utf8(s).len() <= 4 * s.len(),
    decreases s.len(),
{
    if s.len() > 0 {
        lemma_encoding_len(s.drop_first());
    }
}

/// What the agent answers to a query is read as the names of exactly the
/// extensions that it serves.
pub proof fn law_query_reply_is_understood()
    ensures
        query_names(query_details()) == Ok::<Seq<Seq<char>>, Seq<char>>(served_names()),
{
    let n = served_names();
    reveal_strlit("query");
    reveal_strlit("session-bind@openssh.com");
    reveal_strlit("pin-status@joyent.com");
    reveal_strlit("ecdh@joyent.com");
    reveal_strlit("ecdh-rebox@joyent.com");
    reveal_strlit("ykpiv-attest@joyent.com");
    assert forall|i: int| 0 <= i < n.len() implies encode_utf8(#[trigger] n[i]).len()
        < 0x1_0000_0000 by {
        lemma_encoding_len(n[i]);
        assert(n[i].len() <= 24);
    }
    law_flat_list_is_read_back(n);
    reveal_with_fuel(flat_encoding, 7);
    let n1 = n.subrange(1, 6);
    let n2 = n1.subrange(1, 5);
    let n3 = n2.subrange(1, 4);
    let n4 = n3.subrange(1, 3);
    let n5 = n4.subrange(1, 2);
    assert(n1[0] == n[1] && n2[0] == n[2] && n3[0] == n[3] && n4[0] == n[4] && n5[0] == n[5]);
    assert(n5.subrange(1, 1) =~= Seq::<Seq<char>>::empty());
    assert(flat_encoding(n) =~= query_details());
}

} // verus!
