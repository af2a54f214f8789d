//! What holds of the operations on a card.
use crate::cmd::tool::job::{
    begun, next, ChangeView, EventView, JobView, SlotView, StageView,
};
use crate::cmd::tool::{
    card_choice, digest_outcome, guid_starts, matching, parse_from, pin_source,
    point_of_key, secret_source, slot_outcome, upper, upper_char, without_0x, CredentialView,
    InvocationView, ToolOp,
};
use crate::crypto::{
    hex_text, openssh_key_of, openssh_line_of, openssl_sha256_of, openssl_sha384_of, pem_of,
    KeyView,
};
use crate::piv::{Guid, PivAlgorithm};
use crate::text::{
    hex2, hex_digit, hex_value, is_white, law_hex_byte_round_trip,
    law_trim_takes_white_space_around,
};
use vstd::prelude::*;

verus! {

// ---------------------------------------------------------------- which card

proof fn lemma_matching(cards: Seq<Guid>, prefix: Seq<char>, n: nat)
    requires
        n <= cards.len(),
    ensures
        forall|i: int|
            0 <= i < matching(cards, prefix, n).len() ==> 0 <= #[trigger] matching(
                cards,
                prefix,
                n,
            )[i] < n && guid_starts(cards[matching(cards, prefix, n)[i]], prefix),
        forall|j: int|
            0 <= j < n && guid_starts(#[trigger] cards[j], prefix) ==> matching(
                cards,
                prefix,
                n,
            ).contains(j),
        forall|i: int, j: int|
            0 <= i < j < matching(cards, prefix, n).len() ==> #[trigger] matching(
                cards,
                prefix,
                n,
            )[i] < #[trigger] matching(cards, prefix, n)[j],
    decreases n,
{
    if n > 0 {
        lemma_matching(cards, prefix, (n - 1) as nat);
        let before = matching(cards, prefix, (n - 1) as nat);
        let all = matching(cards, prefix, n);
        assert forall|j: int| 0 <= j < n && guid_starts(#[trigger] cards[j], prefix) implies
            all.contains(j) by {
            if j < n - 1 {
                let k = choose|k: int| 0 <= k < before.len() && before[k] == j;
                assert(all[k] == j);
            } else {
                assert(all[before.len() as int] == j);
            }
        }
    }
}

/// Hexadecimal digits in lower case, made upper case, are the digits in upper
/// case.
proof fn lemma_upper_hex(g: Seq<u8>, up: bool)
    ensures
        upper(hex_text(g, up)) == hex_text(g, true),
{
    assert forall|i: int| 0 <= i < 2 * g.len() implies upper(hex_text(g, up))[i] == hex_text(
        g,
        true,
    )[i] by {
        let d = if i % 2 == 0 {
            g[i / 2] as int / 16
        } else {
            g[i / 2] as int % 16
        };
        assert(0 <= d < 16);
        assert(upper_char(hex_digit(d, up)) == hex_digit(d, true));
    }
    assert(upper(hex_text(g, up)) =~= hex_text(g, true));
}

/// The card to operate on is the one whose GUID starts with the digits that
/// were given, in either case, as long as it is the only one.
pub proof fn law_card_is_found_by_its_first_digits(cards: Seq<Guid>, i: int, n: int, up: bool)
    requires
        0 <= i < cards.len(),
        0 <= n <= 2 * cards[i]@.len(),
        forall|j: int|
            0 <= j < cards.len() && j != i ==> hex_text((#[trigger] cards[j])@, true).take(
                n,
            ) != hex_text(cards[i]@, true).take(n),
    ensures
        card_choice(cards, Some(hex_text(cards[i]@, up).take(n))) == Ok::<int, Seq<char>>(i),
{
    let typed = hex_text(cards[i]@, up).take(n);
    let u = upper(typed);
    let whole = hex_text(cards[i]@, true);
    lemma_upper_hex(cards[i]@, up);
    assert(u =~= whole.take(n)) by {
        assert forall|k: int| 0 <= k < n implies u[k] == whole[k] by {
            assert(upper(hex_text(cards[i]@, up))[k] == whole[k]);
        }
    }
    assert forall|k: int| 0 <= k < u.len() implies hex_value(#[trigger] u[k]) is Some by {
        let b = cards[i]@[k / 2] as int;
        assert(u[k] == whole[k]);
        assert(0 <= b / 16 < 16 && 0 <= b % 16 < 16);
    }
    let m = matching(cards, u, cards.len());
    lemma_matching(cards, u, cards.len());
    assert(whole.subrange(0, n) =~= whole.take(n));
    assert(guid_starts(cards[i], u));
    assert(m.contains(i));
    assert forall|k: int| 0 <= k < m.len() implies m[k] == i by {
        let j = m[k];
        assert(guid_starts(cards[j], u));
        let other = hex_text(cards[j]@, true);
        assert(other.subrange(0, u.len() as int) =~= other.take(n));
    }
    if m.len() > 1 {
        assert(m[0] < m[1]);
    }
    let k = choose|k: int| 0 <= k < m.len() && m[k] == i;
    assert(m[0] == i);
}

/// No card is operated on whose GUID does not start with the digits that were
/// given, and none while another does as well; without digits there must be
/// one card.
pub proof fn law_chosen_card_is_the_only_one(cards: Seq<Guid>, prefix: Option<Seq<char>>, i: int)
    requires
        card_choice(cards, prefix) == Ok::<int, Seq<char>>(i),
    ensures
        0 <= i < cards.len(),
        prefix is None ==> cards.len() == 1,
        prefix matches Some(p) ==> forall|j: int|
            0 <= j < cards.len() ==> (upper(p).is_prefix_of(
                hex_text((#[trigger] cards[j])@, true),
            ) <==> j == i),
{
    if let Some(p) = prefix {
        let u = upper(p);
        let m = matching(cards, u, cards.len());
        lemma_matching(cards, u, cards.len());
        assert(m[0] == i);
        assert forall|j: int| 0 <= j < cards.len() implies (u.is_prefix_of(
            hex_text((#[trigger] cards[j])@, true),
        ) <==> j == i) by {
            if guid_starts(cards[j], u) {
                let k = choose|k: int| 0 <= k < m.len() && m[k] == j;
                assert(k == 0);
            }
        }
    }
}

// --------------------------------------------------------------- which slot

/// A slot that can hold a certificate is named by its number in hexadecimal,
/// with or without `0x` before it; a number that is no such slot is refused,
/// and so is no number at all.
pub proof fn law_slot_is_named_in_hexadecimal(
    slot: u8,
    up: bool,
    rest: Seq<Seq<char>>,
    op: Seq<char>,
)
    ensures
        ({
            let holds = slot == 0x9a || slot == 0x9c || slot == 0x9d || slot == 0x9e || 0x82
                <= slot <= 0x95 || slot == 0xf9;
            let plain = slot_outcome(seq![hex2(slot, up)] + rest, op);
            let marked = slot_outcome(seq!["0x"@ + hex2(slot, up)] + rest, op);
            &&& holds ==> plain == Ok::<u8, Seq<char>>(slot) && marked == Ok::<u8, Seq<char>>(slot)
            &&& !holds ==> plain is Err && marked is Err
        }),
        slot_outcome(seq![], op) is Err,
{
    law_hex_byte_round_trip(slot, up);
    reveal_strlit("0x");
    let digits = hex2(slot, up);
    let with = "0x"@ + digits;
    assert(with.subrange(2, with.len() as int) =~= digits);
    assert("0x"@ =~= with.subrange(0, 2));
    assert(without_0x(with) == digits);
    assert(without_0x(digits) == digits) by {
        if "0x"@.is_prefix_of(digits) {
            assert(digits.subrange(0, 2)[1] == 'x');
            assert(digits[1] == hex_digit(slot as int % 16, up));
        }
    }
    assert((seq![digits] + rest)[0] == digits);
    assert((seq![with] + rest)[0] == with);
}

// ---------------------------------------------------------------- arguments

/// The options before an operation name the card and the codes, in order;
/// what follows the operation are its arguments.
pub proof fn law_invocation_is_read(
    op: Seq<char>,
    rest: Seq<Seq<char>>,
    guid: Seq<char>,
    one: Seq<char>,
    two: Seq<char>,
)
    requires
        op == "pubkey"@ || op == "cert"@ || op == "attest"@ || op == "sign"@ || op == "ecdh"@ || op
            == "change-pin"@ || op == "change-puk"@ || op == "reset-pin"@,
    ensures
        parse_from(seq![op] + rest, 0, None, seq![]) == Some(
            InvocationView { guid: None, pins: seq![], op, positionals: rest },
        ),
        parse_from(
            seq!["-g"@, guid, "-P"@, one, "-P"@, two, op] + rest,
            0,
            None,
            seq![],
        ) == Some(
            InvocationView { guid: Some(guid), pins: seq![one, two], op, positionals: rest },
        ),
{
    reveal_strlit("-g");
    reveal_strlit("-P");
    reveal_strlit("pubkey");
    reveal_strlit("cert");
    reveal_strlit("attest");
    reveal_strlit("sign");
    reveal_strlit("ecdh");
    reveal_strlit("change-pin");
    reveal_strlit("change-puk");
    reveal_strlit("reset-pin");
    assert("-g"@[1] != "-P"@[1]);
    assert(op.len() > 0 && op[0] != '-');
    let short = seq![op] + rest;
    assert(short.subrange(1, short.len() as int) =~= rest);
    let long = seq!["-g"@, guid, "-P"@, one, "-P"@, two, op] + rest;
    assert(long[0] == "-g"@ && long[1] == guid && long[2] == "-P"@ && long[3] == one && long[4]
        == "-P"@ && long[5] == two && long[6] == op);
    assert(long.subrange(7, long.len() as int) =~= rest);
    reveal_with_fuel(parse_from, 4);
    assert(Seq::<Seq<char>>::empty().push(one).push(two) =~= seq![one, two]);
    assert(parse_from(long, 6, Some(guid), seq![one, two]) == Some(
        InvocationView { guid: Some(guid), pins: seq![one, two], op, positionals: rest },
    ));
}

/// The PIN is the first code that was given; a change takes the first as the
/// current one and the second as the new one; what was not given is asked
/// for.
pub proof fn law_codes_are_taken_in_order(pins: Seq<Seq<char>>, op: Seq<char>, label: Seq<char>)
    ensures
        pins.len() >= 1 ==> pin_source(pins, op) == CredentialView::Given(pins[0]),
        pins.len() == 0 ==> pin_source(pins, op) is Ask,
        pins.len() >= 1 ==> secret_source(pins, 0, op, "current"@, label) == CredentialView::Given(
            pins[0],
        ),
        pins.len() >= 2 ==> secret_source(pins, 1, op, "new"@, label) == CredentialView::Given(
            pins[1],
        ),
        pins.len() < 2 ==> secret_source(pins, 1, op, "new"@, label) is Ask,
{
}

/// A changed code goes from the current to the new one, and in that order to
/// the card; resetting a PIN takes the PUK first and the new PIN second.
pub proof fn law_change_goes_from_current_to_new(
    op: ToolOp,
    inv: InvocationView,
    cards: Seq<Guid>,
    said: Seq<char>,
)
    requires
        op is Change || op is ResetPin,
        inv.pins.len() >= 2,
        card_choice(cards, inv.guid) is Ok,
    ensures
        ({
            let chosen = next(begun(op, inv), EventView::Cards(Ok(cards)), said);
            let ready = next(chosen, EventView::Done(None), said);
            &&& chosen.card == Some(card_choice(cards, inv.guid)->Ok_0)
            &&& ready.stage == StageView::Change(inv.pins[0], inv.pins[1])
        }),
{
}

// ------------------------------------------------------------------ working

/// A key signs the digest of its curve, SHA-256 for P-256 and SHA-384 for
/// P-384, and keys of no other kind sign.
pub proof fn law_digest_is_that_of_the_curve(slot: u8, a: PivAlgorithm, input: Seq<u8>)
    ensures
        a is EcP256 ==> digest_outcome(slot, a, input) == Ok::<Seq<u8>, Seq<char>>(
            openssl_sha256_of(input),
        ),
        a is EcP384 ==> digest_outcome(slot, a, input) == Ok::<Seq<u8>, Seq<char>>(
            openssl_sha384_of(input),
        ),
        !(a is EcP256 || a is EcP384) ==> digest_outcome(slot, a, input) is Err,
{
}

/// A key agreement is done on the chosen card with the point of the key that
/// was read, whatever white space surrounds it, and what the card derives is
/// written as it is.
pub proof fn law_agreement_is_with_the_key_that_was_read(
    j: JobView,
    before: Seq<char>,
    line: Seq<char>,
    after: Seq<char>,
    key: KeyView,
    point: Seq<u8>,
    secret: Seq<u8>,
    said: Seq<char>,
)
    requires
        j.op is Ecdh,
        j.stage is PeerKey,
        j.inv.pins.len() > 0,
        forall|i: int| 0 <= i < before.len() ==> is_white(#[trigger] before[i]),
        forall|i: int| 0 <= i < after.len() ==> is_white(#[trigger] after[i]),
        line.len() > 0 ==> !is_white(line[0]) && !is_white(line.last()),
        openssh_key_of(line) == Ok::<KeyView, Seq<char>>(key),
        key.sec1 == Some(point),
    ensures
        ({
            let read = next(j, EventView::PeerKey(Ok(before + line + after)), said);
            let ready = next(
                next(read, EventView::Done(None), said),
                EventView::Done(None),
                said,
            );
            let derived = next(ready, EventView::Output(Ok(secret)), said);
            &&& read.stage == StageView::Session(point, j.inv.pins[0])
            &&& ready.stage == StageView::Use(point)
            &&& derived.stage == StageView::Write(secret)
        }),
{
    law_trim_takes_white_space_around(before, line, after);
    assert(point_of_key(openssh_key_of(line)) == Ok::<Seq<u8>, Seq<char>>(point));
}

/// Key agreement is refused for any slot but the four primary ones, before a
/// card is looked for.
pub proof fn law_agreement_needs_a_primary_slot(inv: InvocationView, slot: u8)
    requires
        slot_outcome(inv.positionals, "ecdh"@) == Ok::<u8, Seq<char>>(slot),
    ensures
        begun(ToolOp::Ecdh, inv).stage is Cards <==> slot == 0x9A || slot == 0x9C || slot == 0x9D
            || slot == 0x9E,
        begun(ToolOp::Ecdh, inv).stage is Cards || begun(ToolOp::Ecdh, inv).stage is Ended,
        begun(ToolOp::Ecdh, inv).slot == slot,
{
}

/// What is printed of a slot is of the card that was chosen: its key, named
/// after the slot and the card, or its certificate; and then the operation
/// is over.
pub proof fn law_slot_of_the_chosen_card_is_shown(
    j: JobView,
    cards: Seq<Guid>,
    s: SlotView,
    said: Seq<char>,
)
    requires
        j.stage is Cards,
        card_choice(cards, j.inv.guid) is Ok,
    ensures
        ({
            let i = card_choice(cards, j.inv.guid)->Ok_0;
            let read = next(j, EventView::Cards(Ok(cards)), said);
            let shown = next(read, EventView::Slot(Ok(s)), said);
            let name = "PIV_slot_"@ + hex2(j.slot, true) + "@"@ + hex_text(cards[i]@, true) + " \""@
                + said + "\""@;
            &&& read.card == Some(i)
            &&& j.op is Pubkey && openssh_line_of(s.key.blob, name) is Ok ==> shown.stage
                == StageView::Print(openssh_line_of(s.key.blob, name)->Ok_0 + "\n"@, true)
            &&& j.op is Cert && pem_of(s.cert_der) is Some ==> shown.stage == StageView::Print(
                pem_of(s.cert_der)->0,
                true,
            )
            &&& shown.stage is Print && (j.op is Pubkey || j.op is Cert) ==> next(
                shown,
                EventView::Printed,
                said,
            ).stage == StageView::Ended(0, None)
        }),
{
}

/// Codes that are typed are taken in the order in which they are asked for:
/// the current one, then the new one.
pub proof fn law_typed_codes_go_from_current_to_new(
    op: ToolOp,
    inv: InvocationView,
    current: Seq<char>,
    new: Seq<char>,
    cards: Seq<Guid>,
    said: Seq<char>,
)
    requires
        op is Change || op is ResetPin,
        inv.pins.len() == 0,
        card_choice(cards, inv.guid) is Ok,
    ensures
        ({
            let one = next(begun(op, inv), EventView::Secret(Ok(current)), said);
            let two = next(one, EventView::Secret(Ok(new)), said);
            let three = next(two, EventView::Cards(Ok(cards)), said);
            next(three, EventView::Done(None), said).stage == StageView::Change(current, new)
        }),
{
}

/// A change that the card made ends well, and any other ends badly and is
/// told.
pub proof fn law_only_a_made_change_ends_well(j: JobView, c: ChangeView, said: Seq<char>)
    requires
        j.stage is Change,
    ensures
        ({
            let end = next(j, EventView::Changed(c), said).stage;
            &&& end is Ended
            &&& end->Ended_0 == 0 <==> c is Done
            &&& end->Ended_1 is None <==> c is Done
        }),
{
}

} // verus!
