//! What holds of the agent over time: which cards it serves, which PIN it
//! remembers, and what it says of itself.
use crate::cmd::agent::card::{
    adopted, cards_in_order, cards_of, keys_of_card, keys_without, newcomers_of,
};
use crate::cmd::agent::laws::law_point_is_read_from_its_key;
use crate::cmd::agent::rebox::{next, EventView, JobView, StageView};
use crate::cmd::agent::session::{
    attest_details, key_with_point, phase_after, rebox_plan, remembered_after, status_bytes,
    AcquiredPin, BoxInfo, CachedView, CardRequest, EcdhPlan, Phase, Verdict,
};
use crate::cmd::agent::{csh_wanted, filter_of, listed, shell_block, watch_of, Watch};
use crate::crypto::{openssh_line_of, sec1_point};
use crate::text::{dec, hex2};
use crate::wire::{
    be32, field_at, field_body, law_highest_byte_comes_first, lemma_be32_len, lemma_field_of_string,
    ssh_string,
};
use vstd::prelude::*;

verus! {

// -------------------------------------------------------------------- cards

/// Dropping cards takes away exactly their keys, and leaves the others in
/// order; the keys of one card are exactly those that are on it.
pub proof fn law_only_keys_of_dropped_cards_go(
    keys: Seq<CachedView>,
    drop: Set<Seq<u8>>,
    g: Seq<u8>,
)
    ensures
        keys_without(keys, drop) == keys.filter(|k: CachedView| !drop.contains(k.guid)),
        keys_of_card(keys, g) == keys.filter(|k: CachedView| k.guid == g),
    decreases keys.len(),
{
    reveal(Seq::filter);
    if keys.len() > 0 {
        law_only_keys_of_dropped_cards_go(keys.drop_last(), drop, g);
    } else {
        assert(keys =~= seq![]);
    }
}

proof fn lemma_order_has(keys: Seq<CachedView>, g: Seq<u8>)
    ensures
        cards_in_order(keys).contains(g) <==> exists|i: int|
            0 <= i < keys.len() && (#[trigger] keys[i]).guid == g,
    decreases keys.len(),
{
    if keys.len() > 0 {
        let rest = keys.drop_last();
        lemma_order_has(rest, g);
        let before = cards_in_order(rest);
        let all = cards_in_order(keys);
        if before.contains(g) {
            let k = choose|k: int| 0 <= k < before.len() && before[k] == g;
            assert(all[k] == g);
            let i = choose|i: int| 0 <= i < rest.len() && (#[trigger] rest[i]).guid == g;
            assert(keys[i].guid == g);
        }
        if keys.last().guid == g {
            assert(keys[keys.len() - 1].guid == g);
            if !before.contains(g) {
                assert(all[before.len() as int] == g);
            }
        }
        if all.contains(g) && !before.contains(g) {
            let k = choose|k: int| 0 <= k < all.len() && all[k] == g;
            assert(k < before.len() ==> before[k] == g);
        }
        if exists|i: int| 0 <= i < keys.len() && (#[trigger] keys[i]).guid == g {
            let i = choose|i: int| 0 <= i < keys.len() && (#[trigger] keys[i]).guid == g;
            if i < rest.len() {
                assert(rest[i].guid == g);
            }
        }
    }
}

/// A newcomer is a card that is there and is not served, and every such card
/// is one.
pub proof fn law_newcomers_are_there_and_not_served(
    served: Seq<CachedView>,
    desired: Seq<CachedView>,
    g: Seq<u8>,
)
    ensures
        newcomers_of(served, desired).contains(g) <==> (exists|i: int|
            0 <= i < desired.len() && (#[trigger] desired[i]).guid == g) && !(exists|i: int|
            0 <= i < served.len() && (#[trigger] served[i]).guid == g),
{
    let p = |g: Seq<u8>| !cards_of(served).contains(g);
    let all = cards_in_order(desired);
    lemma_order_has(desired, g);
    lemma_filter_has(all, p, g);
}

proof fn lemma_filter_has(s: Seq<Seq<u8>>, p: spec_fn(Seq<u8>) -> bool, g: Seq<u8>)
    ensures
        s.filter(p).contains(g) <==> s.contains(g) && p(g),
    decreases s.len(),
{
    reveal(Seq::filter);
    if s.len() > 0 {
        let rest = s.drop_last();
        lemma_filter_has(rest, p, g);
        let before = rest.filter(p);
        let all = s.filter(p);
        if before.contains(g) {
            let k = choose|k: int| 0 <= k < before.len() && before[k] == g;
            assert(all[k] == g);
        }
        if rest.contains(g) {
            let k = choose|k: int| 0 <= k < rest.len() && rest[k] == g;
            assert(s[k] == g);
        }
        if s.last() == g {
            assert(s[s.len() - 1] == g);
            if p(g) {
                assert(all[before.len() as int] == g);
            }
        }
        if s.contains(g) && s.last() != g {
            let k = choose|k: int| 0 <= k < s.len() && s[k] == g;
            assert(rest[k] == g);
        }
        if all.contains(g) && !before.contains(g) {
            let k = choose|k: int| 0 <= k < all.len() && all[k] == g;
            assert(k < before.len() ==> before[k] == g);
        }
    }
}

proof fn lemma_of_card(keys: Seq<CachedView>, g: Seq<u8>, i: int)
    requires
        0 <= i < keys.len(),
        keys[i].guid == g,
    ensures
        keys_of_card(keys, g).contains(keys[i]),
    decreases keys.len(),
{
    let rest = keys.drop_last();
    let all = keys_of_card(keys, g);
    if i < rest.len() {
        lemma_of_card(rest, g, i);
        let before = keys_of_card(rest, g);
        assert(rest[i] == keys[i]);
        let k = choose|k: int| 0 <= k < before.len() && before[k] == keys[i];
        assert(all[k] == keys[i]);
    } else {
        assert(all[all.len() - 1] == keys[i]);
    }
}

/// Every key of a newcomer that can be used is served from then on.
pub proof fn law_usable_newcomer_is_adopted(
    desired: Seq<CachedView>,
    newcomers: Seq<Seq<u8>>,
    usable: Seq<bool>,
    n: int,
    i: int,
)
    requires
        0 <= n < newcomers.len() <= usable.len(),
        usable[n],
        0 <= i < desired.len(),
        desired[i].guid == newcomers[n],
    ensures
        adopted(desired, newcomers, usable).contains(desired[i]),
    decreases newcomers.len(),
{
    let last = newcomers.len() - 1;
    let before = adopted(desired, newcomers.drop_last(), usable);
    let all = adopted(desired, newcomers, usable);
    if n == last {
        lemma_of_card(desired, newcomers[n], i);
        let mine = keys_of_card(desired, newcomers[n]);
        let k = choose|k: int| 0 <= k < mine.len() && mine[k] == desired[i];
        assert(all[before.len() + k] == desired[i]);
    } else {
        law_usable_newcomer_is_adopted(desired, newcomers.drop_last(), usable, n, i);
        let k = choose|k: int| 0 <= k < before.len() && before[k] == desired[i];
        assert(all[k] == desired[i]);
    }
}

// --------------------------------------------------------------------- PINs

/// A wrong PIN is asked for once more and no further, and is forgotten; one
/// that the card accepted is remembered where it is new. An error ends the
/// operation and changes nothing.
pub proof fn law_wrong_pin_is_asked_for_once_more(
    known: Option<String>,
    given: AcquiredPin,
    said: String,
)
    ensures
        phase_after(0, Verdict::Wrong(said)) == Phase::NeedPin,
        phase_after(1, Verdict::Wrong(said)) == Phase::Failed,
        phase_after(0, Verdict::Accepted) == Phase::Operate,
        phase_after(1, Verdict::Accepted) == Phase::Operate,
        phase_after(0, Verdict::Failed(said)) == Phase::Failed,
        remembered_after(known, given, 0, Verdict::Wrong(said)) is None,
        given.fresh ==> remembered_after(known, given, 0, Verdict::Accepted) == Some(given.pin)
            && remembered_after(known, given, 1, Verdict::Accepted) == Some(given.pin),
        !given.fresh ==> remembered_after(known, given, 0, Verdict::Accepted) == known,
        remembered_after(known, given, 0, Verdict::Failed(said)) == known,
{
}

/// Only the key for card authentication works without a PIN.
pub proof fn law_only_card_authentication_needs_no_pin(r: CardRequest)
    ensures
        r.needs_pin() <==> r.slot != 0x9E,
{
}

/// Nothing is done with a key before the card has accepted a PIN, except
/// with the key for card authentication; and the card is never given more
/// than two PINs.
pub proof fn law_nothing_is_done_without_the_pin(r: CardRequest)
    requires
        r.wf(),
    ensures
        r.phase is Operate ==> r.verified || r.slot == 0x9E,
        r.phase is Verify ==> r.pin is Some,
        r.verifies <= 2,
{
}

// -------------------------------------------------------------------- boxes

/// Opening a box asks the card for an agreement with the box's own point,
/// spelled out on the curve of the box, and with the slot that the box names
/// where it names one.
pub proof fn law_box_is_opened_with_its_own_point(keys: Seq<CachedView>, b: BoxInfo)
    ensures
        rebox_plan(keys, b) matches Some((key, slot, point)) ==> {
            &&& 0 <= key < keys.len()
            &&& b.curve is NistP384 ==> sec1_point(b.ephemeral_pubkey@, true, false) == Some(point)
            &&& !(b.curve is NistP384) ==> sec1_point(b.ephemeral_pubkey@, false, false) == Some(
                point,
            )
            &&& b.guid_slot matches Some((g, s)) ==> keys[key].guid == g@ && slot == s
            &&& b.guid_slot is None ==> slot == keys[key].slot_id
        },
{
    if let Some((g, s)) = b.guid_slot {
        lemma_on_card(keys, g@, 0);
    } else {
        lemma_with_point_bounds(keys, b.recipient_pubkey@);
    }
}

proof fn lemma_on_card(keys: Seq<CachedView>, g: Seq<u8>, i: int)
    requires
        0 <= i <= keys.len(),
    ensures
        ({
            let k = crate::cmd::agent::session::key_on_card(keys, g, i);
            &&& i <= k <= keys.len()
            &&& k < keys.len() ==> keys[k].guid == g
        }),
    decreases keys.len() - i,
{
    if i < keys.len() && keys[i].guid != g {
        lemma_on_card(keys, g, i + 1);
    }
}

proof fn lemma_with_point(keys: Seq<CachedView>, p: Seq<u8>, i: int)
    requires
        0 <= i <= keys.len(),
    ensures
        i <= key_with_point(keys, p, i) <= keys.len(),
    decreases keys.len() - i,
{
    if i < keys.len() && keys[i].public_key.sec1 != Some(p) {
        lemma_with_point(keys, p, i + 1);
    }
}

proof fn lemma_with_point_bounds(keys: Seq<CachedView>, recipient: Seq<u8>)
    ensures
        0 <= crate::cmd::agent::session::recipient_key(keys, recipient) <= keys.len(),
{
    if let Some(want) = crate::card_oracle::canonical_point(recipient) {
        lemma_with_point(keys, want, 0);
    }
}

// ------------------------------------------------------------------ replies

/// An attestation is answered with the number of certificates and then with
/// each: that of the key first, and that of the device where there is one.
pub proof fn law_attestation_is_read_back(cert: Seq<u8>, device: Option<Seq<u8>>)
    requires
        cert.len() < 0x1_0000_0000,
        device is Some ==> device->0.len() < 0x1_0000_0000,
    ensures
        ({
            let d = attest_details(cert, device);
            &&& d.take(4) == seq![
                0u8,
                0u8,
                0u8,
                if device is Some {
                    2u8
                } else {
                    1u8
                },
            ]
            &&& field_at(d, 4) is Ok && field_body(d, 4) == cert
            &&& device is None ==> d.len() == 8 + cert.len()
            &&& device matches Some(v) ==> {
                let at = 8 + cert.len() as int;
                &&& field_at(d, at) is Ok && field_body(d, at) == v
                &&& d.len() == at + 4 + v.len()
            }
        }),
{
    let d = attest_details(cert, device);
    lemma_be32_len(1);
    lemma_be32_len(2);
    law_highest_byte_comes_first(0, cert);
    if let Some(v) = device {
        law_highest_byte_comes_first(0, v);
    }
    assert(be32(1) =~= seq![0u8, 0u8, 0u8, 1u8]) by {
        reveal(be32);
    }
    assert(be32(2) =~= seq![0u8, 0u8, 0u8, 2u8]) by {
        reveal(be32);
    }
    match device {
        None => {
            lemma_field_of_string(be32(1), cert, seq![]);
            assert(be32(1) + ssh_string(cert) + Seq::<u8>::empty() =~= d);
            assert(d.take(4) =~= be32(1));
        },
        Some(v) => {
            lemma_field_of_string(be32(2), cert, ssh_string(v));
            lemma_field_of_string(be32(2) + ssh_string(cert), v, seq![]);
            assert(be32(2) + ssh_string(cert) + ssh_string(v) + Seq::<u8>::empty() =~= d);
            assert(d.take(4) =~= be32(2));
        },
    }
}

/// The agent says whether it knows a PIN, and then whether it serves a card.
pub proof fn law_status_tells_pin_and_cards_apart(knows_pin: bool, has_cards: bool)
    ensures
        status_bytes(knows_pin, has_cards).len() == 2,
        status_bytes(knows_pin, has_cards)[0] == 1 <==> knows_pin,
        status_bytes(knows_pin, has_cards)[0] == 0 <==> !knows_pin,
        status_bytes(knows_pin, has_cards)[1] == 1 <==> has_cards,
        status_bytes(knows_pin, has_cards)[1] == 0 <==> !has_cards,
{
}

// ----------------------------------------------------------------- start-up

/// A card that is served is watched, and has to prove itself where a key for
/// that is given; without one the agent looks for a card, unless it is to
/// serve none.
pub proof fn law_served_card_is_watched(has_primary: bool, proxy_only: bool, has_cak: bool)
    ensures
        watch_of(has_primary, proxy_only, has_cak) == Watch::Reauthenticate <==> has_primary
            && has_cak,
        watch_of(has_primary, proxy_only, has_cak) == Watch::Presence <==> has_primary && !has_cak,
        watch_of(has_primary, proxy_only, has_cak) == Watch::Recover <==> !has_primary
            && !proxy_only,
        watch_of(has_primary, proxy_only, has_cak) == Watch::Nothing <==> !has_primary
            && proxy_only,
{
}

/// The form that was asked for is used, and that of the user's shell only
/// where none was.
pub proof fn law_shell_decides_where_nothing_else_does(shell: Seq<char>, sh: bool)
    ensures
        csh_wanted(true, sh, Some(shell)),
        csh_wanted(true, sh, None),
        !csh_wanted(false, true, Some(shell)),
        !csh_wanted(false, false, None),
        csh_wanted(false, false, Some(shell + "csh"@)),
        csh_wanted(false, false, Some(shell)) ==> shell.len() >= 3 && shell.skip(shell.len() - 3)
            == seq!['c', 's', 'h'],
{
    reveal_strlit("csh");
    let c = shell + "csh"@;
    assert(c.subrange(c.len() - 3, c.len() as int) =~= "csh"@);
    if csh_wanted(false, false, Some(shell)) {
        assert("csh"@ =~= seq!['c', 's', 'h']);
        assert(shell.skip(shell.len() - 3) =~= shell.subrange(
            shell.len() - 3,
            shell.len() as int,
        ));
    }
}

/// More is logged the more it is asked for, and in the foreground.
pub proof fn law_more_is_logged_on_request(debug: u8)
    ensures
        filter_of(0, false) == "piggy=info"@,
        filter_of(0, true) == "piggy=debug"@,
        debug == 1 ==> filter_of(debug, false) == "piggy=debug"@,
        debug >= 2 ==> filter_of(debug, false) == "piggy=trace"@ && filter_of(debug, true)
            == "piggy=trace"@,
{
}

/// The shell is told the socket and the process in its own words, and the
/// process once more for people.
pub proof fn law_shell_is_told_socket_and_process(socket: Seq<char>, pid: nat)
    ensures
        ("setenv SSH_AUTH_SOCK "@ + socket + ";\nsetenv SSH_AGENT_PID "@ + dec(pid)).is_prefix_of(
            shell_block(true, socket, pid),
        ),
        ("SSH_AUTH_SOCK="@ + socket + "; export SSH_AUTH_SOCK;\nSSH_AGENT_PID="@ + dec(
            pid,
        )).is_prefix_of(shell_block(false, socket, pid)),
        (dec(pid) + ";\n"@).is_suffix_of(shell_block(true, socket, pid)),
        (dec(pid) + ";\n"@).is_suffix_of(shell_block(false, socket, pid)),
{
    let a = "setenv SSH_AUTH_SOCK "@ + socket + ";\nsetenv SSH_AGENT_PID "@ + dec(pid);
    let b = "SSH_AUTH_SOCK="@ + socket + "; export SSH_AUTH_SOCK;\nSSH_AGENT_PID="@ + dec(pid);
    let end = dec(pid) + ";\n"@;
    let csh = shell_block(true, socket, pid);
    let sh = shell_block(false, socket, pid);
    assert(csh.subrange(0, a.len() as int) =~= a);
    assert(sh.subrange(0, b.len() as int) =~= b);
    assert(csh.subrange(csh.len() - end.len(), csh.len() as int) =~= end);
    assert(sh.subrange(sh.len() - end.len(), sh.len() as int) =~= end);
}

/// A key is listed under the number of its slot, and with its own encoding.
pub proof fn law_key_is_listed_under_its_slot(k: CachedView, line: Seq<char>)
    requires
        openssh_line_of(k.public_key.blob, ""@) == Ok::<Seq<char>, Seq<char>>(line),
    ensures
        hex2(k.slot_id, true).is_prefix_of(listed(k)),
        line.is_suffix_of(listed(k)),
{
    let l = listed(k);
    let slot = hex2(k.slot_id, true);
    assert(l.subrange(0, slot.len() as int) =~= slot);
    assert(l.subrange(l.len() - line.len(), l.len() as int) =~= line);
}

/// Sealing a box anew hands on what each step was told: the plan for the
/// card, the secret that the card derived, the partner's own point, and at
/// the end the new box.
pub proof fn law_box_is_sealed_anew_for_the_partner(
    j: JobView,
    info: BoxInfo,
    plan: EcdhPlan,
    secret: Seq<u8>,
    name: Seq<u8>,
    curve: Seq<u8>,
    point: Seq<u8>,
    sealed: Seq<u8>,
)
    requires
        j.stage is OpenBox,
        j.partner == ssh_string(name) + ssh_string(curve) + ssh_string(point),
        j.guid.len() == 0 || j.guid.len() == 16,
        name.len() < 0x1_0000_0000,
        curve.len() < 0x1_0000_0000,
        point.len() < 0x1_0000_0000,
    ensures
        ({
            let planned = next(j, EventView::Info(Ok(info)));
            let asked = next(planned, EventView::Planned(Ok(plan)));
            let derived = next(asked, EventView::Secret(Ok(secret)));
            let opened = next(derived, EventView::Done(None));
            let taken = next(opened, EventView::Done(None));
            let ready = next(taken, EventView::Done(None));
            let done = next(ready, EventView::Done(None));
            let end = next(done, EventView::Bytes(Ok(sealed)));
            &&& planned.stage == StageView::Plan(info)
            &&& asked.stage == StageView::Derive(plan)
            &&& derived.stage == StageView::Unseal(secret)
            &&& opened.stage == StageView::PartnerKey(point)
            &&& taken.stage is TakeData
            &&& ready.stage is Seal
            &&& end.stage == StageView::Replied("ecdh-rebox@joyent.com"@, ssh_string(sealed))
        }),
{
    law_point_is_read_from_its_key(name, curve, point, seq![]);
    assert(j.partner + Seq::<u8>::empty() =~= j.partner);
}

} // verus!
