//! What holds of the keys that are loaded, the options of the agent, and the
//! agents that it speaks for.
use crate::cmd::agent::session::{CachedView, Identity};
use crate::cmd::agent::upstream::{all_listed, spec_meaning, specs_meaning, upstreams_view};
use crate::cmd::agent::{
    card_keys, load_from, plan_follows, slot_meaning, slots_meaning, startup_flaw, AgentArgs,
    KeyLoadConfig, RunPlan, TokenInfo,
};
use crate::crypto::{hex_text, KeyView};
use crate::text::{
    cut, hex2, is_white, law_cut_is_at_the_first, law_hex_byte_round_trip,
    law_trim_takes_white_space_around, split_on, texts,
};
use vstd::prelude::*;

verus! {

// ---------------------------------------------------------- loading the keys

/// Whether a slot is one of those that were asked for.
pub open spec fn is_wanted_slot(id: u8, wanted: Option<Vec<u8>>) -> bool {
    wanted is None || exists|k: int|
        0 <= k < wanted->0@.len() && #[trigger] wanted->0@[k] == id
}

/// Whether a card is the one that was asked for, by its GUID in upper-case
/// hexadecimal or by its short name, or any will do.
pub open spec fn is_wanted_card(t: TokenInfo, wanted: Option<String>) -> bool {
    wanted is None || wanted->0@ == hex_text(t.guid@, true) || wanted->0@ == t.short_id@
}

/// Whether a key is served as that of a slot: with the slot's number,
/// algorithm and public key, under the card's name.
pub open spec fn is_key_of_slot(k: CachedView, t: TokenInfo, j: int) -> bool {
    let s = t.slots@[j];
    &&& k.guid == t.guid@
    &&& k.reader_name == t.reader_name@
    &&& k.slot_id == s.id
    &&& k.algorithm == s.algorithm
    &&& k.public_key == s.public_key@
    &&& k.comment == "PIV_slot_"@ + hex2(s.id, true) + " "@ + t.short_id@
}

/// Every key of a card that is served is that of a slot that was asked for,
/// as it is on the card.
pub proof fn law_served_keys_are_the_cards(t: TokenInfo, config: KeyLoadConfig, n: nat, k: int)
    requires
        n <= t.slots@.len(),
        0 <= k < card_keys(t, config, n).len(),
    ensures
        exists|j: int|
            0 <= j < n && is_wanted_slot(t.slots@[j].id, config.allowed_slots)
                && #[trigger] is_key_of_slot(card_keys(t, config, n)[k], t, j),
    decreases n,
{
    if n > 0 {
        let before = card_keys(t, config, (n - 1) as nat);
        if k < before.len() {
            law_served_keys_are_the_cards(t, config, (n - 1) as nat, k);
        } else {
            let id = t.slots@[n - 1].id;
            if config.allowed_slots is Some {
                let list = config.allowed_slots->0@;
                let m = choose|m: int| 0 <= m < list.len() && list[m] == id;
                assert(list[m] == id);
            }
            assert(is_key_of_slot(card_keys(t, config, n)[k], t, n - 1));
        }
    }
}

/// Every slot of a card that was asked for is served, in the order of the
/// slots and once each.
pub proof fn law_wanted_slots_are_served(t: TokenInfo, config: KeyLoadConfig, n: nat, j: int)
    requires
        0 <= j < n <= t.slots@.len(),
        is_wanted_slot(t.slots@[j].id, config.allowed_slots),
    ensures
        exists|k: int|
            0 <= k < card_keys(t, config, n).len() && #[trigger] is_key_of_slot(
                card_keys(t, config, n)[k],
                t,
                j,
            ),
        config.allowed_slots is None ==> card_keys(t, config, n).len() == n && is_key_of_slot(
            card_keys(t, config, n)[j],
            t,
            j,
        ),
    decreases n,
{
    let before = card_keys(t, config, (n - 1) as nat);
    let all = card_keys(t, config, n);
    if config.allowed_slots is None && n >= 2 {
        law_wanted_slots_are_served(
            t,
            config,
            (n - 1) as nat,
            if j < n - 1 {
                j
            } else {
                0
            },
        );
    }
    if j < n - 1 {
        law_wanted_slots_are_served(t, config, (n - 1) as nat, j);
        let k = choose|k: int|
            0 <= k < before.len() && #[trigger] is_key_of_slot(before[k], t, j);
        assert(all[k] == before[k]);
        assert(is_key_of_slot(all[k], t, j));
    } else {
        let id = t.slots@[j].id;
        if config.allowed_slots is Some {
            let list = config.allowed_slots->0@;
            let m = choose|m: int| 0 <= m < list.len() && #[trigger] list[m] == id;
            assert(list.contains(id));
        }
        assert(is_key_of_slot(all[before.len() as int], t, j));
    }
}

/// Whether a card is served: it was asked for, and it proved itself where
/// that is demanded.
pub open spec fn qualifies(t: TokenInfo, config: KeyLoadConfig, authentic: bool) -> bool {
    is_wanted_card(t, config.guid_filter) && (config.cak is None || authentic)
}

/// Unless all cards are served, it is the first that qualifies, with all of
/// its keys and no other card's; that card is also the primary one where all
/// are served.
pub proof fn law_first_card_that_qualifies_is_served(
    tokens: Seq<TokenInfo>,
    config: KeyLoadConfig,
    authentic: Seq<bool>,
    from: int,
    i: int,
)
    requires
        0 <= from <= i < tokens.len(),
        authentic.len() == tokens.len(),
        qualifies(tokens[i], config, authentic[i]),
        forall|j: int| from <= j < i ==> !qualifies(#[trigger] tokens[j], config, authentic[j]),
    ensures
        load_from(tokens, config, authentic, from).1 == Some(tokens[i].guid@),
        !config.all_cards ==> load_from(tokens, config, authentic, from).0 == card_keys(
            tokens[i],
            config,
            tokens[i].slots@.len(),
        ),
    decreases i - from,
{
    if from < i {
        assert(!qualifies(tokens[from], config, authentic[from]));
        law_first_card_that_qualifies_is_served(tokens, config, authentic, from + 1, i);
    }
}

/// Where all cards are served, the keys of each that qualifies are.
pub proof fn law_all_cards_that_qualify_are_served(
    tokens: Seq<TokenInfo>,
    config: KeyLoadConfig,
    authentic: Seq<bool>,
    from: int,
    i: int,
    k: int,
)
    requires
        config.all_cards,
        0 <= from <= i < tokens.len(),
        authentic.len() == tokens.len(),
        qualifies(tokens[i], config, authentic[i]),
        0 <= k < card_keys(tokens[i], config, tokens[i].slots@.len()).len(),
    ensures
        load_from(tokens, config, authentic, from).0.contains(
            card_keys(tokens[i], config, tokens[i].slots@.len())[k],
        ),
    decreases i - from,
{
    let all = load_from(tokens, config, authentic, from).0;
    let mine = card_keys(tokens[from], config, tokens[from].slots@.len());
    if from == i {
        assert(all[k] == mine[k]);
    } else {
        law_all_cards_that_qualify_are_served(tokens, config, authentic, from + 1, i, k);
        let rest = load_from(tokens, config, authentic, from + 1).0;
        let key = card_keys(tokens[i], config, tokens[i].slots@.len())[k];
        let m = choose|m: int| 0 <= m < rest.len() && rest[m] == key;
        if qualifies(tokens[from], config, authentic[from]) {
            assert(all[mine.len() + m] == key);
        } else {
            assert(all[m] == key);
        }
    }
}

/// Slots that can hold a key are read from their numbers in hexadecimal, in
/// order and with white space around them; any other number is refused.
pub proof fn law_slot_list_is_read(
    entries: Seq<Seq<char>>,
    before: Seq<Seq<char>>,
    after: Seq<Seq<char>>,
    slots: Seq<u8>,
    upper: bool,
)
    requires
        entries.len() == slots.len(),
        before.len() == slots.len(),
        after.len() == slots.len(),
        forall|i: int, m: int|
            0 <= i < slots.len() && 0 <= m < before[i].len() ==> is_white(#[trigger] before[i][m]),
        forall|i: int, m: int|
            0 <= i < slots.len() && 0 <= m < after[i].len() ==> is_white(#[trigger] after[i][m]),
        forall|i: int|
            0 <= i < slots.len() ==> #[trigger] entries[i] == before[i] + hex2(slots[i], upper)
                + after[i],
        forall|i: int|
            0 <= i < slots.len() ==> #[trigger] slots[i] == 0x9a || slots[i] == 0x9c || slots[i]
                == 0x9d || slots[i] == 0x9e || 0x82 <= slots[i] <= 0x95 || slots[i] == 0xf9,
    ensures
        slots_meaning(entries) == Ok::<Seq<u8>, Seq<char>>(slots),
    decreases entries.len(),
{
    if entries.len() > 0 {
        let n = entries.len() - 1;
        let (e, b, a, s) = (
            entries.drop_last(),
            before.drop_last(),
            after.drop_last(),
            slots.drop_last(),
        );
        assert forall|i: int, m: int| 0 <= i < s.len() && 0 <= m < b[i].len() implies is_white(
            #[trigger] b[i][m],
        ) by {
            assert(is_white(before[i][m]));
        }
        assert forall|i: int, m: int| 0 <= i < s.len() && 0 <= m < a[i].len() implies is_white(
            #[trigger] a[i][m],
        ) by {
            assert(is_white(after[i][m]));
        }
        assert forall|i: int| 0 <= i < s.len() implies #[trigger] e[i] == b[i] + hex2(s[i], upper)
            + a[i] by {
            assert(entries[i] == before[i] + hex2(slots[i], upper) + after[i]);
        }
        law_slot_list_is_read(e, b, a, s, upper);
        law_hex_byte_round_trip(slots[n], upper);
        let digits = hex2(slots[n], upper);
        let (bn, an) = (before[n], after[n]);
        assert forall|m: int| 0 <= m < bn.len() implies is_white(#[trigger] bn[m]) by {
            assert(is_white(before[n][m]));
        }
        assert forall|m: int| 0 <= m < an.len() implies is_white(#[trigger] an[m]) by {
            assert(is_white(after[n][m]));
        }
        law_trim_takes_white_space_around(bn, digits, an);
        assert(entries.last() == entries[n]);
        assert(s.push(slots[n]) =~= slots);
    } else {
        assert(slots =~= seq![]);
    }
}

/// A slot that can hold no key is refused.
pub proof fn law_other_slots_are_refused(slot: u8, upper: bool)
    requires
        !(slot == 0x9a || slot == 0x9c || slot == 0x9d || slot == 0x9e || 0x82 <= slot <= 0x95
            || slot == 0xf9),
    ensures
        slot_meaning(hex2(slot, upper)) is Err,
{
    law_hex_byte_round_trip(slot, upper);
    let digits = hex2(slot, upper);
    law_trim_takes_white_space_around(seq![], digits, seq![]);
    assert(Seq::<char>::empty() + digits + Seq::<char>::empty() =~= digits);
}

/// A plan for the agent is what the options ask for: the card, whether all
/// cards, the slots, the key that cards must prove to hold, whether cards are
/// looked at, the upstreams in order with their time limit, and the one that
/// new keys go to.
pub proof fn law_options_are_followed(
    args: AgentArgs,
    cak: Option<Result<KeyView, Seq<char>>>,
    p: RunPlan,
)
    requires
        plan_follows(args, cak, p),
    ensures
        p.config.guid_filter == args.guid,
        p.config.all_cards == args.all_cards,
        args.slot_spec is None ==> p.config.allowed_slots is None,
        args.slot_spec is Some && slots_meaning(split_on(args.slot_spec->0@, ',')) is Ok
            ==> p.config.allowed_slots is Some && p.config.allowed_slots->0@ == slots_meaning(
            split_on(args.slot_spec->0@, ','),
        )->Ok_0,
        p.config.cak is Some ==> cak == Some(Ok::<KeyView, Seq<char>>(p.config.cak->0@)),
        p.config.cak is None ==> cak is None,
        p.load_cards <==> !args.proxy_only,
        p.pool matches Some(pool) ==> pool.timeout_secs == args.agent_timeout,
        p.pool matches Some(pool) ==> specs_meaning(texts(args.upstream@)) is Ok ==> {
            let list = specs_meaning(texts(args.upstream@))->Ok_0;
            &&& list.len() == pool.upstreams@.len()
            &&& forall|i: int|
                0 <= i < list.len() ==> (#[trigger] pool.upstreams@[i]).name@ == list[i].0
                    && pool.upstreams@[i].path@ == list[i].1
            &&& args.add_new_keys_to is Some ==> pool.add_new_keys_to is Some
                && pool.upstreams@[pool.add_new_keys_to->0 as int].name@
                == args.add_new_keys_to->0@
            &&& args.add_new_keys_to is None ==> pool.add_new_keys_to is None
        },
{
    if let Some(pool) = p.pool {
        let list = specs_meaning(texts(args.upstream@))->Ok_0;
        let seen = upstreams_view(pool.upstreams@);
        assert(seen.len() == pool.upstreams@.len());
        assert forall|i: int| 0 <= i < list.len() implies (#[trigger] pool.upstreams@[i]).name@
            == list[i].0 && pool.upstreams@[i].path@ == list[i].1 by {
            assert(seen[i] == list[i]);
        }
        if args.add_new_keys_to is Some {
            let k = pool.add_new_keys_to->0 as int;
            assert(seen[k] == list[k]);
        }
    }
}

/// An upstream is named before the first equals sign; everything behind that
/// is its socket.
pub proof fn law_upstream_is_named_before_its_socket(name: Seq<char>, path: Seq<char>)
    requires
        forall|i: int| 0 <= i < name.len() ==> #[trigger] name[i] != '=',
    ensures
        name.len() > 0 && path.len() > 0 ==> spec_meaning(name.push('=') + path) == Ok::<
            (Seq<char>, Seq<char>),
            Seq<char>,
        >((name, path)),
        name.len() == 0 || path.len() == 0 ==> spec_meaning(name.push('=') + path) is Err,
        spec_meaning(name) is Err,
{
    lemma_cut_line(name, path);
    law_cut_is_at_the_first(name, '=');
    if let Some((a, b)) = cut(name, '=') {
        assert(name[a.len() as int] == '=');
    }
}

proof fn lemma_cut_line(key: Seq<char>, value: Seq<char>)
    requires
        forall|i: int| 0 <= i < key.len() ==> #[trigger] key[i] != '=',
    ensures
        cut(key.push('=') + value, '=') == Some((key, value)),
{
    let line = key.push('=') + value;
    law_cut_is_at_the_first(line, '=');
    assert(line[key.len() as int] == '=');
    let (a, b) = cut(line, '=')->0;
    if a.len() < key.len() {
        assert(line[a.len() as int] == '=');
        assert(key[a.len() as int] == '=');
    }
    if a.len() > key.len() {
        assert(a[key.len() as int] == line[key.len() as int]);
    }
    assert(a =~= key) by {
        assert forall|i: int| 0 <= i < a.len() implies a[i] == key[i] by {
            assert(a[i] == line[i]);
        }
    }
    assert(b =~= value) by {
        assert forall|i: int| 0 <= i < b.len() implies b[i] == value[i] by {
            assert(b[i] == line[a.len() + 1 + i]);
        }
    }
}

/// Every key that an upstream listed is passed on, with its comment, in the
/// order of the upstreams.
pub proof fn law_every_listed_key_is_passed_on(
    listings: Seq<Option<Vec<Identity>>>,
    n: nat,
    i: int,
    k: int,
)
    requires
        0 <= i < n <= listings.len(),
        listings[i] is Some,
        0 <= k < listings[i]->0@.len(),
    ensures
        all_listed(listings, n).contains(
            (listings[i]->0@[k].pubkey@, listings[i]->0@[k].comment@),
        ),
    decreases n,
{
    let want = (listings[i]->0@[k].pubkey@, listings[i]->0@[k].comment@);
    let before = all_listed(listings, (n - 1) as nat);
    let all = all_listed(listings, n);
    if i == n - 1 {
        assert(all[before.len() + k] == want);
    } else {
        law_every_listed_key_is_passed_on(listings, (n - 1) as nat, i, k);
        let m = choose|m: int| 0 <= m < before.len() && before[m] == want;
        assert(all[m] == want);
    }
}

/// Options that make no sense are refused before anything is done, and no
/// others are: slots that cannot be, a key for card authentication that is
/// none, upstreams that cannot be read, and a name for new keys that is not
/// among them.
pub proof fn law_only_senseless_options_are_refused(
    args: AgentArgs,
    cak: Option<Result<KeyView, Seq<char>>>,
)
    ensures
        startup_flaw(args, cak) is Some <==> {
            let list = specs_meaning(texts(args.upstream@));
            ||| args.slot_spec is Some && slots_meaning(split_on((args.slot_spec->0)@, ',')) is Err
            ||| cak is Some && cak->0 is Err
            ||| list is Err
            ||| args.add_new_keys_to is Some && list->Ok_0.len() > 0 && forall|i: int|
                0 <= i < list->Ok_0.len() ==> (#[trigger] list->Ok_0[i]).0
                    != (args.add_new_keys_to->0)@
        },
{
}

} // verus!
