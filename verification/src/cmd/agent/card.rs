//! Keeping the served keys in step with the cards that are attached.
//!
//! At every tick the attached cards are enumerated. A served card that
//! stayed away for some ticks in a row loses its keys and its PIN; one tick
//! of absence is no reason. A card that appeared is served once it proved
//! that it can be used.
use crate::card_map::{contains_card, has_card, CardMap};
use crate::cmd::agent::pins::{PinCache, PinView};
use crate::cmd::agent::session::{keys_view, CachedKey, CachedView};
use crate::piv::Guid;
use vstd::prelude::*;

verus! {

/// Seconds between two ticks.
pub const DEFAULT_PROBE_INTERVAL_SECS: u64 = 10;

/// Ticks in a row that a card may be missing before it is dropped.
pub const PROBE_FAIL_LIMIT: u32 = 3;

/// The cards of a key list.
pub open spec fn cards_of(keys: Seq<CachedView>) -> Set<Seq<u8>> {
    Set::new(|g: Seq<u8>| exists|i: int| 0 <= i < keys.len() && (#[trigger] keys[i]).guid == g)
}

/// The keys of one card, in order.
pub open spec fn keys_of_card(keys: Seq<CachedView>, g: Seq<u8>) -> Seq<CachedView>
    decreases keys.len(),
{
    if keys.len() == 0 {
        seq![]
    } else if keys.last().guid == g {
        keys_of_card(keys.drop_last(), g).push(keys.last())
    } else {
        keys_of_card(keys.drop_last(), g)
    }
}

/// The keys of the cards that are not dropped, in order.
pub open spec fn keys_without(keys: Seq<CachedView>, drop: Set<Seq<u8>>) -> Seq<CachedView>
    decreases keys.len(),
{
    if keys.len() == 0 {
        seq![]
    } else if drop.contains(keys.last().guid) {
        keys_without(keys.drop_last(), drop)
    } else {
        keys_without(keys.drop_last(), drop).push(keys.last())
    }
}

/// The cards of a list, each at its first occurrence.
pub open spec fn cards_in_order(keys: Seq<CachedView>) -> Seq<Seq<u8>>
    decreases keys.len(),
{
    if keys.len() == 0 {
        seq![]
    } else {
        let before = cards_in_order(keys.drop_last());
        if before.contains(keys.last().guid) {
            before
        } else {
            before.push(keys.last().guid)
        }
    }
}

/// The cards of `desired` that are not served, each at its first
/// occurrence.
pub open spec fn newcomers_of(served: Seq<CachedView>, desired: Seq<CachedView>) -> Seq<Seq<u8>> {
    cards_in_order(desired).filter(|g: Seq<u8>| !cards_of(served).contains(g))
}

/// The keys of the newcomers that proved usable, card by card.
pub open spec fn adopted(
    desired: Seq<CachedView>,
    newcomers: Seq<Seq<u8>>,
    usable: Seq<bool>,
) -> Seq<CachedView>
    decreases newcomers.len(),
{
    if newcomers.len() == 0 {
        seq![]
    } else {
        let n = (newcomers.len() - 1) as int;
        let before = adopted(desired, newcomers.drop_last(), usable);
        if usable[n] {
            before + keys_of_card(desired, newcomers[n])
        } else {
            before
        }
    }
}

/// How often in a row a card was missing, counting this tick.
pub open spec fn misses_now(misses: Map<Seq<u8>, u32>, g: Seq<u8>) -> nat {
    if misses.dom().contains(g) {
        (misses[g] + 1) as nat
    } else {
        1
    }
}

/// The served cards that are dropped at this tick: those that are missing
/// now and with that have been missing often enough in a row.
pub open spec fn dropped(
    misses: Map<Seq<u8>, u32>,
    served: Set<Seq<u8>>,
    present: Set<Seq<u8>>,
    limit: nat,
) -> Set<Seq<u8>> {
    Set::new(
        |g: Seq<u8>|
            served.contains(g) && !present.contains(g) && misses_now(misses, g) >= limit,
    )
}

/// The counts after this tick: a served card that is there, or is dropped,
/// has none; one that is missing has one more.
pub open spec fn misses_after(
    misses: Map<Seq<u8>, u32>,
    served: Set<Seq<u8>>,
    present: Set<Seq<u8>>,
    limit: nat,
) -> Map<Seq<u8>, u32> {
    Map::new(
        |g: Seq<u8>|
            if served.contains(g) {
                !present.contains(g) && misses_now(misses, g) < limit
            } else {
                misses.dom().contains(g)
            },
        |g: Seq<u8>|
            if served.contains(g) {
                misses_now(misses, g) as u32
            } else {
                misses[g]
            },
    )
}

/// What is remembered once some cards were dropped.
pub open spec fn pins_after(pins: PinView, drop: Set<Seq<u8>>) -> PinView {
    if drop == Set::<Seq<u8>>::empty() {
        pins
    } else {
        PinView {
            verified: pins.verified.remove_keys(drop),
            offered: None,
            rejected: Set::empty(),
        }
    }
}

fn card_list(keys: &Vec<CachedKey>) -> (r: Vec<Guid>)
    ensures
        r@.map_values(|g: Guid| g@) == cards_in_order(keys_view(keys@)),
{
    let mut out: Vec<Guid> = Vec::new();
    let ghost all = keys_view(keys@);
    assert(out@.map_values(|g: Guid| g@) =~= cards_in_order(all.take(0)));
    for i in 0..keys.len()
        invariant
            all == keys_view(keys@),
            out@.map_values(|g: Guid| g@) == cards_in_order(all.take(i as int)),
    {
        let ghost before = out@.map_values(|g: Guid| g@);
        proof {
            assert(all.take(i + 1).drop_last() =~= all.take(i as int));
            assert(all.take(i + 1).last() == keys@[i as int]@);
            let g = keys@[i as int].guid@;
            assert(has_card(out@, g) == before.contains(g)) by {
                if has_card(out@, g) {
                    let j = choose|j: int| 0 <= j < out@.len() && (#[trigger] out@[j])@ == g;
                    assert(before[j] == g);
                }
                if before.contains(g) {
                    let j = choose|j: int| 0 <= j < before.len() && before[j] == g;
                    assert(out@[j]@ == g);
                }
            }
        }
        if !contains_card(&out, &keys[i].guid) {
            out.push(keys[i].guid);
            assert(out@.map_values(|g: Guid| g@) =~= before.push(keys@[i as int].guid@));
        }
    }
    assert(all.take(keys@.len() as int) =~= all);
    out
}

fn serves_card(keys: &Vec<CachedKey>, guid: &Guid) -> (r: bool)
    ensures
        r == cards_of(keys_view(keys@)).contains(guid@),
{
    for i in 0..keys.len()
        invariant
            forall|j: int| 0 <= j < i ==> (#[trigger] keys_view(keys@)[j]).guid != guid@,
    {
        assert(keys_view(keys@)[i as int].guid == keys@[i as int].guid@);
        if keys[i].guid.same(guid) {
            return true;
        }
    }
    false
}

/// Lists the cards that appeared: they have to prove that they can be used.
pub fn newcomers(served: &Vec<CachedKey>, desired: &Vec<CachedKey>) -> (r: Vec<Guid>)
    ensures
        r@.map_values(|g: Guid| g@) == newcomers_of(keys_view(served@), keys_view(desired@)),
{
    let all: Vec<Guid> = card_list(desired);
    let mut out: Vec<Guid> = Vec::new();
    let ghost names = cards_in_order(keys_view(desired@));
    let ghost p = |g: Seq<u8>| !cards_of(keys_view(served@)).contains(g);
    proof {
        reveal(Seq::filter);
    }
    assert(out@.map_values(|g: Guid| g@) =~= names.take(0).filter(p));
    for i in 0..all.len()
        invariant
            names == all@.map_values(|g: Guid| g@),
            p == (|g: Seq<u8>| !cards_of(keys_view(served@)).contains(g)),
            out@.map_values(|g: Guid| g@) == names.take(i as int).filter(p),
    {
        let ghost before = out@.map_values(|g: Guid| g@);
        proof {
            reveal(Seq::filter);
            assert(names.take(i + 1).drop_last() =~= names.take(i as int));
            assert(names.take(i + 1).last() == all@[i as int]@);
        }
        if !serves_card(served, &all[i]) {
            out.push(all[i]);
            assert(out@.map_values(|g: Guid| g@) =~= before.push(all@[i as int]@));
        }
    }
    assert(names.take(all@.len() as int) =~= names);
    out
}

/// The state between ticks: how often in a row each served card was
/// missing.
pub struct Reconciler {
    misses: CardMap<u32>,
    fail_limit: u32,
}

/// Whether the count of a card is what it should be once the cards of
/// `done` were counted.
spec fn counted_for(
    now: Map<Seq<u8>, u32>,
    m: Map<Seq<u8>, u32>,
    present: Set<Seq<u8>>,
    limit: nat,
    done: Seq<Guid>,
    g: Seq<u8>,
) -> bool {
    if has_card(done, g) {
        &&& now.dom().contains(g) == (!present.contains(g) && misses_now(m, g) < limit)
        &&& now.dom().contains(g) ==> now[g] == misses_now(m, g)
    } else {
        &&& now.dom().contains(g) == m.dom().contains(g)
        &&& m.dom().contains(g) ==> now[g] == m[g]
    }
}

impl Reconciler {
    /// How often in a row each card was missing.
    pub closed spec fn misses(self) -> Map<Seq<u8>, u32> {
        self.misses@
    }

    /// How often in a row a card may be missing.
    pub closed spec fn limit(self) -> nat {
        self.fail_limit as nat
    }

    /// No card that was missing too often is still counted.
    pub closed spec fn wf(self) -> bool {
        self.misses.wf() && forall|g: Seq<u8>| #[trigger]
            self.misses@.dom().contains(g) ==> self.misses@[g] < self.fail_limit
    }

    /// Before the first tick.
    pub fn new(fail_limit: u32) -> (r: Reconciler)
        ensures
            r.wf(),
            r.limit() == fail_limit,
            r.misses() == Map::<Seq<u8>, u32>::empty(),
    {
        Reconciler { misses: CardMap::new(), fail_limit }
    }

    /// Counts this tick for one served card; says whether to drop it.
    fn count(&mut self, guid: &Guid, present: bool) -> (r: bool)
        requires
            old(self).wf(),
        ensures
            final(self).wf(),
            final(self).limit() == old(self).limit(),
            r == (!present && misses_now(old(self).misses(), guid@) >= old(self).limit()),
            final(self).misses() == if present || r {
                old(self).misses().remove(guid@)
            } else {
                old(self).misses().insert(guid@, misses_now(old(self).misses(), guid@) as u32)
            },
    {
        if present {
            self.misses.remove(guid);
            return false;
        }
        let n: u32 = match self.misses.get(guid) {
            Some(m) => *m + 1,
            None => 1,
        };
        if n >= self.fail_limit {
            self.misses.remove(guid);
            true
        } else {
            self.misses.insert(guid, n);
            false
        }
    }

    /// Counts this tick for every served card; gives those to drop.
    fn count_all(&mut self, served: &Vec<Guid>, desired: &Vec<CachedKey>) -> (r: Vec<Guid>)
        requires
            old(self).wf(),
            forall|i: int, j: int| 0 <= i < j < served@.len() ==> served@[i]@ != served@[j]@,
        ensures
            final(self).wf(),
            final(self).limit() == old(self).limit(),
            ({
                let names = Set::new(|g: Seq<u8>| has_card(served@, g));
                let present = cards_of(keys_view(desired@));
                &&& Set::new(|g: Seq<u8>| has_card(r@, g)) == dropped(
                    old(self).misses(),
                    names,
                    present,
                    old(self).limit(),
                )
                &&& final(self).misses() == misses_after(
                    old(self).misses(),
                    names,
                    present,
                    old(self).limit(),
                )
                &&& forall|i: int, j: int| 0 <= i < j < r@.len() ==> r@[i]@ != r@[j]@
            }),
    {
        let ghost m = self.misses();
        let ghost limit = self.limit();
        let ghost present = cards_of(keys_view(desired@));
        let ghost names = Set::new(|g: Seq<u8>| has_card(served@, g));
        let mut out: Vec<Guid> = Vec::new();
        let mut i: usize = 0;
        while i < served.len()
            invariant
                i <= served@.len(),
                self.wf(),
                self.limit() == limit,
                present == cards_of(keys_view(desired@)),
                forall|a: int, b: int| 0 <= a < b < served@.len() ==> served@[a]@ != served@[b]@,
                forall|a: int, b: int| 0 <= a < b < out@.len() ==> out@[a]@ != out@[b]@,
                forall|g: Seq<u8>| #[trigger]
                    has_card(out@, g) <==> has_card(served@.take(i as int), g)
                        && !present.contains(g) && misses_now(m, g) >= limit,
                forall|g: Seq<u8>| #[trigger]
                    counted_for(self.misses(), m, present, limit, served@.take(i as int), g),
            decreases served@.len() - i,
        {
            let ghost g0 = served@[i as int]@;
            let ghost head = served@.take(i as int);
            let ghost next = served@.take(i + 1);
            proof {
                assert(!has_card(head, g0)) by {
                    if has_card(head, g0) {
                        let j = choose|j: int| 0 <= j < head.len() && (#[trigger] head[j])@ == g0;
                        assert(served@[j]@ != served@[i as int]@);
                    }
                }
                assert forall|g: Seq<u8>| #[trigger] has_card(next, g) == (has_card(head, g) || g
                    == g0) by {
                    if has_card(head, g) {
                        let j = choose|j: int| 0 <= j < head.len() && (#[trigger] head[j])@ == g;
                        assert(next[j]@ == g);
                    }
                    if g == g0 {
                        assert(next[i as int]@ == g);
                    }
                    if has_card(next, g) {
                        let j = choose|j: int| 0 <= j < next.len() && (#[trigger] next[j])@ == g;
                        if j < i {
                            assert(head[j]@ == g);
                        }
                    }
                }
                assert(counted_for(self.misses(), m, present, limit, head, g0));
                assert(misses_now(self.misses(), g0) == misses_now(m, g0));
            }
            let here: bool = serves_card(desired, &served[i]);
            let ghost before = out@;
            let ghost counted = self.misses();
            let drop: bool = self.count(&served[i], here);
            proof {
                assert forall|g: Seq<u8>| #[trigger]
                    counted_for(self.misses(), m, present, limit, next, g) by {
                    assert(counted_for(counted, m, present, limit, head, g));
                    assert(has_card(next, g) == (has_card(head, g) || g == g0));
                }
            }
            if drop {
                out.push(served[i]);
                proof {
                    assert(!has_card(before, g0));
                    assert forall|a: int, b: int| 0 <= a < b < out@.len() implies out@[a]@
                        != out@[b]@ by {
                        assert(before[a]@ == out@[a]@);
                        if b < before.len() {
                            assert(before[b]@ == out@[b]@);
                        }
                    }
                    assert forall|g: Seq<u8>| #[trigger] has_card(out@, g) == (has_card(before, g)
                        || g == g0) by {
                        if has_card(before, g) {
                            let j = choose|j: int|
                                0 <= j < before.len() && (#[trigger] before[j])@ == g;
                            assert(out@[j]@ == g);
                        }
                        if g == g0 {
                            assert(out@[before.len() as int]@ == g);
                        }
                        if has_card(out@, g) {
                            let j = choose|j: int|
                                0 <= j < out@.len() && (#[trigger] out@[j])@ == g;
                            if j < before.len() {
                                assert(before[j]@ == g);
                            }
                        }
                    }
                }
            }
            i = i + 1;
        }
        proof {
            assert(served@.take(served@.len() as int) =~= served@);
            assert forall|g: Seq<u8>| #[trigger]
                self.misses().dom().contains(g) == misses_after(
                    m,
                    names,
                    present,
                    limit,
                ).dom().contains(g) && (self.misses().dom().contains(g) ==> self.misses()[g]
                    == misses_after(m, names, present, limit)[g]) by {
                assert(counted_for(self.misses(), m, present, limit, served@, g));
            }
            assert(Set::new(|g: Seq<u8>| has_card(out@, g)) =~= dropped(m, names, present, limit));
            assert(self.misses() =~= misses_after(m, names, present, limit));
        }
        out
    }
}


/// The cards in order are the cards of the list, each once.
proof fn lemma_cards_in_order(keys: Seq<CachedView>)
    ensures
        forall|g: Seq<u8>| #[trigger]
            cards_in_order(keys).contains(g) <==> cards_of(keys).contains(g),
        forall|i: int, j: int|
            0 <= i < j < cards_in_order(keys).len() ==> cards_in_order(keys)[i] != cards_in_order(
                keys,
            )[j],
    decreases keys.len(),
{
    if keys.len() > 0 {
        let init = keys.drop_last();
        lemma_cards_in_order(init);
        let before = cards_in_order(init);
        let last = keys.last().guid;
        let now = cards_in_order(keys);
        assert forall|g: Seq<u8>| #[trigger] now.contains(g) <==> cards_of(keys).contains(g) by {
            if cards_of(keys).contains(g) {
                let i = choose|i: int| 0 <= i < keys.len() && (#[trigger] keys[i]).guid == g;
                if i < init.len() {
                    assert(init[i].guid == g);
                    assert(before.contains(g));
                    let j = choose|j: int| 0 <= j < before.len() && before[j] == g;
                    assert(now[j] == g);
                } else {
                    assert(g == last);
                    if before.contains(g) {
                        let j = choose|j: int| 0 <= j < before.len() && before[j] == g;
                        assert(now[j] == g);
                    } else {
                        assert(now[before.len() as int] == g);
                    }
                }
            }
            if now.contains(g) {
                let j = choose|j: int| 0 <= j < now.len() && now[j] == g;
                if j < before.len() {
                    assert(before[j] == g);
                    assert(before.contains(g));
                    let i = choose|i: int| 0 <= i < init.len() && (#[trigger] init[i]).guid == g;
                    assert(keys[i].guid == g);
                } else {
                    assert(keys[keys.len() - 1].guid == g);
                }
            }
        }
        assert forall|i: int, j: int| 0 <= i < j < now.len() implies now[i] != now[j] by {
            if j == before.len() {
                assert(now[i] == before[i]);
                assert(before.contains(before[i]));
            }
        }
    } else {
        assert forall|g: Seq<u8>| #[trigger]
            cards_in_order(keys).contains(g) <==> cards_of(keys).contains(g) by {}
    }
}

fn retain_keys(keys: &Vec<CachedKey>, drop: &Vec<Guid>) -> (r: Vec<CachedKey>)
    ensures
        keys_view(r@) == keys_without(
            keys_view(keys@),
            Set::new(|g: Seq<u8>| has_card(drop@, g)),
        ),
{
    let mut out: Vec<CachedKey> = Vec::new();
    let ghost all = keys_view(keys@);
    let ghost gone = Set::new(|g: Seq<u8>| has_card(drop@, g));
    assert(keys_view(out@) =~= keys_without(all.take(0), gone));
    for i in 0..keys.len()
        invariant
            all == keys_view(keys@),
            gone == Set::new(|g: Seq<u8>| has_card(drop@, g)),
            keys_view(out@) == keys_without(all.take(i as int), gone),
    {
        let ghost before = keys_view(out@);
        assert(all.take(i + 1).drop_last() =~= all.take(i as int));
        assert(all.take(i + 1).last() == keys@[i as int]@);
        if !contains_card(drop, &keys[i].guid) {
            out.push(keys[i].copy());
            assert(keys_view(out@) =~= before.push(keys@[i as int]@));
        }
    }
    assert(all.take(keys@.len() as int) =~= all);
    out
}

fn add_card_keys(out: &mut Vec<CachedKey>, desired: &Vec<CachedKey>, guid: &Guid)
    ensures
        keys_view(final(out)@) == keys_view(old(out)@) + keys_of_card(
            keys_view(desired@),
            guid@,
        ),
{
    let ghost all = keys_view(desired@);
    let ghost start = keys_view(out@);
    assert(start + keys_of_card(all.take(0), guid@) =~= start);
    for i in 0..desired.len()
        invariant
            all == keys_view(desired@),
            keys_view(out@) == start + keys_of_card(all.take(i as int), guid@),
    {
        let ghost before = keys_view(out@);
        assert(all.take(i + 1).drop_last() =~= all.take(i as int));
        assert(all.take(i + 1).last() == desired@[i as int]@);
        if desired[i].guid.same(guid) {
            out.push(desired[i].copy());
            assert(keys_view(out@) =~= before.push(desired@[i as int]@));
            assert(start + keys_of_card(all.take(i + 1), guid@) =~= (start + keys_of_card(
                all.take(i as int),
                guid@,
            )).push(desired@[i as int]@));
        }
    }
    assert(all.take(desired@.len() as int) =~= all);
}

/// What a tick did: the keys that are served now, and the cards that were
/// dropped, each with whether a PIN went with it.
pub struct TickOutcome {
    pub served: Vec<CachedKey>,
    pub dropped: Vec<(Guid, bool)>,
}

/// Whether the list tells of the card.
pub open spec fn told_of(list: Seq<(Guid, bool)>, g: Seq<u8>) -> bool {
    exists|i: int| 0 <= i < list.len() && (#[trigger] list[i]).0@ == g
}

impl Reconciler {
    /// Brings the served keys in step with the cards that are attached.
    /// `fresh` are the cards that appeared, with `usable` telling which of
    /// them can be used.
    pub fn tick(
        &mut self,
        served: &Vec<CachedKey>,
        desired: &Vec<CachedKey>,
        fresh: &Vec<Guid>,
        usable: &Vec<bool>,
        pins: &mut PinCache,
    ) -> (r: TickOutcome)
        requires
            old(self).wf(),
            old(pins).wf(),
            fresh@.map_values(|g: Guid| g@) == newcomers_of(
                keys_view(served@),
                keys_view(desired@),
            ),
            usable@.len() == fresh@.len(),
        ensures
            final(self).wf(),
            final(pins).wf(),
            final(self).limit() == old(self).limit(),
            ({
                let s = keys_view(served@);
                let d = keys_view(desired@);
                let gone = dropped(old(self).misses(), cards_of(s), cards_of(d), old(self).limit());
                &&& keys_view(r.served@) == keys_without(s, gone) + adopted(
                    d,
                    newcomers_of(s, d),
                    usable@,
                )
                &&& final(self).misses() == misses_after(
                    old(self).misses(),
                    cards_of(s),
                    cards_of(d),
                    old(self).limit(),
                )
                &&& final(pins)@ == pins_after(old(pins)@, gone)
                &&& forall|g: Seq<u8>| #[trigger] told_of(r.dropped@, g) == gone.contains(g)
                &&& forall|i: int|
                    0 <= i < r.dropped@.len() ==> (#[trigger] r.dropped@[i]).1 == (old(
                        pins,
                    )@.verified.dom().contains(r.dropped@[i].0@) || (i == 0 && old(
                        pins,
                    )@.offered is Some))
                &&& forall|i: int, j: int|
                    0 <= i < j < r.dropped@.len() ==> r.dropped@[i].0@ != r.dropped@[j].0@
            }),
    {
        let ghost s = keys_view(served@);
        let ghost d = keys_view(desired@);
        let ghost start = *self;
        let cards: Vec<Guid> = card_list(served);
        let ghost names = cards@.map_values(|g: Guid| g@);
        proof {
            lemma_cards_in_order(s);
            assert forall|i: int, j: int| 0 <= i < j < cards@.len() implies cards@[i]@
                != cards@[j]@ by {
                assert(names[i] != names[j]);
            }
            assert forall|g: Seq<u8>| has_card(cards@, g) == cards_of(s).contains(g) by {
                if has_card(cards@, g) {
                    let j = choose|j: int| 0 <= j < cards@.len() && (#[trigger] cards@[j])@ == g;
                    assert(names[j] == g);
                    assert(names.contains(g));
                }
                if names.contains(g) {
                    let j = choose|j: int| 0 <= j < names.len() && names[j] == g;
                    assert(cards@[j]@ == g);
                }
            }
            assert(Set::new(|g: Seq<u8>| has_card(cards@, g)) =~= cards_of(s));
        }
        let drop: Vec<Guid> = self.count_all(&cards, desired);
        let ghost gone = dropped(start.misses(), cards_of(s), cards_of(d), start.limit());
        assert(Set::new(|g: Seq<u8>| has_card(drop@, g)) == gone);
        let mut now: Vec<CachedKey> = retain_keys(served, &drop);
        let ghost kept = keys_view(now@);
        let ghost fresh_names = newcomers_of(s, d);
        assert(kept + adopted(d, fresh_names.take(0), usable@) =~= kept);
        for i in 0..fresh.len()
            invariant
                d == keys_view(desired@),
                usable@.len() == fresh@.len(),
                fresh_names == fresh@.map_values(|g: Guid| g@),
                keys_view(now@) == kept + adopted(d, fresh_names.take(i as int), usable@),
        {
            proof {
                assert(fresh_names.take(i + 1).drop_last() =~= fresh_names.take(i as int));
                assert(fresh_names.take(i + 1)[i as int] == fresh@[i as int]@);
            }
            if usable[i] {
                add_card_keys(&mut now, desired, &fresh[i]);
                assert(keys_view(now@) =~= kept + (adopted(
                    d,
                    fresh_names.take(i as int),
                    usable@,
                ) + keys_of_card(d, fresh@[i as int]@)));
            }
        }
        assert(fresh_names.take(fresh@.len() as int) =~= fresh_names);
        let mut told: Vec<(Guid, bool)> = Vec::new();
        let ghost before = pins@;
        proof {
            if drop@.len() == 0 {
                assert(gone =~= Set::<Seq<u8>>::empty());
            }
        }
        for i in 0..drop.len()
            invariant
                pins.wf(),
                told@.len() == i,
                forall|j: int| 0 <= j < i ==> (#[trigger] told@[j]).0@ == drop@[j]@,
                forall|j: int|
                    0 <= j < i ==> (#[trigger] told@[j]).1 == (before.verified.dom().contains(
                        drop@[j]@,
                    ) || (j == 0 && before.offered is Some)),
                forall|a: int, b: int| 0 <= a < b < drop@.len() ==> drop@[a]@ != drop@[b]@,
                i == 0 ==> pins@ == before,
                i > 0 ==> pins@ == (PinView {
                    verified: before.verified.remove_keys(
                        Set::new(|g: Seq<u8>| has_card(drop@.take(i as int), g)),
                    ),
                    offered: None,
                    rejected: Set::empty(),
                }),
        {
            let ghost mid = pins@;
            proof {
                let a = drop@.take(i as int);
                if has_card(a, drop@[i as int]@) {
                    let j = choose|j: int| 0 <= j < a.len() && (#[trigger] a[j])@
                        == drop@[i as int]@;
                    assert(drop@[j]@ != drop@[i as int]@);
                }
            }
            let forgot: bool = pins.forget_card(&drop[i]);
            told.push((drop[i], forgot));
            proof {
                let a = drop@.take(i as int);
                let b = drop@.take(i + 1);
                assert forall|g: Seq<u8>| #[trigger] has_card(b, g) == (has_card(a, g) || g
                    == drop@[i as int]@) by {
                    if has_card(a, g) {
                        let j = choose|j: int| 0 <= j < a.len() && (#[trigger] a[j])@ == g;
                        assert(b[j]@ == g);
                    }
                    if g == drop@[i as int]@ {
                        assert(b[i as int]@ == g);
                    }
                    if has_card(b, g) {
                        let j = choose|j: int| 0 <= j < b.len() && (#[trigger] b[j])@ == g;
                        if j < i {
                            assert(a[j]@ == g);
                        }
                    }
                }
                assert(pins@.verified =~= before.verified.remove_keys(
                    Set::new(|g: Seq<u8>| has_card(b, g)),
                ));
            }
        }
        proof {
            assert(drop@.take(drop@.len() as int) =~= drop@);
            if drop@.len() > 0 {
                assert(has_card(drop@, drop@[0]@));
                assert(gone.contains(drop@[0]@));
            }
            assert(pins@ == pins_after(before, gone));
            assert forall|g: Seq<u8>| #[trigger] told_of(told@, g) == gone.contains(g) by {
                if gone.contains(g) {
                    assert(has_card(drop@, g));
                    let j = choose|j: int| 0 <= j < drop@.len() && (#[trigger] drop@[j])@ == g;
                    assert(told@[j].0@ == g);
                }
                if told_of(told@, g) {
                    let j = choose|j: int| 0 <= j < told@.len() && (#[trigger] told@[j]).0@ == g;
                    assert(drop@[j]@ == g);
                    assert(has_card(drop@, g));
                }
            }
        }
        TickOutcome { served: now, dropped: told }
    }
}

// -------------------------------------------------------------------- laws

/// A card that is attached is not dropped and its count starts anew.
pub proof fn law_present_card_is_kept(
    misses: Map<Seq<u8>, u32>,
    served: Set<Seq<u8>>,
    present: Set<Seq<u8>>,
    limit: nat,
    g: Seq<u8>,
)
    requires
        served.contains(g),
        present.contains(g),
    ensures
        !dropped(misses, served, present, limit).contains(g),
        !misses_after(misses, served, present, limit).dom().contains(g),
{
}

/// One card's fate does not depend on which other cards are there.
pub proof fn law_cards_do_not_affect_each_other(
    misses: Map<Seq<u8>, u32>,
    served: Set<Seq<u8>>,
    present: Set<Seq<u8>>,
    others: Set<Seq<u8>>,
    limit: nat,
    g: Seq<u8>,
)
    requires
        present.contains(g) == others.contains(g),
    ensures
        dropped(misses, served, present, limit).contains(g) == dropped(
            misses,
            served,
            others,
            limit,
        ).contains(g),
        misses_after(misses, served, present, limit).dom().contains(g) == misses_after(
            misses,
            served,
            others,
            limit,
        ).dom().contains(g),
{
}

/// What becomes of one served card over some ticks: how often in a row it
/// was missing, or nothing once it was dropped. `seen` tells at which ticks
/// it was attached.
pub open spec fn fate(seen: Seq<bool>, limit: nat) -> Option<nat>
    decreases seen.len(),
{
    if seen.len() == 0 {
        Some(0)
    } else {
        match fate(seen.drop_last(), limit) {
            None => None,
            Some(n) => if seen.last() {
                Some(0)
            } else if n + 1 >= limit {
                None
            } else {
                Some(n + 1)
            },
        }
    }
}

/// One tick does to a served card what its fate says.
pub proof fn law_tick_follows_fate(
    misses: Map<Seq<u8>, u32>,
    served: Set<Seq<u8>>,
    present: Set<Seq<u8>>,
    limit: nat,
    g: Seq<u8>,
    seen: Seq<bool>,
)
    requires
        served.contains(g),
        limit <= u32::MAX,
        fate(seen, limit) is Some,
        fate(seen, limit)->0 == if misses.dom().contains(g) {
            misses[g] as nat
        } else {
            0
        },
    ensures
        ({
            let now = seen.push(present.contains(g));
            let after = misses_after(misses, served, present, limit);
            &&& dropped(misses, served, present, limit).contains(g) == (fate(now, limit) is None)
            &&& fate(now, limit) is Some ==> fate(now, limit)->0 == if after.dom().contains(g) {
                after[g] as nat
            } else {
                0
            }
        }),
{
    let now = seen.push(present.contains(g));
    assert(now.drop_last() =~= seen);
}

/// Whether the card was missing at all of the `limit` ticks that end
/// before `end`.
pub open spec fn missing_run(seen: Seq<bool>, limit: nat, end: int) -> bool {
    limit <= end <= seen.len() && forall|i: int| end - limit <= i < end ==> !(#[trigger] seen[i])
}

proof fn lemma_fate_counts(seen: Seq<bool>, limit: nat)
    requires
        limit > 0,
    ensures
        fate(seen, limit) is Some ==> fate(seen, limit)->0 < limit && fate(seen, limit)->0
            <= seen.len() && (forall|i: int|
            seen.len() - fate(seen, limit)->0 <= i < seen.len() ==> !(#[trigger] seen[i])) && (
        fate(seen, limit)->0 < seen.len() ==> seen[seen.len() - fate(seen, limit)->0 - 1]),
    decreases seen.len(),
{
    if seen.len() > 0 {
        let init = seen.drop_last();
        lemma_fate_counts(init, limit);
        if fate(seen, limit) is Some {
            let n = fate(init, limit)->0;
            assert forall|i: int|
                seen.len() - fate(seen, limit)->0 <= i < seen.len() implies !(#[trigger] seen[i]) by {
                if i < init.len() {
                    assert(init[i] == seen[i]);
                }
            }
            if !seen.last() && n < init.len() {
                assert(init[init.len() - n - 1] == seen[init.len() - n - 1]);
            }
        }
    }
}

/// A card is dropped exactly when it was missing for the full number of
/// ticks in a row: any shorter absence is forgiven.
pub proof fn law_dropped_exactly_after_a_full_absence(seen: Seq<bool>, limit: nat)
    requires
        limit > 0,
    ensures
        fate(seen, limit) is None <==> exists|end: int| missing_run(seen, limit, end),
    decreases seen.len(),
{
    if seen.len() > 0 {
        let init = seen.drop_last();
        law_dropped_exactly_after_a_full_absence(init, limit);
        lemma_fate_counts(init, limit);
        if exists|end: int| missing_run(init, limit, end) {
            let end = choose|end: int| missing_run(init, limit, end);
            assert forall|i: int| end - limit <= i < end implies !(#[trigger] seen[i]) by {
                assert(init[i] == seen[i]);
            }
            assert(missing_run(seen, limit, end));
        } else {
            let n = fate(init, limit)->0;
            if fate(seen, limit) is None {
                let end = seen.len() as int;
                assert forall|i: int| end - limit <= i < end implies !(#[trigger] seen[i]) by {
                    if i < init.len() {
                        assert(init[i] == seen[i]);
                    }
                }
                assert(missing_run(seen, limit, end));
            }
            if exists|end: int| missing_run(seen, limit, end) {
                let end = choose|end: int| missing_run(seen, limit, end);
                if end < seen.len() {
                    assert forall|i: int| end - limit <= i < end implies !(#[trigger] init[i]) by {
                        assert(init[i] == seen[i]);
                    }
                    assert(missing_run(init, limit, end));
                    assert(false);
                }
                assert(!seen[seen.len() - 1]);
                if n + 1 < limit {
                    assert(n < init.len());
                    let j = init.len() - n - 1;
                    assert(init[j]);
                    assert(seen[j] == init[j]);
                    assert(end - limit <= j < end);
                    assert(false);
                }
            }
        }
    } else {
        assert forall|end: int| !missing_run(seen, limit, end) by {}
    }
}

proof fn lemma_keys_of_card(keys: Seq<CachedView>, g: Seq<u8>, i: int)
    requires
        0 <= i < keys_of_card(keys, g).len(),
    ensures
        keys_of_card(keys, g)[i].guid == g,
    decreases keys.len(),
{
    let init = keys_of_card(keys.drop_last(), g);
    if i < init.len() {
        lemma_keys_of_card(keys.drop_last(), g, i);
    }
}

/// A card that did not prove usable is not served, though it is attached.
pub proof fn law_unusable_card_is_not_adopted(
    desired: Seq<CachedView>,
    newcomers: Seq<Seq<u8>>,
    usable: Seq<bool>,
    g: Seq<u8>,
    k: int,
)
    requires
        newcomers.len() <= usable.len(),
        forall|i: int| 0 <= i < newcomers.len() && newcomers[i] == g ==> !(#[trigger] usable[i]),
        0 <= k < adopted(desired, newcomers, usable).len(),
    ensures
        adopted(desired, newcomers, usable)[k].guid != g,
    decreases newcomers.len(),
{
    if newcomers.len() > 0 {
        let n = newcomers.len() - 1;
        let init = newcomers.drop_last();
        let before = adopted(desired, init, usable);
        assert forall|i: int| 0 <= i < init.len() && init[i] == g implies !(#[trigger] usable[i]) by {
            assert(newcomers[i] == g);
        }
        if k < before.len() {
            law_unusable_card_is_not_adopted(desired, init, usable, g, k);
        } else {
            assert(usable[n]);
            lemma_keys_of_card(desired, newcomers[n], k - before.len());
        }
    }
}

/// The PIN of a card that stays is untouched when another card is dropped.
pub proof fn law_dropping_keeps_other_pins(pins: PinView, gone: Set<Seq<u8>>, g: Seq<u8>)
    requires
        !gone.contains(g),
        pins.verified.dom().contains(g),
    ensures
        pins_after(pins, gone).lookup(g) == pins.lookup(g),
{
}

/// The PIN of a dropped card is forgotten.
pub proof fn law_dropped_card_has_no_pin(pins: PinView, gone: Set<Seq<u8>>, g: Seq<u8>)
    requires
        gone.contains(g),
    ensures
        pins_after(pins, gone).lookup(g) is None,
{
    assert(gone != Set::<Seq<u8>>::empty());
}

} // verus!
