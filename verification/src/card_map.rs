//! A small map keyed by card, and a set of cards. An agent sees a handful
//! of cards, so both are lists in which a card occurs once.
use crate::piv::Guid;
use vstd::prelude::*;

verus! {

/// A value for each of some cards.
pub struct CardMap<V> {
    entries: Vec<(Guid, V)>,
}

/// Whether the list has an entry for the card.
pub closed spec fn listed<V>(e: Seq<(Guid, V)>, g: Seq<u8>) -> bool {
    exists|i: int| 0 <= i < e.len() && (#[trigger] e[i]).0@ == g
}

/// The position of the card's entry.
pub closed spec fn position<V>(e: Seq<(Guid, V)>, g: Seq<u8>) -> int {
    choose|i: int| 0 <= i < e.len() && (#[trigger] e[i]).0@ == g
}

/// No card has two entries.
pub closed spec fn distinct<V>(e: Seq<(Guid, V)>) -> bool {
    forall|i: int, j: int|
        0 <= i < j < e.len() ==> (#[trigger] e[i]).0@ != (#[trigger] e[j]).0@
}

impl<V> View for CardMap<V> {
    type V = Map<Seq<u8>, V>;

    closed spec fn view(&self) -> Map<Seq<u8>, V> {
        Map::new(
            |g: Seq<u8>| listed(self.entries@, g),
            |g: Seq<u8>| self.entries@[position(self.entries@, g)].1,
        )
    }
}

impl<V> CardMap<V> {
    /// No card has two entries.
    pub closed spec fn wf(self) -> bool {
        distinct(self.entries@)
    }

    proof fn lemma_entry(self, i: int)
        requires
            self.wf(),
            0 <= i < self.entries@.len(),
        ensures
            self@.dom().contains(self.entries@[i].0@),
            self@[self.entries@[i].0@] == self.entries@[i].1,
    {
        let g = self.entries@[i].0@;
        assert(listed(self.entries@, g));
        let j = position(self.entries@, g);
        assert(self.entries@[j].0@ == g);
        assert(i == j);
    }

    /// A map without entries.
    pub fn new() -> (r: CardMap<V>)
        ensures
            r.wf(),
            r@ == Map::<Seq<u8>, V>::empty(),
    {
        let r: CardMap<V> = CardMap { entries: Vec::new() };
        assert(r@ =~= Map::<Seq<u8>, V>::empty());
        r
    }

    fn find(&self, guid: &Guid) -> (r: Option<usize>)
        requires
            self.wf(),
        ensures
            r is Some <==> self@.dom().contains(guid@),
            r is Some ==> r->0 < self.entries@.len() && self.entries@[r->0 as int].0@ == guid@,
            r is Some ==> self@[guid@] == self.entries@[r->0 as int].1,
    {
        for i in 0..self.entries.len()
            invariant
                self.wf(),
                forall|j: int| 0 <= j < i ==> (#[trigger] self.entries@[j]).0@ != guid@,
        {
            if self.entries[i].0.same(guid) {
                proof {
                    self.lemma_entry(i as int);
                }
                return Some(i);
            }
        }
        None
    }

    /// The card's value, if it has one.
    pub fn get(&self, guid: &Guid) -> (r: Option<&V>)
        requires
            self.wf(),
        ensures
            r is Some <==> self@.dom().contains(guid@),
            r is Some ==> *r->0 == self@[guid@],
    {
        match self.find(guid) {
            Some(i) => Some(&self.entries[i].1),
            None => None,
        }
    }

    /// Whether no card has a value.
    pub fn is_empty(&self) -> (r: bool)
        requires
            self.wf(),
        ensures
            r == (self@ == Map::<Seq<u8>, V>::empty()),
    {
        if self.entries.len() == 0 {
            assert(self@ =~= Map::<Seq<u8>, V>::empty());
            true
        } else {
            proof {
                self.lemma_entry(0);
            }
            false
        }
    }

    /// Takes the card's value away.
    pub fn remove(&mut self, guid: &Guid) -> (r: Option<V>)
        requires
            old(self).wf(),
        ensures
            final(self).wf(),
            final(self)@ == old(self)@.remove(guid@),
            r == if old(self)@.dom().contains(guid@) {
                Some(old(self)@[guid@])
            } else {
                None
            },
    {
        let ghost before = *self;
        match self.find(guid) {
            Some(i) => {
                let (_, value) = self.entries.remove(i);
                proof {
                    let e = before.entries@;
                    let f = self.entries@;
                    assert(f =~= e.remove(i as int));
                    assert forall|a: int, b: int| 0 <= a < b < f.len() implies (
                    #[trigger] f[a]).0@ != (#[trigger] f[b]).0@ by {
                        let x = if a < i {
                            a
                        } else {
                            a + 1
                        };
                        let y = if b < i {
                            b
                        } else {
                            b + 1
                        };
                        assert(f[a] == e[x] && f[b] == e[y]);
                    }
                    assert(self.wf());
                    assert forall|g: Seq<u8>| self@.dom().contains(g) == before@.remove(
                        guid@,
                    ).dom().contains(g) by {
                        if listed(f, g) {
                            let a = position(f, g);
                            let x = if a < i {
                                a
                            } else {
                                a + 1
                            };
                            assert(f[a] == e[x]);
                            assert(e[x].0@ == g);
                            assert(listed(e, g));
                            assert(x != i);
                            assert(g != guid@);
                        }
                        if listed(e, g) && g != guid@ {
                            let x = position(e, g);
                            let a = if x < i {
                                x
                            } else {
                                x - 1
                            };
                            assert(x != i);
                            assert(f[a] == e[x]);
                            assert(f[a].0@ == g);
                        }
                    }
                    assert forall|g: Seq<u8>| self@.dom().contains(g) implies self@[g]
                        == before@.remove(guid@)[g] by {
                        let a = position(f, g);
                        let x = if a < i {
                            a
                        } else {
                            a + 1
                        };
                        assert(f[a] == e[x]);
                        assert(f[a].0@ == g);
                        before.lemma_entry(x);
                        self.lemma_entry(a);
                    }
                    assert(self@ =~= before@.remove(guid@));
                }
                Some(value)
            },
            None => {
                assert(self@ =~= before@.remove(guid@));
                None
            },
        }
    }

    /// Sets the card's value, and hands back the one that it had.
    pub fn insert(&mut self, guid: &Guid, value: V) -> (r: Option<V>)
        requires
            old(self).wf(),
        ensures
            final(self).wf(),
            final(self)@ == old(self)@.insert(guid@, value),
            r == if old(self)@.dom().contains(guid@) {
                Some(old(self)@[guid@])
            } else {
                None
            },
    {
        let ghost start = *self;
        let earlier: Option<V> = self.remove(guid);
        let ghost before = *self;
        self.entries.push((*guid, value));
        proof {
            let e = before.entries@;
            let f = self.entries@;
            assert(!before@.dom().contains(guid@));
            assert forall|a: int, b: int| 0 <= a < b < f.len() implies (#[trigger] f[a]).0@ != (
            #[trigger] f[b]).0@ by {
                if b == e.len() {
                    assert(f[a] == e[a]);
                    before.lemma_entry(a);
                } else {
                    assert(f[a] == e[a] && f[b] == e[b]);
                }
            }
            assert(self.wf());
            let last = e.len() as int;
            assert(f[last].0@ == guid@);
            self.lemma_entry(last);
            assert forall|g: Seq<u8>| self@.dom().contains(g) == start@.insert(
                guid@,
                value,
            ).dom().contains(g) by {
                if listed(f, g) && g != guid@ {
                    let a = position(f, g);
                    assert(f[a].0@ == g);
                    assert(a != last);
                    assert(e[a] == f[a]);
                    before.lemma_entry(a);
                }
                if before@.dom().contains(g) {
                    let a = position(e, g);
                    assert(e[a].0@ == g);
                    assert(f[a] == e[a]);
                    assert(listed(f, g));
                }
            }
            assert forall|g: Seq<u8>| self@.dom().contains(g) implies self@[g] == start@.insert(
                guid@,
                value,
            )[g] by {
                let a = position(f, g);
                assert(f[a].0@ == g);
                self.lemma_entry(a);
                if a != last {
                    assert(e[a] == f[a]);
                    before.lemma_entry(a);
                }
            }
            assert(self@ =~= start@.insert(guid@, value));
        }
        earlier
    }

    /// Takes every value away.
    pub fn clear(&mut self) -> (r: Vec<V>)
        ensures
            final(self).wf(),
            final(self)@ == Map::<Seq<u8>, V>::empty(),
            forall|g: Seq<u8>|
                old(self)@.dom().contains(g) ==> r@.contains(#[trigger] old(self)@[g]),
    {
        let ghost e = self.entries@;
        let mut out: Vec<V> = Vec::new();
        while self.entries.len() > 0
            invariant
                self.entries@.len() <= e.len(),
                self.entries@ == e.take(self.entries@.len() as int),
                forall|i: int|
                    self.entries@.len() <= i < e.len() ==> out@.contains((#[trigger] e[i]).1),
            decreases self.entries@.len(),
        {
            let ghost n = self.entries@.len() - 1;
            let ghost before = out@;
            if let Some((_, value)) = self.entries.pop() {
                out.push(value);
                proof {
                    assert(self.entries@ =~= e.take(n));
                    assert(out@[before.len() as int] == e[n].1);
                    assert forall|i: int| n <= i < e.len() implies out@.contains(
                        (#[trigger] e[i]).1,
                    ) by {
                        if i > n {
                            let k = choose|k: int| 0 <= k < before.len() && before[k] == e[i].1;
                            assert(out@[k] == e[i].1);
                        }
                    }
                }
            }
        }
        proof {
            assert(self@ =~= Map::<Seq<u8>, V>::empty());
            assert forall|g: Seq<u8>| old(self)@.dom().contains(g) implies out@.contains(
                #[trigger] old(self)@[g],
            ) by {
                let p = position(e, g);
                assert(e[p].0@ == g);
                assert(out@.contains(e[p].1));
            }
        }
        out
    }
}

/// Whether the card is in the list.
pub open spec fn has_card(list: Seq<Guid>, g: Seq<u8>) -> bool {
    exists|i: int| 0 <= i < list.len() && (#[trigger] list[i])@ == g
}

/// Whether the card is in the list.
pub fn contains_card(list: &Vec<Guid>, guid: &Guid) -> (r: bool)
    ensures
        r == has_card(list@, guid@),
{
    for i in 0..list.len()
        invariant
            forall|j: int| 0 <= j < i ==> (#[trigger] list@[j])@ != guid@,
    {
        if list[i].same(guid) {
            return true;
        }
    }
    false
}

} // verus!
