//! The PINs that the agent remembers, card by card.
//!
//! A PIN that verified on a card is kept for that card alone. A PIN that
//! arrives without a card is an offer: it is tried at most once per card and
//! never again on a card that rejected it. No card is touched here; the
//! session decides when to verify.
use crate::card_map::{contains_card, has_card, CardMap};
use crate::crypto::{discard_all, discard_any};
use crate::piv::Guid;
use crate::text::opt_text;
use std::mem::swap;
use vstd::prelude::*;

verus! {

/// Where a PIN comes from.
#[derive(Clone, Copy, Debug, PartialEq, Eq, Structural)]
pub enum PinSource {
    /// It verified on this very card.
    Verified,
    /// It was offered and has not been tried on this card.
    Offered,
}

/// The remembered PINs.
pub struct PinCache {
    verified: CardMap<String>,
    offered: Option<String>,
    offered_rejected_by: Vec<Guid>,
}

/// [`PinCache`] over plain values.
pub struct PinView {
    /// The PIN that verified on each card.
    pub verified: Map<Seq<u8>, Seq<char>>,
    /// The PIN that was offered.
    pub offered: Option<Seq<char>>,
    /// The cards that rejected it.
    pub rejected: Set<Seq<u8>>,
}

/// The text of each PIN.
pub open spec fn pin_texts(m: Map<Seq<u8>, String>) -> Map<Seq<u8>, Seq<char>> {
    Map::new(|g: Seq<u8>| m.dom().contains(g), |g: Seq<u8>| m[g]@)
}

impl View for PinCache {
    type V = PinView;

    closed spec fn view(&self) -> PinView {
        PinView {
            verified: pin_texts(self.verified@),
            offered: opt_text(self.offered),
            rejected: Set::new(|g: Seq<u8>| has_card(self.offered_rejected_by@, g)),
        }
    }
}

impl PinView {
    /// The PIN to try on a card and where it comes from: its own first,
    /// else the offer, unless the card rejected that.
    pub open spec fn lookup(self, g: Seq<u8>) -> Option<(Seq<char>, PinSource)> {
        if self.verified.dom().contains(g) {
            Some((self.verified[g], PinSource::Verified))
        } else if self.offered is Some && !self.rejected.contains(g) {
            Some((self.offered->0, PinSource::Offered))
        } else {
            None
        }
    }

    /// After `pin` verified on the card.
    pub open spec fn cached(self, g: Seq<u8>, pin: Seq<char>) -> PinView {
        PinView { verified: self.verified.insert(g, pin), ..self }
    }

    /// After the card rejected the PIN it was given.
    pub open spec fn forgotten_for(self, g: Seq<u8>) -> PinView {
        PinView {
            verified: self.verified.remove(g),
            rejected: self.rejected.insert(g),
            ..self
        }
    }

    /// After the card went away.
    pub open spec fn without_card(self, g: Seq<u8>) -> PinView {
        PinView { verified: self.verified.remove(g), offered: None, rejected: Set::empty() }
    }

    /// After `pin` was offered.
    pub open spec fn with_offer(self, pin: Seq<char>) -> PinView {
        PinView { offered: Some(pin), rejected: Set::empty(), ..self }
    }

    /// With nothing remembered.
    pub open spec fn nothing() -> PinView {
        PinView { verified: Map::empty(), offered: None, rejected: Set::empty() }
    }

    /// Whether anything is remembered.
    pub open spec fn any(self) -> bool {
        self.verified != Map::<Seq<u8>, Seq<char>>::empty() || self.offered is Some
    }
}

impl PinCache {
    /// The cache is in order.
    pub closed spec fn wf(self) -> bool {
        self.verified.wf()
    }

    /// A cache that remembers nothing.
    pub fn new() -> (r: PinCache)
        ensures
            r.wf(),
            r@ == PinView::nothing(),
    {
        let r: PinCache = PinCache {
            verified: CardMap::new(),
            offered: None,
            offered_rejected_by: Vec::new(),
        };
        assert(r@.verified =~= PinView::nothing().verified);
        assert(r@.rejected =~= PinView::nothing().rejected);
        r
    }

    /// The PIN to try on the card, if any.
    pub fn lookup(&self, guid: &Guid) -> (r: Option<(String, PinSource)>)
        requires
            self.wf(),
        ensures
            r is Some <==> self@.lookup(guid@) is Some,
            r is Some ==> ((r->0).0@, (r->0).1) == self@.lookup(guid@)->0,
    {
        if let Some(p) = self.verified.get(guid) {
            return Some((p.clone(), PinSource::Verified));
        }
        match &self.offered {
            Some(p) => {
                if contains_card(&self.offered_rejected_by, guid) {
                    None
                } else {
                    Some((p.clone(), PinSource::Offered))
                }
            },
            None => None,
        }
    }

    /// Records that `pin` verified on the card.
    pub fn cache_verified(&mut self, guid: &Guid, pin: &str)
        requires
            old(self).wf(),
        ensures
            final(self).wf(),
            final(self)@ == old(self)@.cached(guid@, pin@),
    {
        let earlier: Option<String> = self.verified.insert(guid, pin.to_owned());
        discard_any(earlier);
        assert(self@.verified =~= old(self)@.cached(guid@, pin@).verified);
    }

    /// Records that the card rejected the PIN it was given: its own PIN is
    /// dropped and the offer is not made to it again. Other cards keep
    /// theirs.
    pub fn forget_for(&mut self, guid: &Guid)
        requires
            old(self).wf(),
        ensures
            final(self).wf(),
            final(self)@ == old(self)@.forgotten_for(guid@),
    {
        let gone: Option<String> = self.verified.remove(guid);
        discard_any(gone);
        if !contains_card(&self.offered_rejected_by, guid) {
            self.offered_rejected_by.push(*guid);
        }
        proof {
            let a = old(self).offered_rejected_by@;
            let b = self.offered_rejected_by@;
            assert forall|g: Seq<u8>| has_card(b, g) == (has_card(a, g) || g == guid@) by {
                if has_card(a, g) {
                    let i = choose|i: int| 0 <= i < a.len() && (#[trigger] a[i])@ == g;
                    assert(b[i]@ == g);
                }
                if g == guid@ && !has_card(a, g) {
                    assert(b[a.len() as int]@ == g);
                }
                if has_card(b, g) {
                    let i = choose|i: int| 0 <= i < b.len() && (#[trigger] b[i])@ == g;
                    if i < a.len() {
                        assert(a[i]@ == g);
                    }
                }
            }
            assert(self@.verified =~= old(self)@.forgotten_for(guid@).verified);
            assert(self@.rejected =~= old(self)@.forgotten_for(guid@).rejected);
        }
    }

    /// Records that the card went away: its PIN is dropped, and so is the
    /// offer, which may have been meant for it. Says whether there was
    /// anything to drop.
    pub fn forget_card(&mut self, guid: &Guid) -> (r: bool)
        requires
            old(self).wf(),
        ensures
            final(self).wf(),
            final(self)@ == old(self)@.without_card(guid@),
            r == (old(self)@.verified.dom().contains(guid@) || old(self)@.offered is Some),
    {
        let had: bool = self.verified.get(guid).is_some() || self.offered.is_some();
        let gone: Option<String> = self.verified.remove(guid);
        discard_any(gone);
        self.withdraw();
        assert(self@.verified =~= old(self)@.without_card(guid@).verified);
        assert(self@.rejected =~= old(self)@.without_card(guid@).rejected);
        had
    }

    /// Takes the offer back.
    fn withdraw(&mut self)
        ensures
            final(self).verified == old(self).verified,
            final(self).offered is None,
            final(self).offered_rejected_by@.len() == 0,
    {
        let mut gone: Option<String> = None;
        swap(&mut gone, &mut self.offered);
        discard_any(gone);
        self.offered_rejected_by = Vec::new();
    }

    /// Offers `pin` to every card without one of its own. It takes the
    /// place of an earlier offer, and who rejected that is forgotten.
    pub fn offer(&mut self, pin: &str)
        requires
            old(self).wf(),
        ensures
            final(self).wf(),
            final(self)@ == old(self)@.with_offer(pin@),
    {
        self.withdraw();
        self.offered = Some(pin.to_owned());
        assert(self@.rejected =~= old(self)@.with_offer(pin@).rejected);
    }

    /// Forgets everything.
    pub fn clear(&mut self)
        ensures
            final(self).wf(),
            final(self)@ == PinView::nothing(),
    {
        let gone: Vec<String> = self.verified.clear();
        discard_all(gone);
        self.withdraw();
        assert(self@.verified =~= PinView::nothing().verified);
        assert(self@.rejected =~= PinView::nothing().rejected);
    }

    /// Whether anything is remembered.
    pub fn has_any(&self) -> (r: bool)
        requires
            self.wf(),
        ensures
            r == self@.any(),
    {
        let none: bool = self.verified.is_empty();
        proof {
            let m = self.verified@;
            if m == Map::<Seq<u8>, String>::empty() {
                assert(pin_texts(m) =~= Map::<Seq<u8>, Seq<char>>::empty());
            } else if pin_texts(m) == Map::<Seq<u8>, Seq<char>>::empty() {
                assert forall|g: Seq<u8>| !m.dom().contains(g) by {
                    assert(pin_texts(m).dom().contains(g) == m.dom().contains(g));
                }
                assert(m =~= Map::<Seq<u8>, String>::empty());
            }
        }
        !none || self.offered.is_some()
    }

    /// The PIN that verified on the card.
    pub fn verified_for(&self, guid: &Guid) -> (r: Option<String>)
        requires
            self.wf(),
        ensures
            r is Some <==> self@.verified.dom().contains(guid@),
            r is Some ==> r->0@ == self@.verified[guid@],
    {
        match self.verified.get(guid) {
            Some(p) => Some(p.clone()),
            None => None,
        }
    }

    /// The PIN that was offered.
    pub fn offered(&self) -> (r: Option<String>)
        ensures
            opt_text(r) == self@.offered,
    {
        self.offered.clone()
    }
}

// -------------------------------------------------------------------- laws

/// A PIN that verified on one card is never handed out as another's.
pub proof fn law_verified_pins_are_per_card(v: PinView, g: Seq<u8>, h: Seq<u8>, pin: Seq<char>)
    requires
        g != h,
    ensures
        v.cached(g, pin).lookup(g) == Some((pin, PinSource::Verified)),
        v.cached(g, pin).lookup(h) == v.lookup(h),
{
}

/// An offer goes to every card without a PIN of its own and to no other.
pub proof fn law_offer_goes_to_cards_without_a_pin(v: PinView, g: Seq<u8>, pin: Seq<char>)
    ensures
        v.with_offer(pin).lookup(g) == if v.verified.dom().contains(g) {
            Some((v.verified[g], PinSource::Verified))
        } else {
            Some((pin, PinSource::Offered))
        },
{
}

/// A card that rejected a PIN is given none until it verifies one or a new
/// one is offered, and the rejection is its own affair: every other card
/// is given what it was given before.
pub proof fn law_rejection_is_per_card(
    v: PinView,
    g: Seq<u8>,
    h: Seq<u8>,
    pin: Seq<char>,
)
    requires
        g != h,
    ensures
        v.forgotten_for(g).lookup(g) is None,
        v.forgotten_for(g).lookup(h) == v.lookup(h),
        v.forgotten_for(g).with_offer(pin).lookup(g) == Some((pin, PinSource::Offered)),
{
}

/// A card that went away leaves the PINs of the others alone and takes the
/// offer with it; a second time there is nothing left to drop.
pub proof fn law_leaving_card_takes_the_offer(v: PinView, g: Seq<u8>, h: Seq<u8>)
    requires
        g != h,
    ensures
        v.without_card(g).lookup(g) is None,
        v.without_card(g).verified.dom().contains(h) == v.verified.dom().contains(h),
        v.verified.dom().contains(h) ==> v.without_card(g).lookup(h) == Some(
            (v.verified[h], PinSource::Verified),
        ),
        !v.verified.dom().contains(h) ==> v.without_card(g).lookup(h) is None,
        !v.without_card(g).verified.dom().contains(g) && v.without_card(g).offered is None,
        v.without_card(g).without_card(g) == v.without_card(g),
{
    assert(v.without_card(g).without_card(g).verified =~= v.without_card(g).verified);
}

/// Nothing is handed out once everything was forgotten.
pub proof fn law_nothing_after_clear(g: Seq<u8>)
    ensures
        PinView::nothing().lookup(g) is None,
        !PinView::nothing().any(),
{
}

} // verus!
