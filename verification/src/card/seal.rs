//! Sealing a card's new management key into the password store instead of
//! showing it once: when that is done, where, and for whom.
use crate::card::engine::{ActionView, Event, EventView, Exchange};
use crate::card::protocol::untold;
use crate::text::{cat3, opt_text, same};
use crate::wire::bytes_same;
use vstd::prelude::*;

verus! {

/// Whether a new management key is sealed.
#[derive(Debug, PartialEq, Eq)]
pub enum SealMode {
    /// Never: the key is shown once.
    Never,
    /// Where the store can take it, the operator is asked.
    Offer,
    /// Without asking, under the given name or the usual one.
    Always(Option<String>),
}

/// What the options mean.
pub open spec fn mode_of(seal: Option<String>, no_seal: bool) -> SealMode {
    match seal {
        Some(p) => SealMode::Always(
            if p@.len() == 0 {
                None
            } else {
                Some(p)
            },
        ),
        None => if no_seal {
            SealMode::Never
        } else {
            SealMode::Offer
        },
    }
}

impl SealMode {
    /// What the options mean. An empty name stands for the option without a
    /// value; the option to seal wins over the option not to.
    pub fn from_cli(seal: Option<String>, no_seal: bool) -> (r: SealMode)
        ensures
            r == mode_of(seal, no_seal),
            match seal {
                Some(p) => if p@.len() == 0 {
                    r == SealMode::Always(None)
                } else {
                    r == SealMode::Always(Some(p))
                },
                None => if no_seal {
                    r is Never
                } else {
                    r is Offer
                },
            },
    {
        match seal {
            Some(p) => {
                if p.as_str().is_empty() {
                    SealMode::Always(None)
                } else {
                    SealMode::Always(Some(p))
                }
            },
            None => {
                if no_seal {
                    SealMode::Never
                } else {
                    SealMode::Offer
                }
            },
        }
    }
}

/// The usual name for a card's sealed management key.
pub fn default_pass_name(guid_hex: &str) -> (r: String)
    ensures
        r@ == "piv/"@ + guid_hex@ + "/management-key"@,
{
    cat3("piv/", guid_hex, "/management-key")
}

/// A place to seal a key, found before the card is touched.
pub trait KeyEscrow: Sized {
    /// The name that the key is sealed under.
    open spec fn name(&self) -> Seq<char> {
        untold(*self)
    }

    /// The keys that can read it there.
    open spec fn readers(&self) -> Seq<RecipientView> {
        untold(*self)
    }

    /// What was asked of the place so far, each with the answer.
    open spec fn kept(&self) -> Seq<Exchange> {
        untold(*self)
    }

    /// The name that the key is sealed under.
    fn pass_name(&self) -> (r: String)
        ensures
            r@ == self.name(),
    ;

    /// The keys that can read it there.
    fn recipients(&self) -> (r: Vec<RecipientId>)
        ensures
            recipients_view(r@) == self.readers(),
    ;

    /// Writes the sealed key, before the card gets it.
    fn seal(&mut self, key_hex: &str) -> (r: Result<(), String>)
        ensures
            final(self).kept() == old(self).kept().push(
                Exchange { asked: ActionView::Seal(key_hex@), answer: Event::Sealed(r)@ },
            ),
    ;

    /// Takes the sealed key away again, after the card refused it.
    fn rollback(&mut self)
        ensures
            final(self).kept() == old(self).kept().push(
                Exchange { asked: ActionView::Rollback, answer: EventView::Done },
            ),
    ;

    /// Makes the sealed key last, once the card holds it.
    fn commit(&mut self)
        ensures
            final(self).kept() == old(self).kept().push(
                Exchange { asked: ActionView::Commit, answer: EventView::Done },
            ),
    ;
}

/// Finds the place to seal a key under a name.
pub trait ManagementKeySealer: Sized {
    type Sink: KeyEscrow;

    /// Whether looking up a name can give this place, or this error.
    open spec fn finds(&self, name: Seq<char>, found: Result<Self::Sink, String>) -> bool {
        untold((*self, name, found))
    }

    /// Looks up who can read entries under that name.
    fn prepare(&self, pass_name: &str) -> (r: Result<Self::Sink, String>)
        ensures
            self.finds(pass_name@, r),
    ;
}

/// A store that is not there; nothing can be sealed into it.
pub struct NoStore;

fn no_store() -> (r: String)
    ensures
        r@ == "no password store is available to seal into"@,
{
    "no password store is available to seal into".to_owned()
}

/// A place that takes no key and that nobody reads.
pub struct NoPlace {
    kept: Ghost<Seq<Exchange>>,
}

impl NoPlace {
    /// Nothing was asked of it yet.
    pub fn new() -> (r: NoPlace)
        ensures
            r.kept() == Seq::<Exchange>::empty(),
    {
        let kept: Ghost<Seq<Exchange>> = Ghost(Seq::empty());
        NoPlace { kept }
    }
}

impl KeyEscrow for NoPlace {
    open spec fn name(&self) -> Seq<char> {
        seq![]
    }

    open spec fn readers(&self) -> Seq<RecipientView> {
        seq![]
    }

    closed spec fn kept(&self) -> Seq<Exchange> {
        self.kept@
    }

    fn pass_name(&self) -> String {
        let s: String = String::new();
        assert(s@ =~= seq![]);
        s
    }

    fn recipients(&self) -> Vec<RecipientId> {
        let r: Vec<RecipientId> = Vec::new();
        assert(recipients_view(r@) =~= seq![]);
        r
    }

    fn seal(&mut self, key_hex: &str) -> (r: Result<(), String>)
        ensures
            r is Err,
            r->Err_0@ == "no password store is available to seal into"@,
    {
        let r: Result<(), String> = Err(no_store());
        self.kept = Ghost(
            self.kept@.push(
                Exchange { asked: ActionView::Seal(key_hex@), answer: Event::Sealed(r)@ },
            ),
        );
        r
    }

    fn rollback(&mut self) {
        self.kept = Ghost(
            self.kept@.push(Exchange { asked: ActionView::Rollback, answer: EventView::Done }),
        );
    }

    fn commit(&mut self) {
        self.kept = Ghost(
            self.kept@.push(Exchange { asked: ActionView::Commit, answer: EventView::Done }),
        );
    }
}

impl ManagementKeySealer for NoStore {
    type Sink = NoPlace;

    open spec fn finds(&self, _name: Seq<char>, found: Result<NoPlace, String>) -> bool {
        found is Err && found->Err_0@ == "no password store is available to seal into"@
    }

    fn prepare(&self, _pass_name: &str) -> (r: Result<NoPlace, String>) {
        Err(no_store())
    }
}

/// A key that entries are encrypted to.
pub struct RecipientId {
    pub purpose: Option<String>,
    pub format: String,
    pub data: Vec<u8>,
}

/// [`RecipientId`] over plain values.
pub struct RecipientView {
    pub purpose: Option<Seq<char>>,
    pub format: Seq<char>,
    pub data: Seq<u8>,
}

impl View for RecipientId {
    type V = RecipientView;

    open spec fn view(&self) -> RecipientView {
        RecipientView { purpose: opt_text(self.purpose), format: self.format@, data: self.data@ }
    }
}

/// Recipients over plain values.
pub open spec fn recipients_view(r: Seq<RecipientId>) -> Seq<RecipientView> {
    r.map_values(|x: RecipientId| x@)
}

/// A recipient, if there is one, over plain values.
pub open spec fn opt_recipient(r: Option<RecipientId>) -> Option<RecipientView> {
    match r {
        Some(x) => Some(x@),
        None => None,
    }
}

/// Whether two entries name the same key; what the key is for does not
/// matter, and may be left out.
pub open spec fn names_same_key(a: RecipientView, b: RecipientView) -> bool {
    a.format == b.format && a.data == b.data
}

fn same_key(a: &RecipientId, b: &RecipientId) -> (r: bool)
    ensures
        r == names_same_key(a@, b@),
{
    same(a.format.as_str(), b.format.as_str()) && bytes_same(a.data.as_slice(), b.data.as_slice())
}

/// Whether some recipient is the given key.
pub open spec fn some_is(recipients: Seq<RecipientView>, key: RecipientView) -> bool {
    exists|i: int| 0 <= i < recipients.len() && names_same_key(#[trigger] recipients[i], key)
}

/// Whether every recipient is the given key.
pub open spec fn all_are(recipients: Seq<RecipientView>, key: RecipientView) -> bool {
    forall|i: int| 0 <= i < recipients.len() ==> names_same_key(#[trigger] recipients[i], key)
}

/// What is said of the recipients of a sealed key: without any, or with the
/// key that is about to be destroyed as the only one, nobody could read it;
/// with that key among others, they still can.
pub open spec fn recipients_verdict(
    recipients: Seq<RecipientView>,
    doomed: Option<RecipientView>,
) -> Result<Option<Seq<char>>, Seq<char>> {
    if recipients.len() == 0 {
        Err("the piggy-ids for this path declares no encryption recipients"@)
    } else if doomed is None || !some_is(recipients, doomed->0) {
        Ok(None)
    } else if all_are(recipients, doomed->0) {
        Err(
            "the only recipient is this card's current 9D key, which reprovisioning destroys; add a backup card to the piggy-ids first"@,
        )
    } else {
        Ok(
            Some(
                "this card's current 9D key is a recipient, but reprovisioning destroys it; the sealed key stays readable by the other recipients only"@,
            ),
        )
    }
}

/// Checks who could read a sealed key.
pub fn check_escrow_recipients(
    recipients: &Vec<RecipientId>,
    destroyed_9d: &Option<RecipientId>,
) -> (r: Result<Option<String>, String>)
    ensures
        match r {
            Ok(w) => recipients_verdict(recipients_view(recipients@), opt_recipient(*destroyed_9d)) == Ok::<
                Option<Seq<char>>,
                Seq<char>,
            >(crate::text::opt_text(w)),
            Err(e) => recipients_verdict(recipients_view(recipients@), opt_recipient(*destroyed_9d)) == Err::<
                Option<Seq<char>>,
                Seq<char>,
            >(e@),
        },
{
    if recipients.len() == 0 {
        return Err("the piggy-ids for this path declares no encryption recipients".to_owned());
    }
    let doomed: &RecipientId = match destroyed_9d {
        None => return Ok(None),
        Some(d) => d,
    };
    let ghost all_read = recipients_view(recipients@);
    let mut some: bool = false;
    let mut all: bool = true;
    for i in 0..recipients.len()
        invariant
            all_read == recipients_view(recipients@),
            some == exists|j: int| 0 <= j < i && names_same_key(#[trigger] all_read[j], doomed@),
            all == forall|j: int| 0 <= j < i ==> names_same_key(#[trigger] all_read[j], doomed@),
    {
        assert(all_read[i as int] == recipients@[i as int]@);
        if same_key(&recipients[i], doomed) {
            some = true;
        } else {
            all = false;
        }
    }
    if !some {
        return Ok(None);
    }
    if all {
        return Err(
            "the only recipient is this card's current 9D key, which reprovisioning destroys; add a backup card to the piggy-ids first".to_owned(),
        );
    }
    Ok(
        Some(
            "this card's current 9D key is a recipient, but reprovisioning destroys it; the sealed key stays readable by the other recipients only".to_owned(),
        ),
    )
}

/// Whether a recipient is still there when the card's current key is gone.
pub open spec fn outlives(r: RecipientView, doomed: Option<RecipientView>) -> bool {
    doomed is None || !names_same_key(r, doomed->0)
}

/// Whatever passes the check leaves a recipient that outlives the card's
/// current key, so the sealed key stays readable.
pub proof fn law_checked_seal_stays_readable(
    recipients: Seq<RecipientView>,
    doomed: Option<RecipientView>,
)
    requires
        recipients_verdict(recipients, doomed) is Ok,
    ensures
        exists|i: int| 0 <= i < recipients.len() && outlives(#[trigger] recipients[i], doomed),
{
    assert(outlives(recipients[0], None));
    if doomed is Some {
        if some_is(recipients, doomed->0) {
            assert(!all_are(recipients, doomed->0));
            let i = choose|i: int|
                0 <= i < recipients.len() && !names_same_key(#[trigger] recipients[i], doomed->0);
            assert(!names_same_key(recipients[i], doomed->0));
        } else {
            assert(!names_same_key(recipients[0], doomed->0));
        }
    }
}

} // verus!
