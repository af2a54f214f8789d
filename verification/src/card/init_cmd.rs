//! `card init`: which card is set up, and what is said of it.
use crate::card::engine::{
    ActionView, ErrorView, EventView, Exchange, ProvisionError, ProvisionOutcome,
};
use crate::card::protocol::{Frontend, ProgressEvent, ProgressView};
use crate::card::seal::{
    check_escrow_recipients, default_pass_name, law_checked_seal_stays_readable, names_same_key,
    opt_recipient, outlives, recipients_verdict, KeyEscrow, ManagementKeySealer, RecipientId,
    RecipientView, SealMode,
};
use crate::crypto::{hex_bytes, hex_text, random_bytes};
use crate::piv::{guid_flaw, is_guid, sixteen, Guid};
use crate::text::{
    cat2, cat3, cat4, cat5, debug_str, debug_text, dec, dec_u64, dec_usize, join, joined, opt_text,
    same, texts, trim, trimmed,
};
use vstd::prelude::*;

verus! {

/// How the card was named.
#[derive(Debug)]
pub enum CardSelector {
    /// By its serial number. A card without one is never meant.
    Serial(u32),
    /// By its identifier, which all cards that were never set up share.
    Guid(Guid),
    /// By the name of its reader.
    Reader(String),
    /// Not at all: the only card there is.
    Auto,
}

impl CardSelector {
    /// What the options mean; at most one of them may be given.
    pub fn from_flags(
        serial: Option<u32>,
        guid: Option<String>,
        reader: Option<String>,
    ) -> (r: Result<CardSelector, String>)
        ensures
            match (serial, guid, reader) {
                (None, None, None) => r == Ok::<CardSelector, String>(CardSelector::Auto),
                (Some(s), None, None) => r == Ok::<CardSelector, String>(CardSelector::Serial(s)),
                (None, None, Some(name)) => r == Ok::<CardSelector, String>(
                    CardSelector::Reader(name),
                ),
                (None, Some(g), None) => {
                    let t = trimmed(g@);
                    if is_guid(t) {
                        r matches Ok(CardSelector::Guid(c)) && c@ == hex_bytes(t)
                    } else {
                        r is Err && r->Err_0@ == "invalid --guid "@ + debug_text(g@) + ": "@
                            + guid_flaw(t)
                    }
                },
                _ => r is Err && r->Err_0@ == "provide at most one of --serial, --guid, --reader"@,
            },
    {
        match (serial, guid, reader) {
            (None, None, None) => Ok(CardSelector::Auto),
            (Some(s), None, None) => Ok(CardSelector::Serial(s)),
            (None, Some(g), None) => match Guid::from_hex(trim(g.as_str()).as_str()) {
                Ok(c) => Ok(CardSelector::Guid(c)),
                Err(e) => Err(
                    cat4("invalid --guid ", debug_str(g.as_str()).as_str(), ": ", e.as_str()),
                ),
            },
            (None, None, Some(name)) => Ok(CardSelector::Reader(name)),
            _ => Err("provide at most one of --serial, --guid, --reader".to_owned()),
        }
    }
}

/// What is known of a card that could be set up.
pub struct CardMeta {
    pub serial: Option<u32>,
    pub guid: Guid,
    pub reader: String,
    /// Whether it was set up before.
    pub initialized: bool,
}

/// Whether a card may be set up at all.
pub open spec fn is_eligible(m: CardMeta, allow_reprovision: bool) -> bool {
    allow_reprovision || !m.initialized
}

/// Whether a card is the one that was named.
pub open spec fn is_named(m: CardMeta, sel: CardSelector) -> bool {
    match sel {
        CardSelector::Serial(n) => m.serial == Some(n),
        CardSelector::Guid(g) => m.guid@ == g@,
        CardSelector::Reader(name) => m.reader@ == name@,
        CardSelector::Auto => true,
    }
}

/// The places of the eligible cards that were named, among the first `n`.
pub open spec fn matches_below(
    metas: Seq<CardMeta>,
    sel: CardSelector,
    allow: bool,
    n: int,
) -> Seq<int>
    decreases n,
{
    if n <= 0 {
        seq![]
    } else if is_eligible(metas[n - 1], allow) && is_named(metas[n - 1], sel) {
        matches_below(metas, sel, allow, n - 1).push(n - 1)
    } else {
        matches_below(metas, sel, allow, n - 1)
    }
}

/// The places of the eligible cards that were named.
pub open spec fn matching(metas: Seq<CardMeta>, sel: CardSelector, allow: bool) -> Seq<int> {
    matches_below(metas, sel, allow, metas.len() as int)
}

/// One line of the list of cards.
pub open spec fn candidate(m: CardMeta) -> Seq<char> {
    "guid="@ + hex_text(m.guid@, true) + " reader="@ + m.reader@
}

/// The list of the cards that could be meant.
pub open spec fn candidates(metas: Seq<CardMeta>, allow: bool) -> Seq<char> {
    let eligible = matching(metas, CardSelector::Auto, allow);
    if eligible.len() == 0 {
        "none present"@
    } else {
        joined(eligible.map_values(|i: int| candidate(metas[i])), "; "@)
    }
}

/// What is looked for.
pub open spec fn noun_of(allow: bool) -> Seq<char> {
    if allow {
        "PIV card"@
    } else {
        "uninitialized (factory-blank) PIV card"@
    }
}

/// How the card was named, in words.
pub open spec fn selector_text(sel: CardSelector) -> Seq<char> {
    match sel {
        CardSelector::Serial(n) => "serial "@ + dec(n as nat),
        CardSelector::Guid(g) => "guid "@ + hex_text(g@, true),
        CardSelector::Reader(name) => "reader "@ + debug_text(name@),
        CardSelector::Auto => ""@,
    }
}

/// The only match, or why there is none to take.
pub open spec fn resolved(
    found: Seq<int>,
    what: Seq<char>,
    noun: Seq<char>,
    list: Seq<char>,
) -> Result<int, Seq<char>> {
    if found.len() == 0 {
        Err("no "@ + noun + " matching "@ + what + ". candidates: "@ + list)
    } else if found.len() == 1 {
        Ok(found[0])
    } else {
        Err(
            dec(found.len()) + " "@ + noun + "s match "@ + what
                + "; disambiguate with --reader <NAME>. candidates: "@ + list,
        )
    }
}

/// Which card is set up, or why none is.
pub open spec fn chosen(metas: Seq<CardMeta>, sel: CardSelector, allow: bool) -> Result<
    int,
    Seq<char>,
> {
    let found = matching(metas, sel, allow);
    if sel is Auto {
        if found.len() == 0 {
            Err("no "@ + noun_of(allow) + " found; insert one to provision"@)
        } else if found.len() == 1 {
            Ok(found[0])
        } else {
            Err(
                dec(found.len())
                    + " candidate cards present; choose one with --serial <N>, --guid <HEX>, or --reader <NAME>. candidates: "@
                    + candidates(metas, allow),
            )
        }
    } else {
        resolved(found, selector_text(sel), noun_of(allow), candidates(metas, allow))
    }
}

/// Places as mathematical numbers.
pub open spec fn places(v: Seq<usize>) -> Seq<int> {
    v.map_values(|i: usize| i as int)
}

fn named(m: &CardMeta, sel: &CardSelector) -> (r: bool)
    ensures
        r == is_named(*m, *sel),
{
    match sel {
        CardSelector::Serial(n) => match m.serial {
            Some(s) => s == *n,
            None => false,
        },
        CardSelector::Guid(g) => m.guid.same(g),
        CardSelector::Reader(name) => same(m.reader.as_str(), name.as_str()),
        CardSelector::Auto => true,
    }
}

fn find_matching(metas: &Vec<CardMeta>, sel: &CardSelector, allow: bool) -> (r: Vec<usize>)
    ensures
        places(r@) == matching(metas@, *sel, allow),
        forall|j: int| 0 <= j < r@.len() ==> #[trigger] r@[j] < metas@.len(),
{
    let mut out: Vec<usize> = Vec::new();
    assert(places(out@) =~= seq![]);
    for i in 0..metas.len()
        invariant
            places(out@) == matches_below(metas@, *sel, allow, i as int),
            forall|j: int| 0 <= j < out@.len() ==> #[trigger] out@[j] < metas@.len(),
    {
        if (allow || !metas[i].initialized) && named(&metas[i], sel) {
            let ghost before = out@;
            out.push(i);
            assert(places(out@) =~= places(before).push(i as int));
        }
    }
    out
}

fn list_candidates(metas: &Vec<CardMeta>, allow: bool) -> (r: String)
    ensures
        r@ == candidates(metas@, allow),
{
    let eligible: Vec<usize> = find_matching(metas, &CardSelector::Auto, allow);
    let ghost all = matching(metas@, CardSelector::Auto, allow);
    let ghost lines = all.map_values(|i: int| candidate(metas@[i]));
    assert(places(eligible@).len() == eligible@.len());
    if eligible.len() == 0 {
        return "none present".to_owned();
    }
    let mut out: Vec<String> = Vec::new();
    assert(texts(out@) =~= lines.take(0));
    for i in 0..eligible.len()
        invariant
            places(eligible@) == all,
            all.len() == eligible@.len(),
            lines == all.map_values(|i: int| candidate(metas@[i])),
            forall|j: int| 0 <= j < eligible@.len() ==> #[trigger] eligible@[j] < metas@.len(),
            texts(out@) == lines.take(i as int),
    {
        assert(places(eligible@)[i as int] == eligible@[i as int] as int);
        let m: &CardMeta = &metas[eligible[i]];
        let ghost before = out@;
        out.push(cat4("guid=", m.guid.to_hex().as_str(), " reader=", m.reader.as_str()));
        assert(texts(out@) =~= texts(before).push(candidate(*m)));
        assert(lines.take(i + 1) =~= lines.take(i as int).push(lines[i as int]));
    }
    assert(lines.take(lines.len() as int) =~= lines);
    join(&out, "; ")
}

/// The only match, or why there is none to take.
pub fn resolve_match(
    found: &Vec<usize>,
    what: &str,
    noun: &str,
    list: &str,
) -> (r: Result<usize, String>)
    ensures
        match r {
            Ok(i) => resolved(places(found@), what@, noun@, list@) == Ok::<int, Seq<char>>(
                i as int,
            ),
            Err(e) => resolved(places(found@), what@, noun@, list@) == Err::<int, Seq<char>>(e@),
        },
{
    assert(places(found@).len() == found@.len());
    if found.len() == 0 {
        let head: String = cat5("no ", noun, " matching ", what, ". candidates: ");
        Err(cat2(head.as_str(), list))
    } else if found.len() == 1 {
        assert(places(found@)[0] == found@[0] as int);
        Ok(found[0])
    } else {
        let head: String = cat5(
            dec_usize(found.len()).as_str(),
            " ",
            noun,
            "s match ",
            what,
        );
        Err(
            cat3(head.as_str(), "; disambiguate with --reader <NAME>. candidates: ", list),
        )
    }
}

/// Chooses the card to set up. Without leave to set up again, only a card
/// that never was counts.
pub fn choose_card_index(
    metas: &Vec<CardMeta>,
    selector: &CardSelector,
    allow_reprovision: bool,
) -> (r: Result<usize, String>)
    ensures
        match r {
            Ok(i) => chosen(metas@, *selector, allow_reprovision) == Ok::<int, Seq<char>>(i as int)
                && i < metas@.len(),
            Err(e) => chosen(metas@, *selector, allow_reprovision) == Err::<int, Seq<char>>(e@),
        },
{
    let noun: &str = if allow_reprovision {
        "PIV card"
    } else {
        "uninitialized (factory-blank) PIV card"
    };
    let found: Vec<usize> = find_matching(metas, selector, allow_reprovision);
    let list: String = list_candidates(metas, allow_reprovision);
    assert(places(found@).len() == found@.len());
    let what: String = match selector {
        CardSelector::Auto => {
            if found.len() == 0 {
                return Err(cat3("no ", noun, " found; insert one to provision"));
            } else if found.len() == 1 {
                assert(places(found@)[0] == found@[0] as int);
                return Ok(found[0]);
            } else {
                return Err(
                    cat3(
                        dec_usize(found.len()).as_str(),
                        " candidate cards present; choose one with --serial <N>, --guid <HEX>, or --reader <NAME>. candidates: ",
                        list.as_str(),
                    ),
                );
            }
        },
        CardSelector::Serial(n) => cat2("serial ", dec_u64(*n as u64).as_str()),
        CardSelector::Guid(g) => cat2("guid ", g.to_hex().as_str()),
        CardSelector::Reader(name) => cat2("reader ", debug_str(name.as_str()).as_str()),
    };
    if found.len() == 1 {
        assert(places(found@)[0] == found@[0] as int);
    }
    resolve_match(&found, what.as_str(), noun, list.as_str())
}

/// A card is chosen exactly if it is the only eligible one that was named.
pub proof fn law_chosen_card_is_the_only_match(
    metas: Seq<CardMeta>,
    sel: CardSelector,
    allow: bool,
    i: int,
)
    ensures
        chosen(metas, sel, allow) == Ok::<int, Seq<char>>(i) <==> {
            &&& 0 <= i < metas.len()
            &&& is_eligible(metas[i], allow)
            &&& is_named(metas[i], sel)
            &&& forall|j: int|
                0 <= j < metas.len() && j != i ==> !(is_eligible(#[trigger] metas[j], allow)
                    && is_named(metas[j], sel))
        },
{
    lemma_matches(metas, sel, allow, metas.len() as int);
    let found = matching(metas, sel, allow);
    let alone = 0 <= i < metas.len() && is_eligible(metas[i], allow) && is_named(metas[i], sel) && (
    forall|j: int|
        0 <= j < metas.len() && j != i ==> !(is_eligible(#[trigger] metas[j], allow) && is_named(
            metas[j],
            sel,
        )));
    if alone {
        assert(found.contains(i));
        let k = choose|k: int| 0 <= k < found.len() && found[k] == i;
        assert forall|j: int| 0 <= j < found.len() implies found[j] == i by {
            assert(found.contains(found[j]));
        }
        if found.len() > 1 {
            assert(found[0] < found[1]);
        }
        assert(found.len() == 1);
    }
    if chosen(metas, sel, allow) == Ok::<int, Seq<char>>(i) {
        assert(found.len() == 1 && found[0] == i);
        assert(found.contains(found[0]));
        assert forall|j: int| 0 <= j < metas.len() && j != i implies !(is_eligible(
            #[trigger] metas[j],
            allow,
        ) && is_named(metas[j], sel)) by {
            if is_eligible(metas[j], allow) && is_named(metas[j], sel) {
                assert(found.contains(j));
            }
        }
    }
}

/// The matches are exactly the places of eligible cards that were named, in
/// order.
proof fn lemma_matches(metas: Seq<CardMeta>, sel: CardSelector, allow: bool, n: int)
    requires
        0 <= n <= metas.len(),
    ensures
        forall|i: int| #[trigger]
            matches_below(metas, sel, allow, n).contains(i) <==> 0 <= i < n && is_eligible(
                metas[i],
                allow,
            ) && is_named(metas[i], sel),
        forall|a: int, b: int|
            0 <= a < b < matches_below(metas, sel, allow, n).len() ==> matches_below(
                metas,
                sel,
                allow,
                n,
            )[a] < matches_below(metas, sel, allow, n)[b],
    decreases n,
{
    if n > 0 {
        lemma_matches(metas, sel, allow, n - 1);
        let before = matches_below(metas, sel, allow, n - 1);
        let now = matches_below(metas, sel, allow, n);
        if is_eligible(metas[n - 1], allow) && is_named(metas[n - 1], sel) {
            assert forall|i: int| #[trigger] now.contains(i) <==> 0 <= i < n && is_eligible(
                metas[i],
                allow,
            ) && is_named(metas[i], sel) by {
                if now.contains(i) {
                    let k = choose|k: int| 0 <= k < now.len() && now[k] == i;
                    if k < before.len() {
                        assert(before[k] == i);
                        assert(before.contains(i));
                    }
                }
                if before.contains(i) {
                    let k = choose|k: int| 0 <= k < before.len() && before[k] == i;
                    assert(now[k] == i);
                }
                if i == n - 1 {
                    assert(now[before.len() as int] == i);
                }
            }
            assert forall|a: int, b: int| 0 <= a < b < now.len() implies now[a] < now[b] by {
                assert(before.contains(before[a]));
            }
        }
    }
}

// ------------------------------------------------------------------ sealing

/// Where a new management key is to be sealed, and whether it must be.
pub open spec fn target_of(mode: SealMode, guid_hex: Seq<char>) -> Option<(Seq<char>, bool)> {
    let usual = "piv/"@ + guid_hex + "/management-key"@;
    match mode {
        SealMode::Never => None,
        SealMode::Offer => Some((usual, false)),
        SealMode::Always(Some(name)) => Some((name@, true)),
        SealMode::Always(None) => Some((usual, true)),
    }
}

/// Where a new management key is to be sealed, and whether it must be.
pub fn seal_target(mode: &SealMode, guid_hex: &str) -> (r: Option<(String, bool)>)
    ensures
        match r {
            Some((name, required)) => target_of(*mode, guid_hex@) == Some((name@, required)),
            None => target_of(*mode, guid_hex@) is None,
        },
{
    match mode {
        SealMode::Never => None,
        SealMode::Offer => Some((default_pass_name(guid_hex), false)),
        SealMode::Always(Some(name)) => Some((name.clone(), true)),
        SealMode::Always(None) => Some((default_pass_name(guid_hex), true)),
    }
}

/// What comes of looking for a place to seal a key: the place is taken, with
/// a warning or without; or none is, which is an error where it must be.
pub open spec fn seal_plan(
    verdict: Result<Option<Seq<char>>, Seq<char>>,
    pass_name: Seq<char>,
    required: bool,
) -> Result<Option<Option<Seq<char>>>, ErrorView> {
    match verdict {
        Ok(warning) => Ok(Some(warning)),
        Err(e) => if required {
            Err(ErrorView::Setup("cannot seal the management key to "@ + pass_name + ": "@ + e))
        } else {
            Ok(None)
        },
    }
}

/// A result over plain text.
pub open spec fn verdict_view(v: Result<Option<String>, String>) -> Result<
    Option<Seq<char>>,
    Seq<char>,
> {
    match v {
        Ok(w) => Ok(opt_text(w)),
        Err(e) => Err(e@),
    }
}

/// Decides what comes of looking for a place to seal a key.
pub fn plan_seal(
    verdict: Result<Option<String>, String>,
    pass_name: &str,
    required: bool,
) -> (r: Result<Option<Option<String>>, ProvisionError>)
    ensures
        match r {
            Ok(Some(w)) => seal_plan(verdict_view(verdict), pass_name@, required) == Ok::<
                Option<Option<Seq<char>>>,
                ErrorView,
            >(Some(opt_text(w))),
            Ok(None) => seal_plan(verdict_view(verdict), pass_name@, required) == Ok::<
                Option<Option<Seq<char>>>,
                ErrorView,
            >(None),
            Err(e) => seal_plan(verdict_view(verdict), pass_name@, required) == Err::<
                Option<Option<Seq<char>>>,
                ErrorView,
            >(e@),
        },
{
    match verdict {
        Ok(warning) => Ok(Some(warning)),
        Err(e) => {
            if required {
                Err(
                    ProvisionError::Setup(
                        cat4("cannot seal the management key to ", pass_name, ": ", e.as_str()),
                    ),
                )
            } else {
                Ok(None)
            }
        },
    }
}

/// The notice of what is doubtful about a place.
pub open spec fn seal_warning(message: Seq<char>) -> Exchange {
    Exchange {
        asked: ActionView::Progress(
            ProgressView { step: "seal-warning"@, message, current: None, total: None },
        ),
        answer: EventView::Done,
    }
}

/// Whether a place was dealt with as the verdict on it says: it is taken, and
/// a doubt about it is told; or it is not, and nothing is told.
pub open spec fn is_settled<K>(
    r: Result<Option<K>, ProvisionError>,
    place: Option<K>,
    plan: Result<Option<Option<Seq<char>>>, ErrorView>,
    before: Seq<Exchange>,
    after: Seq<Exchange>,
) -> bool {
    match plan {
        Err(e) => r is Err && (r->Err_0)@ == e && after == before,
        Ok(None) => r is Ok && r->Ok_0 is None && after == before,
        Ok(Some(None)) => r is Ok && r->Ok_0 == place && after == before,
        Ok(Some(Some(message))) => r is Ok && r->Ok_0 == place && after == before.push(
            seal_warning(message),
        ),
    }
}

/// Whether a key that setting up the card destroys was read.
pub open spec fn is_doomed<D: FnOnce() -> Option<RecipientId>>(
    doomed: D,
    key: Option<RecipientId>,
) -> bool {
    doomed.ensures((), key)
}

/// Whether what was looked up was dealt with as it should be: a place is
/// checked against the key that setting up the card destroys, and one that
/// was not found counts as one that fails the check.
pub open spec fn is_guarded<K: KeyEscrow, D: FnOnce() -> Option<RecipientId>>(
    r: Result<Option<K>, ProvisionError>,
    found: Result<K, String>,
    doomed: D,
    target: (Seq<char>, bool),
    before: Seq<Exchange>,
    after: Seq<Exchange>,
) -> bool {
    match found {
        Err(e) => is_settled(r, None, seal_plan(Err(e@), target.0, target.1), before, after),
        Ok(place) => exists|key: Option<RecipientId>| #[trigger]
            is_doomed(doomed, key) && is_settled(
                r,
                Some(place),
                seal_plan(
                    recipients_verdict(place.readers(), opt_recipient(key)),
                    target.0,
                    target.1,
                ),
                before,
                after,
            ),
    }
}

/// Finds the place to seal a new management key, before the card is touched,
/// and tells the operator of what is doubtful about it. `doomed` reads the
/// key that setting up the card destroys; it is asked only once there are
/// recipients.
pub fn prepare_escrow<S: ManagementKeySealer, F: Frontend, D: FnOnce() -> Option<RecipientId>>(
    mode: &SealMode,
    sealer: &S,
    guid_hex: &str,
    fe: &mut F,
    doomed: D,
) -> (r: Result<Option<S::Sink>, ProvisionError>)
    requires
        doomed.requires(()),
    ensures
        target_of(*mode, guid_hex@) is None ==> r is Ok && r->Ok_0 is None && final(fe).heard()
            == old(fe).heard(),
        target_of(*mode, guid_hex@) is Some ==> exists|found: Result<S::Sink, String>|
            sealer.finds((target_of(*mode, guid_hex@)->0).0, found) && #[trigger] is_guarded(
                r,
                found,
                doomed,
                target_of(*mode, guid_hex@)->0,
                old(fe).heard(),
                final(fe).heard(),
            ),
{
    let (pass_name, required): (String, bool) = match seal_target(mode, guid_hex) {
        None => return Ok(None),
        Some(t) => t,
    };
    let found: Result<S::Sink, String> = sealer.prepare(pass_name.as_str());
    let ghost looked = found;
    let ghost mut key: Option<RecipientId> = None;
    let ghost before = fe.heard();
    let (sink, verdict): (Option<S::Sink>, Result<Option<String>, String>) = match found {
        Err(e) => (None, Err(e)),
        Ok(sink) => {
            let recipients: Vec<RecipientId> = sink.recipients();
            let destroyed: Option<RecipientId> = doomed();
            let verdict: Result<Option<String>, String> = check_escrow_recipients(
                &recipients,
                &destroyed,
            );
            proof {
                key = destroyed;
            }
            (Some(sink), verdict)
        },
    };
    let ghost place = sink;
    let ghost said = verdict_view(verdict);
    let r: Result<Option<S::Sink>, ProvisionError> = match plan_seal(
        verdict,
        pass_name.as_str(),
        required,
    ) {
        Err(e) => Err(e),
        Ok(None) => Ok(None),
        Ok(Some(warning)) => {
            match warning {
                Some(message) => {
                    fe.progress(
                        ProgressEvent {
                            step: "seal-warning".to_owned(),
                            message,
                            current: None,
                            total: None,
                        },
                    );
                },
                None => {},
            }
            Ok(sink)
        },
    };
    proof {
        assert(is_settled(r, place, seal_plan(said, pass_name@, required), before, fe.heard()));
        if looked is Ok {
            assert(is_doomed(doomed, key));
        }
        assert(is_guarded(r, looked, doomed, (pass_name@, required), before, fe.heard()));
        assert(sealer.finds(pass_name@, looked));
        let t = target_of(*mode, guid_hex@);
        assert(t == Some((pass_name@, required)));
        assert(is_guarded(r, looked, doomed, t->0, old(fe).heard(), final(fe).heard()));
        assert(exists|found: Result<S::Sink, String>|
            sealer.finds((t->0).0, found) && #[trigger] is_guarded(
                r,
                found,
                doomed,
                t->0,
                old(fe).heard(),
                final(fe).heard(),
            ));
    }
    r
}

/// A key that must be sealed is sealed exactly if a recipient outlives the
/// card's old keys; otherwise it is an error, and the card stays as it is.
pub proof fn law_required_seal_is_readable_or_refused(
    recipients: Seq<RecipientView>,
    doomed: Option<RecipientView>,
    pass_name: Seq<char>,
)
    ensures
        seal_plan(recipients_verdict(recipients, doomed), pass_name, true) is Ok <==> exists|i: int|
            0 <= i < recipients.len() && outlives(#[trigger] recipients[i], doomed),
{
    if recipients_verdict(recipients, doomed) is Ok {
        law_checked_seal_stays_readable(recipients, doomed);
    } else if recipients.len() > 0 {
        assert forall|i: int| 0 <= i < recipients.len() implies !outlives(
            #[trigger] recipients[i],
            doomed,
        ) by {
            assert(names_same_key(recipients[i], doomed->0));
        }
    }
}

/// The error of a card whose identifier could not be drawn.
pub open spec fn guid_error(said: Seq<char>) -> ErrorView {
    ErrorView::Setup("generate GUID: "@ + said)
}

/// Makes the identifier of a new card of the bytes that were drawn for it.
pub fn guid_outcome(drawn: Result<Vec<u8>, String>) -> (r: Result<[u8; 16], ProvisionError>)
    requires
        drawn is Ok ==> drawn->Ok_0@.len() == 16,
    ensures
        match drawn {
            Ok(bytes) => r is Ok && r->Ok_0@ == bytes@,
            Err(e) => r is Err && (r->Err_0)@ == guid_error(e@),
        },
{
    match drawn {
        Ok(bytes) => Ok(sixteen(bytes.as_slice())),
        Err(e) => Err(ProvisionError::Setup(cat2("generate GUID: ", e.as_str()))),
    }
}

/// Draws the identifier of a new card. Which it is, is chance.
pub fn draw_guid() -> (r: Result<[u8; 16], ProvisionError>)
    ensures
        r is Err ==> exists|said: Seq<char>| (r->Err_0)@ == #[trigger] guid_error(said),
{
    guid_outcome(random_bytes(16))
}

// ---------------------------------------------------------------- reporting

/// What the command prints, and the code it ends with.
pub struct InitReport {
    pub stdout: Option<String>,
    pub stderr: Vec<String>,
    pub code: i32,
}

/// The line that tells where the key was sealed.
pub open spec fn sealed_line(pass_name: Seq<char>, recipients: nat) -> Seq<char> {
    "Management key sealed to "@ + pass_name + " in the password store ("@ + dec(recipients)
        + " recipient"@ + (if recipients == 1 {
        ""@
    } else {
        "s"@
    }) + ")."@
}

/// The line that shows a key once.
pub open spec fn shown_line(key: Seq<char>) -> Seq<char> {
    "New management key (record this — it is NOT recoverable): "@ + key
}

/// The lines beside the card's identifier.
pub open spec fn notes(o: ProvisionOutcome) -> Seq<Seq<char>> {
    (match o.sealed_mgmt_key {
        Some(s) => seq![sealed_line(s.pass_name@, s.recipients as nat)],
        None => seq![],
    }) + (match o.generated_mgmt_key {
        Some(k) => seq![shown_line(k@)],
        None => seq![],
    })
}

/// What is told of the end of `card init`: the output, what is said beside
/// it, and the code.
pub open spec fn reported(result: Result<ProvisionOutcome, String>) -> (
    Option<Seq<char>>,
    Seq<Seq<char>>,
    int,
) {
    match result {
        Ok(o) => (Some(o.guid@), notes(o), 0),
        Err(e) => (None, seq!["piggy card init: "@ + e@], 1),
    }
}

/// Tells what `card init` came to: the card's identifier goes to the output,
/// everything else beside it.
pub fn report(result: &Result<ProvisionOutcome, String>) -> (r: InitReport)
    ensures
        (opt_text(r.stdout), texts(r.stderr@), r.code as int) == reported(*result),
        match result {
            Ok(o) => opt_text(r.stdout) == Some(o.guid@) && texts(r.stderr@) == notes(*o) && r.code
                == 0,
            Err(e) => r.stdout is None && texts(r.stderr@) == seq!["piggy card init: "@ + e@]
                && r.code == 1,
        },
{
    let mut lines: Vec<String> = Vec::new();
    match result {
        Ok(o) => {
            match &o.sealed_mgmt_key {
                Some(s) => {
                    let plural: &str = if s.recipients == 1 {
                        ""
                    } else {
                        "s"
                    };
                    let head: String = cat5(
                        "Management key sealed to ",
                        s.pass_name.as_str(),
                        " in the password store (",
                        dec_usize(s.recipients).as_str(),
                        " recipient",
                    );
                    lines.push(cat3(head.as_str(), plural, ")."));
                },
                None => {},
            }
            match &o.generated_mgmt_key {
                Some(k) => {
                    lines.push(
                        cat2(
                            "New management key (record this — it is NOT recoverable): ",
                            k.as_str(),
                        ),
                    );
                },
                None => {},
            }
            assert(texts(lines@) =~= notes(*o));
            InitReport { stdout: Some(o.guid.clone()), stderr: lines, code: 0 }
        },
        Err(e) => {
            lines.push(cat2("piggy card init: ", e.as_str()));
            assert(texts(lines@) =~= seq!["piggy card init: "@ + e@]);
            InitReport { stdout: None, stderr: lines, code: 1 }
        },
    }
}

} // verus!
