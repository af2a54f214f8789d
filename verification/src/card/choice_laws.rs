//! What holds of the choices that are made before a card is set up, and of
//! what is told afterwards.
use crate::card::frontend::tty::{confirm_meaning, verb_of};
use crate::card::init_cmd::{
    chosen, law_chosen_card_is_the_only_match, notes, reported, seal_plan, target_of, CardMeta,
    CardSelector,
};
use crate::card::engine::{
    goes_by, is_outcome, playable, played, reached, setup_of, ActionView, CardOpView, EndingView,
    EventView, Exchange, ProvisionConfig, ProvisionError, ProvisionOutcome, StageView,
};
use crate::card::laws::{law_key_choice_is_followed, law_successful_setup_did_everything};
use crate::crypto::hex_text;
use crate::card::protocol::{FrontendView, SecretKind};
use crate::card::seal::mode_of;
use crate::piv::Guid;
use crate::text::{is_white, law_trim_takes_white_space_around, lowered, lowered_char};
use vstd::prelude::*;

verus! {

/// The card that is set up has the serial number, the identifier or the
/// reader that was given, and was not set up before unless that was allowed.
pub proof fn law_chosen_card_is_as_named(
    metas: Seq<CardMeta>,
    allow: bool,
    serial: u32,
    guid: Guid,
    reader: String,
    i: int,
)
    ensures
        chosen(metas, CardSelector::Serial(serial), allow) == Ok::<int, Seq<char>>(i) ==> 0 <= i
            < metas.len() && metas[i].serial == Some(serial) && (allow || !metas[i].initialized),
        chosen(metas, CardSelector::Guid(guid), allow) == Ok::<int, Seq<char>>(i) ==> 0 <= i
            < metas.len() && metas[i].guid@ == guid@ && (allow || !metas[i].initialized),
        chosen(metas, CardSelector::Reader(reader), allow) == Ok::<int, Seq<char>>(i) ==> 0 <= i
            < metas.len() && metas[i].reader@ == reader@ && (allow || !metas[i].initialized),
        chosen(metas, CardSelector::Auto, allow) == Ok::<int, Seq<char>>(i) ==> 0 <= i
            < metas.len() && (allow || !metas[i].initialized),
{
    law_chosen_card_is_the_only_match(metas, CardSelector::Serial(serial), allow, i);
    law_chosen_card_is_the_only_match(metas, CardSelector::Guid(guid), allow, i);
    law_chosen_card_is_the_only_match(metas, CardSelector::Reader(reader), allow, i);
    law_chosen_card_is_the_only_match(metas, CardSelector::Auto, allow, i);
}

/// The only card that there is gets set up without being named; a card that
/// alone has what was given is set up, as long as it may be.
pub proof fn law_only_card_is_found(metas: Seq<CardMeta>, allow: bool, serial: u32, i: int)
    requires
        0 <= i < metas.len(),
        allow || !metas[i].initialized,
    ensures
        metas.len() == 1 ==> chosen(metas, CardSelector::Auto, allow) == Ok::<int, Seq<char>>(i),
        metas[i].serial == Some(serial) && (forall|j: int|
            0 <= j < metas.len() && j != i ==> (#[trigger] metas[j]).serial != Some(serial))
            ==> chosen(metas, CardSelector::Serial(serial), allow) == Ok::<int, Seq<char>>(i),
{
    law_chosen_card_is_the_only_match(metas, CardSelector::Auto, allow, i);
    law_chosen_card_is_the_only_match(metas, CardSelector::Serial(serial), allow, i);
}

/// A key is sealed under the name that was given, and without one under a
/// name that holds the card's identifier; it must be sealed exactly where
/// that was asked for, and never is where that was asked for.
pub proof fn law_key_is_sealed_where_it_was_told(
    seal: Option<String>,
    no_seal: bool,
    guid: Seq<char>,
)
    ensures
        ({
            let t = target_of(mode_of(seal, no_seal), guid);
            let usual = "piv/"@ + guid + "/management-key"@;
            &&& t is None <==> seal is None && no_seal
            &&& t matches Some((name, required)) ==> {
                &&& required <==> seal is Some
                &&& seal is Some && (seal->0)@.len() > 0 ==> name == (seal->0)@
                &&& seal is None || (seal->0)@.len() == 0 ==> name == usual
            }
        }),
{
}

/// A key that cannot be sealed stops the setup exactly where it must be; a
/// warning stops nothing.
pub proof fn law_only_a_required_seal_stops_the_setup(
    said: Seq<char>,
    warning: Option<Seq<char>>,
    name: Seq<char>,
    required: bool,
)
    ensures
        seal_plan(Err(said), name, required) is Err <==> required,
        !required ==> (seal_plan(Err(said), name, required)->Ok_0) is None,
        seal_plan(Ok(warning), name, required) is Ok,
        seal_plan(Ok(warning), name, required)->Ok_0 == Some(warning),
{
}

/// A setup that worked prints the card's identifier and nothing else, and
/// shows the new key beside it exactly where there is one to show; one that
/// failed prints nothing and says why.
pub proof fn law_only_the_identifier_is_printed(o: ProvisionOutcome, e: String)
    ensures
        reported(Ok(o)).0 == Some(o.guid@),
        reported(Ok(o)).2 == 0,
        reported(Ok(o)).1.len() == (if o.sealed_mgmt_key is Some {
            1int
        } else {
            0
        }) + (if o.generated_mgmt_key is Some {
            1int
        } else {
            0
        }),
        o.generated_mgmt_key matches Some(k) ==> k@.is_suffix_of(reported(Ok(o)).1.last()),
        reported(Err(e)).0 is None,
        reported(Err(e)).1.len() == 1,
        e@.is_suffix_of(reported(Err(e)).1[0]),
        reported(Err(e)).2 == 1,
{
    if let Some(k) = o.generated_mgmt_key {
        let line = notes(o).last();
        let head = "New management key (record this — it is NOT recoverable): "@;
        assert(line == head + k@);
        assert(line.subrange(line.len() - k@.len(), line.len() as int) =~= k@);
    }
    let line = "piggy card init: "@ + e@;
    assert(line.subrange(line.len() - e@.len(), line.len() as int) =~= e@);
}

/// A question names the code that it is for, and says where that is a new
/// one and where it is to be repeated.
pub proof fn law_question_names_the_code(kind: SecretKind)
    ensures
        kind is CurrentPin || kind is NewPin || kind is ConfirmNewPin <==> seq![
            'P',
            'I',
            'N',
        ].is_suffix_of(verb_of(kind)),
        kind is CurrentPuk || kind is NewPuk || kind is ConfirmNewPuk <==> seq![
            'P',
            'U',
            'K',
        ].is_suffix_of(verb_of(kind)),
        kind is ConfirmNewPin || kind is ConfirmNewPuk <==> verb_of(kind)[0] == 'C',
        kind is NewPin || kind is NewPuk <==> verb_of(kind)[0] == 'E' && verb_of(kind)[6] == 'N',
{
    reveal_strlit("Enter PIN");
    reveal_strlit("Enter NEW PIN");
    reveal_strlit("Confirm NEW PIN");
    reveal_strlit("Enter PUK");
    reveal_strlit("Enter NEW PUK");
    reveal_strlit("Confirm NEW PUK");
    reveal_strlit("Enter management key");
    reveal_strlit("Enter value");
    let v = verb_of(kind);
    let n = v.len() as int;
    let tail = v.subrange(n - 3, n);
    assert(n >= 3);
    assert(tail[0] == v[n - 3] && tail[1] == v[n - 2] && tail[2] == v[n - 1]);
    if kind is CurrentPin || kind is NewPin || kind is ConfirmNewPin {
        assert(tail =~= seq!['P', 'I', 'N']);
    } else if kind is CurrentPuk || kind is NewPuk || kind is ConfirmNewPuk {
        assert(tail =~= seq!['P', 'U', 'K']);
    } else {
        assert(tail[0] != 'P');
    }
}

/// Whether a text is a word in lower case, up to the case of its letters.
pub open spec fn is_word(a: Seq<char>, word: Seq<char>) -> bool {
    &&& a.len() == word.len()
    &&& forall|i: int|
        0 <= i < a.len() ==> #[trigger] a[i] == word[i] || a[i] as int + 32 == word[i] as int
}

proof fn lemma_lowered(a: Seq<char>, word: Seq<char>)
    requires
        forall|i: int| 0 <= i < word.len() ==> 'a' <= #[trigger] word[i] <= 'z',
    ensures
        lowered(a) == word <==> is_word(a, word),
{
    let l = lowered(a);
    assert forall|i: int| 0 <= i < a.len() implies #[trigger] l[i] == (if 'A' <= a[i] <= 'Z' {
        (a[i] as int + 32) as char
    } else {
        a[i]
    }) by {
        assert(l[i] == lowered_char(a[i]));
        let c = a[i];
        if 'A' <= c <= 'Z' {
            assert(c as u8 == c as int);
        }
    }
    if l == word {
        assert forall|i: int| 0 <= i < a.len() implies #[trigger] a[i] == word[i] || a[i] as int + 32
            == word[i] as int by {
            assert(l[i] == word[i]);
        }
    }
    if is_word(a, word) {
        assert forall|i: int| 0 <= i < a.len() implies l[i] == word[i] by {
            assert(a[i] == word[i] || a[i] as int + 32 == word[i] as int);
            assert('a' <= word[i] <= 'z');
        }
        assert(l =~= word);
    }
}

/// A question is answered with a yes or a no, in either case and whatever
/// white space surrounds it; an empty answer, or none, stands for what was
/// offered, and anything else is no answer.
pub proof fn law_only_a_yes_is_a_yes(
    before: Seq<char>,
    a: Seq<char>,
    after: Seq<char>,
    offered: Option<bool>,
)
    requires
        forall|i: int| 0 <= i < before.len() ==> is_white(#[trigger] before[i]),
        forall|i: int| 0 <= i < after.len() ==> is_white(#[trigger] after[i]),
        a.len() > 0 ==> !is_white(a[0]) && !is_white(a.last()),
    ensures
        ({
            let r = confirm_meaning(Some(before + a + after), offered);
            let yes = is_word(a, seq!['y']) || is_word(a, seq!['y', 'e', 's']);
            let no = is_word(a, seq!['n']) || is_word(a, seq!['n', 'o']);
            &&& a.len() > 0 ==> (r == Ok::<bool, FrontendView>(true) <==> yes)
            &&& a.len() > 0 ==> (r == Ok::<bool, FrontendView>(false) <==> no)
            &&& a.len() > 0 && !yes && !no ==> r is Err
            &&& a.len() == 0 && offered is Some ==> r == Ok::<bool, FrontendView>(offered->0)
            &&& a.len() == 0 && offered is None ==> r is Err
        }),
        offered is Some ==> confirm_meaning(None, offered) == Ok::<bool, FrontendView>(offered->0),
        offered is None ==> confirm_meaning(None, offered) is Err,
{
    law_trim_takes_white_space_around(before, a, after);
    reveal_strlit("y");
    reveal_strlit("yes");
    reveal_strlit("n");
    reveal_strlit("no");
    assert("y"@ =~= seq!['y'] && "yes"@ =~= seq!['y', 'e', 's'] && "n"@ =~= seq!['n'] && "no"@
        =~= seq!['n', 'o']);
    lemma_lowered(a, "y"@);
    lemma_lowered(a, "yes"@);
    lemma_lowered(a, "n"@);
    lemma_lowered(a, "no"@);
    assert("y"@[0] == 'y' && "yes"@[0] == 'y' && "n"@[0] == 'n' && "no"@[0] == 'n');
}

/// What comes back of a setup is what happened: the identifier is the one
/// that was written to the card; a key that is shown is the one that the card
/// took last; a key that counts as sealed was sealed under the name that is
/// told, and then set.
pub proof fn law_result_tells_what_the_card_got(
    x: Seq<Exchange>,
    cfg: ProvisionConfig,
    serial: Option<u32>,
    name: Seq<char>,
    recipients: nat,
    ask: Option<bool>,
    r: Result<ProvisionOutcome, ProvisionError>,
)
    requires
        ({
            let setup = setup_of(cfg, serial, name, recipients, ask);
            &&& goes_by(x, setup)
            &&& reached(x, setup) is Finished
            &&& is_outcome(r, reached(x, setup)->Finished_0, setup)
        }),
    ensures
        r matches Ok(o) ==> {
            let last = x[x.len() - 2];
            let set = x[x.len() - 3];
            let sealing = x[x.len() - 4];
            &&& o.guid@ == hex_text(cfg.guid@, true)
            &&& x.len() > 5 && x[5].asked == ActionView::Card(CardOpView::WriteChuid(cfg.guid@))
            &&& o.generated_mgmt_key matches Some(k) ==> {
                &&& o.sealed_mgmt_key is None
                &&& last.asked matches ActionView::Card(CardOpView::SetManagementKey(key)) && k@
                    == hex_text(key, true)
                &&& last.answer matches EventView::Card(Ok(_))
            }
            &&& o.sealed_mgmt_key matches Some(s) ==> {
                &&& ask is Some ==> s.pass_name@ == name && s.recipients == recipients
                &&& set.asked matches ActionView::Card(CardOpView::SetManagementKey(key))
                    && sealing.asked == ActionView::Seal(hex_text(key, true))
            }
        },
{
    let setup = setup_of(cfg, serial, name, recipients, ask);
    if let EndingView::Success(shown, sealed) = reached(x, setup)->Finished_0 {
        law_key_choice_is_followed(x, setup, shown, sealed);
        law_successful_setup_did_everything(x, setup);
    }
}

/// Whether a stage has to do with sealing a key.
pub open spec fn of_sealing(s: StageView) -> bool {
    match s {
        StageView::OfferSeal(_) | StageView::SealStep(_) | StageView::Seal(_) => true,
        StageView::Commit | StageView::Rollback(_) => true,
        StageView::SetKey(_, fate) => fate is Sealed,
        StageView::Complete(EndingView::Success(_, sealed)) => sealed,
        StageView::Finished(EndingView::Success(_, sealed)) => sealed,
        _ => false,
    }
}

/// Where there is no place to seal a key into, none is sealed, offered to be
/// sealed, or told to be.
pub proof fn law_nothing_is_sealed_without_a_place(evs: Seq<EventView>)
    requires
        playable(evs, None),
    ensures
        !of_sealing(played(evs, None)),
    decreases evs.len(),
{
    if evs.len() > 0 {
        law_nothing_is_sealed_without_a_place(evs.drop_last());
    }
}

} // verus!
