//! What holds of setting up a card, whatever the card, the operator and the
//! store answer.
use crate::card::engine::{
    answers, cn_of, completed_of, failed, fits, goes_by, lemma_answers_fit, next, part, playable, played,
    rank, reached, supplied_key, ActionView, CardOpView, Code, EndingView, ErrorView, EventView,
    Exchange, KeyFate, SetupView, Side, StageView, DEFAULT_PIN, DEFAULT_PUK,
};
use crate::card::protocol::{first_chars, ChoiceView, FrontendView};
use crate::crypto::{hex_bytes, hex_text, law_hex_round_trip};
use crate::piv::PivAlgorithm;
use crate::text::{hex_value, is_white, law_trim_takes_white_space_around, trimmed};
use vstd::prelude::*;

verus! {

/// Whether the action of a stage is one on the card.
pub open spec fn touches_card(s: StageView) -> bool {
    match s {
        StageView::AdminAuth => true,
        StageView::VerifyPin => true,
        StageView::WriteChuid => true,
        StageView::Generate(_) => true,
        StageView::Certify(_, _) => true,
        StageView::PutCert(_, _) => true,
        StageView::ChangeSecret(_, _) => true,
        StageView::SetKey(_, _) => true,
        _ => false,
    }
}

/// What holds at each stage that can be reached: the steps are the six that
/// are counted, a made-up key has its length, and no key is both shown and
/// sealed.
pub open spec fn sound(s: StageView) -> bool {
    match s {
        StageView::Step(n) => 1 <= n <= 6,
        StageView::OfferSeal(k) => k.len() == 24,
        StageView::SealStep(k) => k.len() == 24,
        StageView::Seal(k) => k.len() == 24,
        StageView::SetKey(k, _) => k.len() == 24,
        StageView::Complete(EndingView::Success(key, sealed)) => !(key is Some && sealed),
        StageView::Finished(EndingView::Success(key, sealed)) => !(key is Some && sealed),
        _ => true,
    }
}

/// Every answer brings the operation further, so it ends after at most
/// thirty of them.
pub proof fn law_setup_advances(evs: Seq<EventView>, e: EventView, escrow: Option<bool>)
    requires
        playable(evs, escrow),
        fits(played(evs, escrow), e),
    ensures
        rank(next(played(evs, escrow), e, escrow)) > rank(played(evs, escrow)),
        rank(played(evs, escrow)) < 30,
{
    law_stages_are_sound(evs, escrow);
    lemma_next_is_further(played(evs, escrow), e, escrow);
}

proof fn lemma_next_is_further(s: StageView, e: EventView, escrow: Option<bool>)
    requires
        sound(s),
        fits(s, e),
    ensures
        rank(next(s, e, escrow)) > rank(s),
        rank(s) < 30,
{
    match s {
        StageView::Step(_) => {},
        StageView::Generate(_) => {},
        StageView::Certify(_, _) => {},
        StageView::PutCert(_, _) => {},
        StageView::NewSecret(_) => {},
        StageView::ConfirmSecret(_, _) => {},
        StageView::ChangeSecret(_, _) => {},
        StageView::ChooseKey => {},
        StageView::SetKey(_, _) => {},
        _ => {},
    }
}

/// At every stage that can be reached, a key that is to be set or sealed has
/// twenty-four bytes, and an operation that succeeded did not both show its
/// key and seal it.
pub proof fn law_stages_are_sound(evs: Seq<EventView>, escrow: Option<bool>)
    requires
        playable(evs, escrow),
    ensures
        sound(played(evs, escrow)),
    decreases evs.len(),
{
    if evs.len() > 0 {
        law_stages_are_sound(evs.drop_last(), escrow);
    }
}

/// The card is not touched, and no secret is asked for, before the operator
/// has said yes: whatever stage is reached but an end, the first answer was
/// that.
pub proof fn law_nothing_before_yes(evs: Seq<EventView>, escrow: Option<bool>)
    requires
        playable(evs, escrow),
        !(played(evs, escrow) is Confirm),
        !(played(evs, escrow) is Complete),
        !(played(evs, escrow) is Finished),
    ensures
        evs[0] == EventView::Answer(Ok(true)),
    decreases evs.len(),
{
    if evs.len() > 1 {
        let before = evs.drop_last();
        law_stages_are_sound(before, escrow);
        if played(before, escrow) is Confirm {
            lemma_confirm_is_first(before, escrow);
        } else {
            law_nothing_before_yes(before, escrow);
        }
        assert(evs[0] == before[0]);
    } else {
        assert(evs.drop_last() =~= seq![]);
    }
}

/// Once the question was answered, it is not asked again.
proof fn lemma_confirm_is_first(evs: Seq<EventView>, escrow: Option<bool>)
    requires
        playable(evs, escrow),
        evs.len() > 0,
    ensures
        !(played(evs, escrow) is Confirm),
{
    law_setup_advances(evs.drop_last(), evs.last(), escrow);
}

/// A declined operation touches nothing: the only things left are to tell
/// that it ended, and the end.
pub proof fn law_declined_operation_ends(escrow: Option<bool>)
    ensures
        next(StageView::Confirm, EventView::Answer(Ok(false)), escrow) == failed(
            ErrorView::Aborted("declined at confirmation"@),
        ),
{
}

/// A secret is changed only to what was typed twice.
pub proof fn law_secret_is_typed_twice(
    evs: Seq<EventView>,
    escrow: Option<bool>,
    c: Code,
    secret: Seq<char>,
)
    requires
        playable(evs, escrow),
        played(evs, escrow) == StageView::ChangeSecret(c, secret),
    ensures
        evs.len() >= 2,
        evs[evs.len() - 1] == EventView::Secret(Ok(secret)),
        evs[evs.len() - 2] == EventView::Secret(Ok(secret)),
{
    let one = evs.drop_last();
    assert(one.len() > 0);
    let two = one.drop_last();
    assert(played(one, escrow) == StageView::ConfirmSecret(c, secret));
    reveal_with_fuel(playable, 3);
    assert(fits(played(two, escrow), one.last()));
    assert(played(two, escrow) == StageView::NewSecret(c));
    assert(one.last() == evs[evs.len() - 2]);
}

/// A key that counts as sealed was sealed just before the card is given it,
/// and it is that very key.
pub proof fn law_key_is_sealed_before_it_is_set(
    evs: Seq<EventView>,
    escrow: Option<bool>,
    key: Seq<u8>,
)
    requires
        playable(evs, escrow),
        played(evs, escrow) == StageView::SetKey(key, KeyFate::Sealed),
    ensures
        evs.len() > 0,
        played(evs.drop_last(), escrow) == StageView::Seal(key),
        evs.last() matches EventView::Sealed(Ok(_)),
{
}

/// The seal is taken back exactly when the card refuses the key that was
/// sealed, and the card's error is the one that is reported.
pub proof fn law_refused_key_is_unsealed(
    evs: Seq<EventView>,
    e: EventView,
    escrow: Option<bool>,
    error: Seq<char>,
)
    requires
        playable(evs, escrow),
        fits(played(evs, escrow), e),
    ensures
        next(played(evs, escrow), e, escrow) == StageView::Rollback(error) <==> (played(
            evs,
            escrow,
        ) matches StageView::SetKey(_, KeyFate::Sealed) && e == EventView::Card(Err(error))),
        next(StageView::Rollback(error), EventView::Done, escrow) == failed(ErrorView::Card(error)),
{
    law_stages_are_sound(evs, escrow);
}

/// A key that cannot be sealed is not set: what follows is the end, with
/// that error.
pub proof fn law_failed_seal_leaves_the_key(key: Seq<u8>, error: Seq<char>, escrow: Option<bool>)
    ensures
        next(StageView::Seal(key), EventView::Sealed(Err(error)), escrow) == failed(
            ErrorView::Seal(error),
        ),
{
}

/// A key that is shown at the end is the one that the card took last, and
/// one that was not sealed.
pub proof fn law_shown_key_is_the_cards(
    evs: Seq<EventView>,
    escrow: Option<bool>,
    shown: Seq<char>,
    sealed: bool,
)
    requires
        playable(evs, escrow),
        played(evs, escrow) == StageView::Complete(EndingView::Success(Some(shown), sealed)),
    ensures
        !sealed,
        evs.last() matches EventView::Card(Ok(_)),
        played(evs.drop_last(), escrow) matches StageView::SetKey(key, KeyFate::Shown) && shown
            == hex_text(key, true),
{
}

/// An operation that ends with a sealed key has sealed it, the card has
/// taken it, and the seal was made to last.
pub proof fn law_sealed_key_is_the_cards(
    evs: Seq<EventView>,
    escrow: Option<bool>,
    shown: Option<Seq<char>>,
)
    requires
        playable(evs, escrow),
        played(evs, escrow) == StageView::Complete(EndingView::Success(shown, true)),
    ensures
        shown is None,
        evs.len() >= 3,
        played(evs.take(evs.len() - 1), escrow) is Commit,
        played(evs.take(evs.len() - 2), escrow) matches StageView::SetKey(key, KeyFate::Sealed)
            && played(evs.take(evs.len() - 3), escrow) == StageView::Seal(key),
{
    let one = evs.drop_last();
    assert(one =~= evs.take(evs.len() - 1));
    assert(played(one, escrow) is Commit);
    assert(one.len() > 0);
    let two = one.drop_last();
    assert(two =~= evs.take(evs.len() - 2));
    assert(played(two, escrow) is SetKey);
    assert(two.len() > 0);
    reveal_with_fuel(playable, 3);
    law_key_is_sealed_before_it_is_set(two, escrow, played(two, escrow)->SetKey_0);
    assert(two.drop_last() =~= evs.take(evs.len() - 3));
}

/// Where the operator was asked whether to seal and did not say yes, or the
/// answer never came, the key is still set, and shown.
pub proof fn law_unanswered_offer_still_sets_the_key(
    key: Seq<u8>,
    e: EventView,
    escrow: Option<bool>,
)
    requires
        fits(StageView::OfferSeal(key), e),
        e != EventView::Answer(Ok(true)),
    ensures
        next(StageView::OfferSeal(key), e, escrow) == StageView::SetKey(key, KeyFate::Shown),
{
}

/// Whether the operator asked for a made-up key.
pub open spec fn chose_random(evs: Seq<EventView>) -> bool {
    exists|i: int|
        0 <= i < evs.len() && #[trigger] evs[i] == EventView::Choice(Ok(ChoiceView::Random))
}

/// Whether a stage has to do with a key that was made up.
pub open spec fn of_random_key(s: StageView) -> bool {
    match s {
        StageView::RandomKey => true,
        StageView::OfferSeal(_) => true,
        StageView::SealStep(_) => true,
        StageView::Seal(_) => true,
        StageView::SetKey(_, fate) => !(fate is Supplied),
        StageView::Rollback(_) => true,
        StageView::Commit => true,
        _ => false,
    }
}

/// Only a key that was made up is sealed: the operator's own key and the
/// factory's never are.
pub proof fn law_only_random_keys_are_sealed(evs: Seq<EventView>, escrow: Option<bool>)
    requires
        playable(evs, escrow),
        of_random_key(played(evs, escrow)),
    ensures
        chose_random(evs),
    decreases evs.len(),
{
    assert(evs.len() > 0);
    let before = evs.drop_last();
    law_stages_are_sound(before, escrow);
    if of_random_key(played(before, escrow)) {
        law_only_random_keys_are_sealed(before, escrow);
        let i = choose|i: int|
            0 <= i < before.len() && #[trigger] before[i] == EventView::Choice(
                Ok(ChoiceView::Random),
            );
        assert(evs[i] == before[i]);
    } else {
        assert(evs[evs.len() - 1] == EventView::Choice(Ok(ChoiceView::Random)));
    }
}

/// The factory key that stays is not touched: after that choice the card is
/// not touched again.
pub proof fn law_default_choice_sets_nothing(escrow: Option<bool>)
    ensures
        !touches_card(next(StageView::ChooseKey, EventView::Choice(Ok(ChoiceView::Default)), escrow)),
        next(StageView::NoteUnsealed, EventView::Done, escrow) == StageView::Complete(
            EndingView::Success(None, false),
        ),
{
}

/// The operator's own key is set exactly if it is the hexadecimal form of
/// twenty-four bytes; otherwise the card keeps the key that it has.
pub proof fn law_supplied_key_is_set_as_given(typed: Seq<char>, escrow: Option<bool>)
    ensures
        match supplied_key(typed) {
            Ok(key) => key.len() == 24 && next(
                StageView::ChooseKey,
                EventView::Choice(Ok(ChoiceView::Hex(typed))),
                escrow,
            ) == StageView::SetKey(key, KeyFate::Supplied),
            Err(e) => next(
                StageView::ChooseKey,
                EventView::Choice(Ok(ChoiceView::Hex(typed))),
                escrow,
            ) == failed(ErrorView::BadMgmtKey(e)),
        },
{
}

/// However an operation ends, that is told before it is over.
pub proof fn law_every_end_is_told(evs: Seq<EventView>, escrow: Option<bool>, end: EndingView)
    requires
        playable(evs, escrow),
        played(evs, escrow) == StageView::Finished(end),
    ensures
        evs.len() > 0,
        played(evs.drop_last(), escrow) == StageView::Complete(end),
{
}

/// A stage without the keys, PINs and PUKs that it holds.
pub open spec fn quiet(s: StageView) -> StageView {
    match s {
        StageView::ConfirmSecret(c, _) => StageView::ConfirmSecret(c, seq![]),
        StageView::ChangeSecret(c, _) => StageView::ChangeSecret(c, seq![]),
        StageView::OfferSeal(_) => StageView::OfferSeal(seq![]),
        StageView::SealStep(_) => StageView::SealStep(seq![]),
        StageView::Seal(_) => StageView::Seal(seq![]),
        StageView::SetKey(_, fate) => StageView::SetKey(seq![], fate),
        StageView::Complete(EndingView::Success(_, sealed)) => StageView::Complete(
            EndingView::Success(None, sealed),
        ),
        StageView::Finished(EndingView::Success(_, sealed)) => StageView::Finished(
            EndingView::Success(None, sealed),
        ),
        _ => s,
    }
}

/// What the operator is told never holds a management key, a PIN or a PUK:
/// each notice, that of the end among them, is the same whatever they are.
pub proof fn law_notices_hold_no_secret(setup: SetupView, a: StageView, b: StageView)
    requires
        quiet(a) == quiet(b),
        setup.action(a) is Progress || setup.action(a) is Completed,
    ensures
        setup.action(a) == setup.action(b),
{
}

/// The error that a failed operation ends with does not hold them either: it
/// is the same whatever they are, and where two entries of a code differ, it
/// says only that.
pub proof fn law_errors_hold_no_secret(
    a: StageView,
    b: StageView,
    e: EventView,
    escrow: Option<bool>,
    error: ErrorView,
)
    requires
        quiet(a) == quiet(b),
        fits(a, e),
        !(a is Complete),
        next(a, e, escrow) == failed(error),
    ensures
        e matches EventView::Secret(Ok(_)) ==> error is PinMismatch || error is PukMismatch,
        !(e matches EventView::Secret(Ok(_))) ==> next(b, e, escrow) == failed(error),
{
    match a {
        StageView::Step(_) => {},
        StageView::ConfirmSecret(_, _) => {},
        StageView::ChangeSecret(_, _) => {},
        StageView::ChooseKey => {},
        StageView::SetKey(_, _) => {},
        _ => {},
    }
}

// ---------------------------------------------------------------- whole runs

/// What holds of a run holds of its beginnings, and each exchange is the one
/// that its stage asks for.
proof fn lemma_beginning(x: Seq<Exchange>, setup: SetupView, n: int)
    requires
        goes_by(x, setup),
        0 <= n <= x.len(),
    ensures
        goes_by(x.take(n), setup),
        answers(x.take(n)) == answers(x).take(n),
        n < x.len() ==> {
            let before = reached(x.take(n), setup);
            &&& x[n].asked == setup.action(before)
            &&& fits(before, x[n].answer)
            &&& reached(x.take(n + 1), setup) == next(before, x[n].answer, setup.mode())
        },
    decreases x.len(),
{
    assert(answers(x.take(n)) =~= answers(x).take(n));
    if n == x.len() {
        assert(x.take(n) =~= x);
    } else {
        lemma_beginning(x.drop_last(), setup, n);
        assert(x.drop_last().take(n) =~= x.take(n));
        if n == x.len() - 1 {
            assert(x.take(n) =~= x.drop_last());
            assert(x.take(n + 1) =~= x);
            assert(answers(x).drop_last() =~= answers(x.drop_last()));
        } else {
            assert(x.drop_last().take(n + 1) =~= x.take(n + 1));
        }
    }
}

/// Only the end has nothing behind it.
proof fn lemma_nothing_after_the_end(x: Seq<Exchange>, setup: SetupView, n: int)
    requires
        goes_by(x, setup),
        0 <= n <= x.len(),
        reached(x.take(n), setup) is Finished,
    ensures
        n == x.len(),
{
    lemma_beginning(x, setup, n);
}

/// The end is told exactly once, as the last thing that is said to anybody,
/// and what is told is how it ended.
pub proof fn law_end_is_told_once_and_last(x: Seq<Exchange>, setup: SetupView, end: EndingView)
    requires
        goes_by(x, setup),
        reached(x, setup) == StageView::Finished(end),
    ensures
        x.len() > 0,
        x.last().asked == ActionView::Completed(
            completed_of(end, setup.guid_hex, setup.pass_name()),
        ),
        part(x, Side::Operator).len() > 0,
        part(x, Side::Operator).last() == x.last(),
        forall|i: int| 0 <= i < x.len() - 1 ==> !((#[trigger] x[i]).asked is Completed),
{
    assert(x.take(x.len() as int) =~= x);
    assert(x.len() > 0);
    let n = x.len() - 1;
    lemma_beginning(x, setup, n);
    assert(reached(x.take(n), setup) == StageView::Complete(end)) by {
        lemma_answers_fit(x, setup);
        law_every_end_is_told(answers(x), setup.mode(), end);
        assert(answers(x).drop_last() =~= answers(x).take(n));
    }
    assert forall|i: int| 0 <= i < x.len() - 1 implies !((#[trigger] x[i]).asked is Completed) by {
        lemma_beginning(x, setup, i);
        lemma_beginning(x, setup, i + 1);
        if x[i].asked is Completed {
            assert(reached(x.take(i), setup) is Complete);
            lemma_nothing_after_the_end(x, setup, i + 1);
        }
    }
}

/// A no to the first question leaves everything alone: nothing is asked of
/// the card or of the store, no secret is asked for, and the only thing that
/// the operator is told is that it ended with an error.
pub proof fn law_no_leaves_everything_alone(x: Seq<Exchange>, setup: SetupView)
    requires
        goes_by(x, setup),
        reached(x, setup) is Finished,
        x[0].answer == EventView::Answer(Ok(false)),
    ensures
        x.len() == 2,
        x[0].asked is Confirm,
        x[1].asked matches ActionView::Completed(c) && c.status is Error,
        part(x, Side::Card) == Seq::<Exchange>::empty(),
        part(x, Side::Store) == Seq::<Exchange>::empty(),
        part(x, Side::Operator) == x,
        reached(x, setup) == StageView::Finished(
            EndingView::Failure(ErrorView::Aborted("declined at confirmation"@)),
        ),
{
    assert(x.take(x.len() as int) =~= x);
    assert(answers(x.take(0)) =~= seq![]);
    assert(x.len() > 0) by {
        if x.len() == 0 {
            assert(answers(x) =~= seq![]);
        }
    }
    lemma_beginning(x, setup, 0);
    lemma_beginning(x, setup, 1);
    assert(x.len() > 1);
    lemma_beginning(x, setup, 2);
    lemma_nothing_after_the_end(x, setup, 2);
    assert(x.drop_last() =~= x.take(1));
    assert(x.take(1).drop_last() =~= seq![]);
    reveal_with_fuel(part, 3);
    assert(part(x, Side::Operator) =~= x);
}

/// A run that ends with a sealed key sealed the very key that the card took,
/// before the card took it, and made the seal last after that.
pub proof fn law_sealed_key_is_the_one_that_was_set(
    x: Seq<Exchange>,
    setup: SetupView,
    shown: Option<Seq<char>>,
)
    requires
        goes_by(x, setup),
        reached(x, setup) == StageView::Finished(EndingView::Success(shown, true)),
    ensures
        x.len() >= 4,
        x[x.len() - 4].answer matches EventView::Sealed(Ok(_)),
        x[x.len() - 3].asked matches ActionView::Card(CardOpView::SetManagementKey(key))
            && x[x.len() - 4].asked == ActionView::Seal(hex_text(key, true)),
        x[x.len() - 3].answer matches EventView::Card(Ok(_)),
        x[x.len() - 2].asked is Commit,
{
    let end = EndingView::Success(shown, true);
    let evs = answers(x);
    let mode = setup.mode();
    let n = x.len() as int;
    lemma_answers_fit(x, setup);
    law_every_end_is_told(evs, mode, end);
    law_sealed_key_is_the_cards(evs.drop_last(), mode, shown);
    lemma_beginning(x, setup, n - 4);
    lemma_beginning(x, setup, n - 3);
    lemma_beginning(x, setup, n - 2);
    assert(evs.drop_last().take(n - 2) =~= evs.take(n - 2));
    assert(evs.drop_last().take(n - 3) =~= evs.take(n - 3));
    assert(evs.drop_last().take(n - 4) =~= evs.take(n - 4));
}

/// The PIN goes from the factory's to one that the operator typed twice, and
/// so does the PUK.
pub proof fn law_codes_go_from_old_to_new(x: Seq<Exchange>, setup: SetupView, i: int)
    requires
        goes_by(x, setup),
        0 <= i < x.len(),
    ensures
        x[i].asked matches ActionView::Card(CardOpView::ChangePin(old_pin, new_pin)) ==> old_pin
            == DEFAULT_PIN@ && i >= 2 && x[i - 1].answer == EventView::Secret(Ok(new_pin))
            && x[i - 2].answer == EventView::Secret(Ok(new_pin)),
        x[i].asked matches ActionView::Card(CardOpView::ChangePuk(old_puk, new_puk)) ==> old_puk
            == DEFAULT_PUK@ && i >= 2 && x[i - 1].answer == EventView::Secret(Ok(new_puk))
            && x[i - 2].answer == EventView::Secret(Ok(new_puk)),
{
    lemma_beginning(x, setup, i);
    let evs = answers(x.take(i));
    lemma_answers_fit(x.take(i), setup);
    if let StageView::ChangeSecret(c, secret) = played(evs, setup.mode()) {
        law_secret_is_typed_twice(evs, setup.mode(), c, secret);
    }
}

// ---------------------------------------------------------------- the keys

/// The key that the operator types is the key that the card is given, digit
/// by digit: byte `i` is the two digits at `2 * i` and behind it, in either
/// case, and white space around the digits does not count.
pub proof fn law_typed_key_is_the_one_set(
    before: Seq<char>,
    digits: Seq<char>,
    after: Seq<char>,
    key: Seq<u8>,
    setup: SetupView,
    fate: KeyFate,
)
    requires
        forall|i: int| 0 <= i < before.len() ==> is_white(#[trigger] before[i]),
        forall|i: int| 0 <= i < after.len() ==> is_white(#[trigger] after[i]),
        digits.len() == 48,
        key.len() == 24,
        forall|i: int|
            0 <= i < 24 ==> hex_value(digits[2 * i]) is Some && hex_value(digits[2 * i + 1])
                is Some && #[trigger] key[i] == hex_value(digits[2 * i])->0 * 16 + hex_value(
                digits[2 * i + 1],
            )->0,
    ensures
        supplied_key(before + digits + after) == Ok::<Seq<u8>, Seq<char>>(key),
        next(
            StageView::ChooseKey,
            EventView::Choice(Ok(ChoiceView::Hex(before + digits + after))),
            setup.mode(),
        ) == StageView::SetKey(key, KeyFate::Supplied),
        setup.action(StageView::SetKey(key, fate)) == ActionView::Card(
            CardOpView::SetManagementKey(key),
        ),
{
    assert forall|i: int| 0 <= i < digits.len() implies hex_value(#[trigger] digits[i]) is Some by {
        let j = i / 2;
        assert(0 <= j < 24);
        let b = key[j];
        assert(i == 2 * j || i == 2 * j + 1);
    }
    assert(!is_white(digits[0]) && !is_white(digits[47]));
    law_trim_takes_white_space_around(before, digits, after);
    assert(hex_bytes(digits) =~= key);
}

/// A key in hexadecimal is the key that the card is given.
pub proof fn law_key_in_hexadecimal_is_set(key: Seq<u8>, upper: bool)
    requires
        key.len() == 24,
    ensures
        supplied_key(hex_text(key, upper)) == Ok::<Seq<u8>, Seq<char>>(key),
{
    let t = hex_text(key, upper);
    law_hex_round_trip(key, upper);
    assert(hex_value(t[0]) is Some && hex_value(t[47]) is Some);
    law_trim_takes_white_space_around(seq![], t, seq![]);
    assert(Seq::<char>::empty() + t + Seq::<char>::empty() =~= t);
}

/// Whatever is typed that is not forty-eight hexadecimal digits sets nothing.
pub proof fn law_other_typed_keys_set_nothing(typed: Seq<char>, escrow: Option<bool>)
    requires
        !(trimmed(typed).len() == 48 && forall|i: int|
            0 <= i < 48 ==> hex_value(#[trigger] trimmed(typed)[i]) is Some),
    ensures
        next(StageView::ChooseKey, EventView::Choice(Ok(ChoiceView::Hex(typed))), escrow)
            is Complete,
{
}

/// The end that a failure leads to is that failure.
proof fn lemma_failure_stays(x: Seq<Exchange>, setup: SetupView, n: int, e: ErrorView)
    requires
        goes_by(x, setup),
        0 <= n <= x.len(),
        reached(x.take(n), setup) == failed(e),
        reached(x, setup) is Finished,
    ensures
        reached(x, setup) == StageView::Finished(EndingView::Failure(e)),
{
    assert(x.take(x.len() as int) =~= x);
    assert(n < x.len());
    lemma_beginning(x, setup, n);
    lemma_beginning(x, setup, n + 1);
    lemma_nothing_after_the_end(x, setup, n + 1);
}

/// One step of a run that succeeds.
proof fn lemma_step(x: Seq<Exchange>, setup: SetupView, n: int)
    requires
        goes_by(x, setup),
        reached(x, setup) matches StageView::Finished(EndingView::Success(_, _)),
        0 <= n <= x.len(),
        !(reached(x.take(n), setup) is Finished),
    ensures
        n < x.len(),
        x[n].asked == setup.action(reached(x.take(n), setup)),
        fits(reached(x.take(n), setup), x[n].answer),
        reached(x.take(n + 1), setup) == next(
            reached(x.take(n), setup),
            x[n].answer,
            setup.mode(),
        ),
        !(reached(x.take(n + 1), setup) matches StageView::Complete(EndingView::Failure(_))),
{
    assert(x.take(x.len() as int) =~= x);
    lemma_beginning(x, setup, n);
    if let StageView::Complete(EndingView::Failure(e)) = reached(x.take(n + 1), setup) {
        lemma_failure_stays(x, setup, n + 1, e);
    }
}

#[verifier::spinoff_prover]
#[verifier::rlimit(40)]
proof fn lemma_first_half(x: Seq<Exchange>, setup: SetupView)
    requires
        goes_by(x, setup),
        reached(x, setup) matches StageView::Finished(EndingView::Success(_, _)),
    ensures
        x.len() > 9,
        x[0].asked is Confirm,
        x[0].answer == EventView::Answer(Ok(true)),
        x[2].asked == ActionView::Card(CardOpView::AuthenticateAdmin),
        x[3].asked == ActionView::Card(CardOpView::VerifyPin("123456"@)),
        x[5].asked == ActionView::Card(CardOpView::WriteChuid(setup.guid)),
        x[7].asked == ActionView::Card(CardOpView::GenerateKey(0x9D, PivAlgorithm::EcP256)),
        x[7].answer matches EventView::Bytes(Ok(point)) && x[8].asked == ActionView::Card(
            CardOpView::Certify(0x9D, cn_of("piv-key-mgmt"@, setup.guid_hex), point),
        ),
        x[8].answer matches EventView::Bytes(Ok(cert)) && x[9].asked == ActionView::Card(
            CardOpView::PutCert(0x9D, cert),
        ),
        forall|i: int| 2 <= i < 10 ==> no_card_error((#[trigger] x[i]).answer),
        reached(x.take(10), setup) == StageView::Step(4),
{
    assert(answers(x.take(0)) =~= seq![]);
    lemma_step(x, setup, 0);
    lemma_step(x, setup, 1);
    lemma_step(x, setup, 2);
    lemma_step(x, setup, 3);
    lemma_step(x, setup, 4);
    lemma_step(x, setup, 5);
    lemma_step(x, setup, 6);
    lemma_step(x, setup, 7);
    lemma_step(x, setup, 8);
    lemma_step(x, setup, 9);
}

/// Whether an answer is no error of the card.
pub open spec fn no_card_error(e: EventView) -> bool {
    match e {
        EventView::Card(r) => r is Ok,
        EventView::Bytes(r) => r is Ok,
        _ => true,
    }
}

#[verifier::spinoff_prover]
#[verifier::rlimit(40)]
proof fn lemma_second_half(x: Seq<Exchange>, setup: SetupView)
    requires
        goes_by(x, setup),
        reached(x, setup) matches StageView::Finished(EndingView::Success(_, _)),
        x.len() > 9,
        reached(x.take(10), setup) == StageView::Step(4),
    ensures
        x.len() > 22,
        x[11].asked == ActionView::Card(CardOpView::GenerateKey(0x9A, PivAlgorithm::EcP256)),
        x[11].answer matches EventView::Bytes(Ok(point)) && x[12].asked == ActionView::Card(
            CardOpView::Certify(0x9A, cn_of("piv-auth"@, setup.guid_hex), point),
        ),
        x[12].answer matches EventView::Bytes(Ok(cert)) && x[13].asked == ActionView::Card(
            CardOpView::PutCert(0x9A, cert),
        ),
        x[16].answer matches EventView::Secret(Ok(pin)) && x[15].answer == EventView::Secret(
            Ok(pin),
        ) && x[17].asked == ActionView::Card(CardOpView::ChangePin("123456"@, pin)),
        x[19].answer matches EventView::Secret(Ok(puk)) && x[18].answer == EventView::Secret(
            Ok(puk),
        ) && x[20].asked == ActionView::Card(CardOpView::ChangePuk("12345678"@, puk)),
        x[22].asked is RequestMgmtKey,
        forall|i: int| 10 <= i < 22 ==> no_card_error((#[trigger] x[i]).answer),
        reached(x.take(22), setup) is ChooseKey,
{
    lemma_step(x, setup, 10);
    lemma_step(x, setup, 11);
    lemma_step(x, setup, 12);
    lemma_step(x, setup, 13);
    lemma_step(x, setup, 14);
    lemma_step(x, setup, 15);
    lemma_step(x, setup, 16);
    lemma_step(x, setup, 17);
    lemma_step(x, setup, 18);
    lemma_step(x, setup, 19);
    lemma_step(x, setup, 20);
    lemma_step(x, setup, 21);
    lemma_step(x, setup, 22);
}

/// A setup that succeeds has done all of it, in this order, and the card made
/// no error: the operator said yes; the factory key and PIN were presented;
/// the identifier was written; slots 9D and 9A each got a P-256 key, and the
/// certificate that was made for that very key under the card's name; the PIN
/// and the PUK went from the factory's to what was typed twice; and only then
/// is the management key decided on.
pub proof fn law_successful_setup_did_everything(x: Seq<Exchange>, setup: SetupView)
    requires
        goes_by(x, setup),
        reached(x, setup) matches StageView::Finished(EndingView::Success(_, _)),
    ensures
        x.len() > 22,
        x[0].asked is Confirm,
        x[0].answer == EventView::Answer(Ok(true)),
        x[2].asked == ActionView::Card(CardOpView::AuthenticateAdmin),
        x[3].asked == ActionView::Card(CardOpView::VerifyPin("123456"@)),
        x[5].asked == ActionView::Card(CardOpView::WriteChuid(setup.guid)),
        x[7].asked == ActionView::Card(CardOpView::GenerateKey(0x9D, PivAlgorithm::EcP256)),
        x[7].answer matches EventView::Bytes(Ok(point)) && x[8].asked == ActionView::Card(
            CardOpView::Certify(
                0x9D,
                "piv-key-mgmt"@ + "@"@ + first_chars(setup.guid_hex, 8),
                point,
            ),
        ),
        x[8].answer matches EventView::Bytes(Ok(cert)) && x[9].asked == ActionView::Card(
            CardOpView::PutCert(0x9D, cert),
        ),
        x[11].asked == ActionView::Card(CardOpView::GenerateKey(0x9A, PivAlgorithm::EcP256)),
        x[11].answer matches EventView::Bytes(Ok(point)) && x[12].asked == ActionView::Card(
            CardOpView::Certify(0x9A, "piv-auth"@ + "@"@ + first_chars(setup.guid_hex, 8), point),
        ),
        x[12].answer matches EventView::Bytes(Ok(cert)) && x[13].asked == ActionView::Card(
            CardOpView::PutCert(0x9A, cert),
        ),
        x[16].answer matches EventView::Secret(Ok(pin)) && x[15].answer == EventView::Secret(
            Ok(pin),
        ) && x[17].asked == ActionView::Card(CardOpView::ChangePin("123456"@, pin)),
        x[19].answer matches EventView::Secret(Ok(puk)) && x[18].answer == EventView::Secret(
            Ok(puk),
        ) && x[20].asked == ActionView::Card(CardOpView::ChangePuk("12345678"@, puk)),
        x[22].asked is RequestMgmtKey,
        forall|i: int| 2 <= i < 22 ==> no_card_error((#[trigger] x[i]).answer),
{
    lemma_first_half(x, setup);
    lemma_second_half(x, setup);
}

/// Whatever the operator chooses for the management key is what happens to
/// it: the factory key is left alone, a typed key is set as it is, and a
/// drawn key is set as it was drawn, shown if it was not sealed and sealed
/// before it is set otherwise.
pub proof fn law_key_choice_is_followed(
    x: Seq<Exchange>,
    setup: SetupView,
    shown: Option<Seq<char>>,
    sealed: bool,
)
    requires
        goes_by(x, setup),
        reached(x, setup) == StageView::Finished(EndingView::Success(shown, sealed)),
    ensures
        x.len() > 23,
        x[22].answer matches EventView::Choice(Ok(choice)) && match choice {
            ChoiceView::Default => shown is None && !sealed && !(x[23].asked is Card),
            ChoiceView::Hex(typed) => shown is None && !sealed && ({
                &&& supplied_key(typed) is Ok
                &&& x[23].asked == ActionView::Card(
                    CardOpView::SetManagementKey(supplied_key(typed)->Ok_0),
                )
                &&& x[23].answer matches EventView::Card(Ok(_))
            }),
            ChoiceView::Random => x[23].answer matches EventView::Random(Ok(key)) && (sealed
                || shown == Some(hex_text(key, true))) && !(sealed && shown is Some) && if sealed {
                &&& x.len() >= 27
                &&& x[x.len() - 4].asked == ActionView::Seal(hex_text(key, true))
                &&& x[x.len() - 3].asked == ActionView::Card(CardOpView::SetManagementKey(key))
            } else {
                &&& x.len() >= 26
                &&& x[x.len() - 2].asked == ActionView::Card(CardOpView::SetManagementKey(key))
                &&& x[x.len() - 2].answer matches EventView::Card(Ok(_))
            },
        },
{
    assert(x.take(x.len() as int) =~= x);
    lemma_first_half(x, setup);
    lemma_second_half(x, setup);
    lemma_step(x, setup, 22);
    lemma_step(x, setup, 23);
    if x[22].answer is Choice && x[22].answer->Choice_0 == Ok::<ChoiceView, FrontendView>(
        ChoiceView::Random,
    ) {
        lemma_drawn_key(x, setup);
    } else {
        lemma_after_choice(x, setup, 24);
    }
}

/// Behind a key that is not drawn nothing is shown and nothing is sealed.
proof fn lemma_after_choice(x: Seq<Exchange>, setup: SetupView, n: int)
    requires
        goes_by(x, setup),
        reached(x, setup) matches StageView::Finished(EndingView::Success(_, _)),
        0 <= n <= x.len(),
        match reached(x.take(n), setup) {
            StageView::SetKey(_, fate) => fate is Supplied,
            StageView::NoteUnsealed => true,
            StageView::Complete(EndingView::Success(k, s)) => k is None && !s,
            StageView::Finished(EndingView::Success(k, s)) => k is None && !s,
            _ => false,
        },
    ensures
        reached(x, setup) == StageView::Finished(EndingView::Success(None, false)),
    decreases x.len() - n,
{
    assert(x.take(x.len() as int) =~= x);
    if reached(x.take(n), setup) is Finished {
        lemma_nothing_after_the_end(x, setup, n);
    } else {
        lemma_step(x, setup, n);
        lemma_after_choice(x, setup, n + 1);
    }
}

/// A drawn key is the one that is set, and it is sealed or shown.
proof fn lemma_drawn_key(x: Seq<Exchange>, setup: SetupView)
    requires
        goes_by(x, setup),
        reached(x, setup) matches StageView::Finished(EndingView::Success(_, _)),
        x.len() > 23,
        reached(x.take(23), setup) is RandomKey,
    ensures
        x[23].answer matches EventView::Random(Ok(key)) && ({
            let end = reached(x, setup)->Finished_0;
            ||| end == EndingView::Success(Some(hex_text(key, true)), false) && x.len() >= 26
                && x[x.len() - 2].asked == ActionView::Card(CardOpView::SetManagementKey(key))
                && x[x.len() - 2].answer matches EventView::Card(Ok(_))
            ||| end == EndingView::Success(None, true) && x.len() >= 27 && x[x.len() - 4].asked
                == ActionView::Seal(hex_text(key, true)) && x[x.len() - 3].asked
                == ActionView::Card(CardOpView::SetManagementKey(key))
        }),
{
    assert(x.take(x.len() as int) =~= x);
    lemma_step(x, setup, 23);
    let key = x[23].answer->Random_0->Ok_0;
    let mut n = 24int;
    if reached(x.take(n), setup) is OfferSeal {
        lemma_step(x, setup, n);
        n = n + 1;
    }
    if reached(x.take(n), setup) is SealStep {
        lemma_step(x, setup, n);
        lemma_step(x, setup, n + 1);
        lemma_step(x, setup, n + 2);
        assert(reached(x.take(n + 2), setup) == StageView::SetKey(key, KeyFate::Sealed));
        if reached(x.take(n + 3), setup) is Rollback {
            lemma_step(x, setup, n + 3);
        }
        lemma_step(x, setup, n + 3);
        lemma_step(x, setup, n + 4);
        lemma_nothing_after_the_end(x, setup, n + 5);
    } else {
        assert(reached(x.take(n), setup) == StageView::SetKey(key, KeyFate::Shown));
        lemma_step(x, setup, n);
        lemma_step(x, setup, n + 1);
        lemma_nothing_after_the_end(x, setup, n + 2);
    }
}

} // verus!
