//! Reaching the operator at a terminal: how each question is worded, and
//! what an answer means. Every question about a card names it.
use crate::card::protocol::{
    first_chars, is_candidate, take_chars, CardId, CardIdView, CardSelectRequest, CompletedEvent, CompletedStatus, ConfirmRequest, FrontendError, FrontendView, MgmtKeyChoice, MgmtKeyRequest, ProgressEvent, SecretKind, SecretRequest,
};
use crate::text::{
    cat2, cat3, cat5, debug_str, debug_text, dec, dec_u64, dec_usize, lower, lowered, opt_text,
    same, trim, trimmed,
};
use vstd::prelude::*;

verus! {

/// The terminal, with an askpass program for secrets.
#[derive(Debug)]
pub struct TtyFrontend;

/// How a request for a secret begins.
pub open spec fn verb_of(kind: SecretKind) -> Seq<char> {
    match kind {
        SecretKind::CurrentPin => "Enter PIN"@,
        SecretKind::NewPin => "Enter NEW PIN"@,
        SecretKind::ConfirmNewPin => "Confirm NEW PIN"@,
        SecretKind::CurrentPuk => "Enter PUK"@,
        SecretKind::NewPuk => "Enter NEW PUK"@,
        SecretKind::ConfirmNewPuk => "Confirm NEW PUK"@,
        SecretKind::ManagementKey => "Enter management key"@,
        SecretKind::Generic => "Enter value"@,
    }
}

/// How a request for a secret begins.
pub fn secret_verb(kind: SecretKind) -> (r: &'static str)
    ensures
        r@ == verb_of(kind),
{
    match kind {
        SecretKind::CurrentPin => "Enter PIN",
        SecretKind::NewPin => "Enter NEW PIN",
        SecretKind::ConfirmNewPin => "Confirm NEW PIN",
        SecretKind::CurrentPuk => "Enter PUK",
        SecretKind::NewPuk => "Enter NEW PUK",
        SecretKind::ConfirmNewPuk => "Confirm NEW PUK",
        SecretKind::ManagementKey => "Enter management key",
        SecretKind::Generic => "Enter value",
    }
}

/// A text between two others, if it is there at all.
pub open spec fn wrapped(before: Seq<char>, x: Option<Seq<char>>, after: Seq<char>) -> Seq<char> {
    match x {
        Some(t) => before + t + after,
        None => seq![],
    }
}

/// A serial number in words.
pub open spec fn serial_text(serial: Option<u32>) -> Option<Seq<char>> {
    match serial {
        Some(n) => Some(dec(n as nat)),
        None => None,
    }
}

/// The card in a question: the start of its identifier, its serial number and
/// the name in its certificate, then the slot; each only where it is known.
pub open spec fn suffix_of(card: Option<CardIdView>, slot: Option<Seq<char>>) -> Seq<char> {
    (match card {
        Some(c) => " — card "@ + first_chars(c.guid, 8) + "…"@ + wrapped(
            " · serial "@,
            serial_text(c.serial),
            ""@,
        ) + wrapped(" · "@, c.cn, ""@),
        None => seq![],
    }) + wrapped(" (slot "@, slot, ")"@)
}

/// The card of a request, over plain text.
pub open spec fn card_of(card: Option<CardId>) -> Option<CardIdView> {
    match card {
        Some(c) => Some(c@),
        None => None,
    }
}

fn wrap(before: &str, x: &Option<String>, after: &str) -> (r: String)
    ensures
        r@ == wrapped(before@, opt_text(*x), after@),
{
    match x {
        Some(t) => cat3(before, t.as_str(), after),
        None => {
            let s: String = String::new();
            assert(s@ =~= seq![]);
            s
        },
    }
}

fn serial_words(serial: Option<u32>) -> (r: Option<String>)
    ensures
        opt_text(r) == serial_text(serial),
{
    match serial {
        Some(n) => Some(dec_u64(n as u64)),
        None => None,
    }
}

/// The card in a question.
pub fn card_suffix(card: &Option<CardId>, slot: &Option<String>) -> (r: String)
    ensures
        r@ == suffix_of(card_of(*card), opt_text(*slot)),
{
    let head: String = match card {
        Some(c) => cat5(
            " — card ",
            take_chars(c.guid.as_str(), 8).as_str(),
            "…",
            wrap(" · serial ", &serial_words(c.serial), "").as_str(),
            wrap(" · ", &c.cn, "").as_str(),
        ),
        None => {
            let s: String = String::new();
            assert(s@ =~= seq![]);
            s
        },
    };
    cat2(head.as_str(), wrap(" (slot ", slot, ")").as_str())
}

/// The question for a secret. What has nothing to do with a card is asked in
/// the caller's own words; everything else names the card, how many tries are
/// left, and what the operator authorises.
pub open spec fn secret_question(req: SecretRequest) -> Seq<char> {
    if req.kind is Generic {
        req.prompt@
    } else {
        verb_of(req.kind) + suffix_of(card_of(req.card), opt_text(req.slot)) + wrapped(
            " · "@,
            serial_text(req.attempts_remaining),
            " tries left"@,
        ) + (if req.card is Some {
            wrapped(" · "@, opt_text(req.detail), ""@)
        } else {
            ""@
        }) + " [piggy card init]: "@
    }
}

/// The question for a secret.
pub fn secret_prompt(req: &SecretRequest) -> (r: String)
    ensures
        r@ == secret_question(*req),
{
    if req.kind == SecretKind::Generic {
        return req.prompt.clone();
    }
    let detail: String = if req.card.is_some() {
        wrap(" · ", &req.detail, "")
    } else {
        "".to_owned()
    };
    cat5(
        secret_verb(req.kind),
        card_suffix(&req.card, &req.slot).as_str(),
        wrap(" · ", &serial_words(req.attempts_remaining), " tries left").as_str(),
        detail.as_str(),
        " [piggy card init]: ",
    )
}

/// The card of a request in one line, for the askpass program.
pub open spec fn context_of(req: SecretRequest) -> Option<Seq<char>> {
    match req.card {
        None => None,
        Some(c) => Some(
            "piggy card init: card guid "@ + c.guid@ + wrapped(
                " serial "@,
                serial_text(c.serial),
                ""@,
            ) + wrapped(" cn "@, opt_text(c.cn), ""@) + wrapped(" slot "@, opt_text(req.slot), ""@),
        ),
    }
}

/// The card of a request in one line, for the askpass program.
pub fn secret_context(req: &SecretRequest) -> (r: Option<String>)
    ensures
        opt_text(r) == context_of(*req),
{
    match &req.card {
        None => None,
        Some(c) => Some(
            cat5(
                "piggy card init: card guid ",
                c.guid.as_str(),
                wrap(" serial ", &serial_words(c.serial), "").as_str(),
                wrap(" cn ", &c.cn, "").as_str(),
                wrap(" slot ", &req.slot, "").as_str(),
            ),
        ),
    }
}

/// What an answer to a yes-or-no question means. Case and the space around it
/// do not matter; nothing at all stands for what is offered.
pub open spec fn answer_of(answer: Seq<char>, default: Option<bool>) -> Option<bool> {
    let a = lowered(trimmed(answer));
    if a.len() == 0 {
        default
    } else if a == "y"@ || a == "yes"@ {
        Some(true)
    } else if a == "n"@ || a == "no"@ {
        Some(false)
    } else {
        None
    }
}

/// Reads an answer to a yes-or-no question.
pub fn parse_confirm_answer(answer: &str, default: Option<bool>) -> (r: Option<bool>)
    ensures
        r == answer_of(answer@, default),
{
    let a: String = lower(trim(answer).as_str());
    if a.as_str().is_empty() {
        default
    } else if same(a.as_str(), "y") || same(a.as_str(), "yes") {
        Some(true)
    } else if same(a.as_str(), "n") || same(a.as_str(), "no") {
        Some(false)
    } else {
        None
    }
}

/// A yes-or-no question with what it offers.
pub open spec fn confirm_question(req: ConfirmRequest) -> Seq<char> {
    req.message@ + match req.default {
        Some(true) => " [Y/n] "@,
        Some(false) => " [y/N] "@,
        None => " [y/n] "@,
    }
}

/// What the operator said: `None` where the input ended without an answer.
pub open spec fn confirm_meaning(
    answer: Option<Seq<char>>,
    default: Option<bool>,
) -> Result<bool, FrontendView> {
    match answer {
        None => match default {
            Some(b) => Ok(b),
            None => Err(FrontendView::Declined("no answer (eof, no controlling tty)"@)),
        },
        Some(a) => match answer_of(a, default) {
            Some(b) => Ok(b),
            None => Err(
                FrontendView::Declined("unrecognized answer "@ + debug_text(trimmed(a))),
            ),
        },
    }
}

impl TtyFrontend {
    /// The terminal.
    pub fn new() -> TtyFrontend {
        TtyFrontend
    }

    /// What to ask for a secret, and the card for the askpass program.
    pub fn request_secret(&self, req: &SecretRequest) -> (r: (String, Option<String>))
        ensures
            r.0@ == secret_question(*req),
            opt_text(r.1) == context_of(*req),
    {
        (secret_prompt(req), secret_context(req))
    }

    /// At the terminal the management key is always made up: the operator
    /// can write it down.
    pub fn request_mgmt_key(&self, _req: &MgmtKeyRequest) -> (r: Result<
        MgmtKeyChoice,
        FrontendError,
    >)
        ensures
            r == Ok::<MgmtKeyChoice, FrontendError>(MgmtKeyChoice::Random),
    {
        Ok(MgmtKeyChoice::Random)
    }

    /// How a yes-or-no question is put.
    pub fn confirm_prompt(&self, req: &ConfirmRequest) -> (r: String)
        ensures
            r@ == confirm_question(*req),
    {
        let hint: &str = match req.default {
            Some(true) => " [Y/n] ",
            Some(false) => " [y/N] ",
            None => " [y/n] ",
        };
        cat2(req.message.as_str(), hint)
    }

    /// Takes the operator's answer, if there was any.
    pub fn confirm(&self, req: &ConfirmRequest, answer: &Option<String>) -> (r: Result<
        bool,
        FrontendError,
    >)
        ensures
            match r {
                Ok(b) => confirm_meaning(opt_text(*answer), req.default) == Ok::<
                    bool,
                    FrontendView,
                >(b),
                Err(e) => confirm_meaning(opt_text(*answer), req.default) == Err::<
                    bool,
                    FrontendView,
                >(e@),
            },
    {
        match answer {
            None => match req.default {
                Some(b) => Ok(b),
                None => Err(
                    FrontendError::Declined("no answer (eof, no controlling tty)".to_owned()),
                ),
            },
            Some(a) => match parse_confirm_answer(a.as_str(), req.default) {
                Some(b) => Ok(b),
                None => Err(
                    FrontendError::Declined(
                        cat2("unrecognized answer ", debug_str(trim(a.as_str()).as_str()).as_str()),
                    ),
                ),
            },
        }
    }

    /// The card to use where there is just one; the terminal offers no choice.
    pub fn select_card(&self, req: &CardSelectRequest) -> (r: Result<String, FrontendError>)
        ensures
            if req.candidates@.len() == 1 {
                r is Ok && r->Ok_0@ == req.candidates@[0].card.guid@
            } else {
                r is Err && r->Err_0@ == FrontendView::Declined(
                    "tty frontend cannot disambiguate "@ + dec(req.candidates@.len())
                        + " candidate cards; select one with --serial"@,
                )
            },
            r is Ok ==> is_candidate(*req, r->Ok_0@),
    {
        if req.candidates.len() == 1 {
            assert(is_candidate(*req, req.candidates@[0].card.guid@));
            Ok(req.candidates[0].card.guid.clone())
        } else {
            Err(
                FrontendError::Declined(
                    cat3(
                        "tty frontend cannot disambiguate ",
                        dec_usize(req.candidates.len()).as_str(),
                        " candidate cards; select one with --serial",
                    ),
                ),
            )
        }
    }

    /// The line that tells how far an operation has got.
    pub fn progress(&self, ev: &ProgressEvent) -> (r: String)
        ensures
            r@ == match (ev.current, ev.total) {
                (Some(c), Some(t)) => "["@ + dec(c as nat) + "/"@ + dec(t as nat) + "] "@
                    + ev.message@,
                _ => ev.message@,
            },
    {
        match (ev.current, ev.total) {
            (Some(c), Some(t)) => cat2(
                cat5(
                    "[",
                    dec_u64(c as u64).as_str(),
                    "/",
                    dec_u64(t as u64).as_str(),
                    "] ",
                ).as_str(),
                ev.message.as_str(),
            ),
            _ => ev.message.clone(),
        }
    }

    /// The line that tells that an operation ended.
    pub fn completed(&self, ev: &CompletedEvent) -> (r: String)
        ensures
            r@ == match ev.status {
                CompletedStatus::Success => "✓ done"@,
                CompletedStatus::Error => "✗ failed: "@ + match ev.error {
                    Some(e) => e@,
                    None => "unknown error"@,
                },
            },
    {
        match ev.status {
            CompletedStatus::Success => "✓ done".to_owned(),
            CompletedStatus::Error => match &ev.error {
                Some(e) => cat2("✗ failed: ", e.as_str()),
                None => cat2("✗ failed: ", "unknown error"),
            },
        }
    }
}

/// Whatever secret of a card is asked for, the question holds the start of
/// the card's identifier, right behind the words that open it.
pub proof fn law_question_names_the_card(req: SecretRequest)
    requires
        !(req.kind is Generic),
        req.card is Some,
    ensures
        (verb_of(req.kind) + " — card "@ + first_chars(req.card->0.guid@, 8)).is_prefix_of(
            secret_question(req),
        ),
{
    let named = verb_of(req.kind) + " — card "@ + first_chars(req.card->0.guid@, 8);
    let q = secret_question(req);
    assert(q.subrange(0, named.len() as int) =~= named);
}

} // verus!
