//! Setting up a card, against a card, an operator and a store that are played.
use piggy::card::engine::{
    run, slot_cn, Action, CardOp, Code, Ending, Engine, Escrow, Event, ProvisionCard,
    ProvisionConfig, ProvisionError, ProvisionOutcome, SealedKey, Stage,
};
use piggy::card::protocol::{
    CardSelectRequest, CompletedEvent, CompletedStatus, ConfirmRequest, Frontend, FrontendError,
    MgmtKeyChoice, MgmtKeyRequest, ProgressEvent, SecretRequest,
};
use piggy::card::seal::{KeyEscrow, NoPlace, RecipientId};
use piggy::piv::PivAlgorithm;
use std::collections::VecDeque;

/// A mock card recording an ordered op log; returns dummy points/sigs (the
/// cert builder embeds both verbatim, so no real crypto is needed).
#[derive(Default)]
struct MockCard {
    log: Vec<String>,
    last_mgmt_key: Option<Vec<u8>>,
    /// Fail the management-key rotation, as a card whose write errors.
    reject_mgmt_key: bool,
}

impl ProvisionCard for MockCard {
    fn serial(&self) -> Option<u32> {
        Some(15909078)
    }
    fn authenticate_admin(&mut self) -> Result<(), String> {
        self.log.push("admin".into());
        Ok(())
    }
    fn verify_pin(&mut self, _pin: &str) -> Result<(), String> {
        self.log.push("verify_pin".into());
        Ok(())
    }
    fn write_chuid(&mut self, _guid: &[u8; 16]) -> Result<(), String> {
        self.log.push("chuid".into());
        Ok(())
    }
    fn generate_key(&mut self, slot: u8, _alg: PivAlgorithm) -> Result<Vec<u8>, String> {
        self.log.push(format!("generate:{slot:02x}"));
        // A 65-byte uncompressed-point-shaped blob (04 ‖ 64 zero bytes).
        let mut p = vec![0x04u8];
        p.extend_from_slice(&[0u8; 64]);
        Ok(p)
    }
    fn self_signed_cert(
        &mut self,
        slot: u8,
        _cn: &str,
        _point: &Vec<u8>,
    ) -> Result<Vec<u8>, String> {
        self.log.push(format!("sign:{slot:02x}"));
        // A minimal DER SEQUENCE { INTEGER 1, INTEGER 1 } — embedded verbatim.
        Ok(vec![0x30, 0x06, 0x02, 0x01, 0x01, 0x02, 0x01, 0x01])
    }
    fn put_cert(&mut self, slot: u8, _cert_der: &Vec<u8>) -> Result<(), String> {
        self.log.push(format!("put_cert:{slot:02x}"));
        Ok(())
    }
    fn change_pin(&mut self, _old: &str, _new: &str) -> Result<(), String> {
        self.log.push("change_pin".into());
        Ok(())
    }
    fn change_puk(&mut self, _old: &str, _new: &str) -> Result<(), String> {
        self.log.push("change_puk".into());
        Ok(())
    }
    fn set_management_key_3des(&mut self, key: &Vec<u8>) -> Result<(), String> {
        if self.reject_mgmt_key {
            return Err("slot 9b is empty".into());
        }
        self.log.push("set_mgmt_key".into());
        self.last_mgmt_key = Some(key.to_vec());
        Ok(())
    }
}

/// A scripted frontend: canned secrets (FIFO), confirm answers (FIFO, then
/// the fixed `confirm` fallback) and a mgmt-key choice, recording progress
/// step tokens + the completion status.
struct ScriptedFrontend {
    secrets: VecDeque<String>,
    confirm: bool,
    answers: VecDeque<bool>,
    mgmt: MgmtKeyChoice,
    steps: Vec<String>,
    completed: Option<CompletedStatus>,
    confirm_message: Option<String>,
}

impl ScriptedFrontend {
    fn new(secrets: &[&str], confirm: bool, mgmt: MgmtKeyChoice) -> Self {
        Self {
            secrets: secrets.iter().map(|s| s.to_string()).collect(),
            confirm,
            answers: VecDeque::new(),
            mgmt,
            steps: Vec::new(),
            completed: None,
            confirm_message: None,
        }
    }

    fn answering(mut self, answers: &[bool]) -> Self {
        self.answers = answers.iter().copied().collect();
        self
    }
}

impl Frontend for ScriptedFrontend {
    fn request_secret(
        &mut self,
        _req: SecretRequest,
    ) -> Result<String, FrontendError> {
        self.secrets
            .pop_front()
            .ok_or_else(|| FrontendError::Declined("no scripted secret".into()))
    }
    fn request_mgmt_key(
        &mut self,
        _req: MgmtKeyRequest,
    ) -> Result<MgmtKeyChoice, FrontendError> {
        Ok(copy_choice(&self.mgmt))
    }
    fn confirm(&mut self, req: ConfirmRequest) -> Result<bool, FrontendError> {
        self.confirm_message = Some(req.message);
        Ok(self.answers.pop_front().unwrap_or(self.confirm))
    }
    fn select_card(&mut self, _req: CardSelectRequest) -> Result<String, FrontendError> {
        Err(FrontendError::Declined("not used".into()))
    }
    fn progress(&mut self, ev: ProgressEvent) {
        self.steps.push(ev.step);
    }
    fn completed(&mut self, ev: CompletedEvent) {
        self.completed = Some(ev.status);
    }
}

fn cfg() -> ProvisionConfig {
    ProvisionConfig {
        guid: [
            0x19, 0x17, 0x55, 0xCF, 0xF3, 0x9E, 0xFE, 0x52, 0x2C, 0x07, 0xA3, 0x83, 0x27, 0x5B,
            0xBE, 0xB1,
        ],
        reprovision: false,
    }
}

#[test]
fn full_setup_drives_card_ops_in_order_and_returns_random_mgmt_key() {
    let mut card = MockCard::default();
    let mut fe = ScriptedFrontend::new(
        &["999999", "999999", "12345678", "12345678"], // new PIN ×2, new PUK ×2
        true,
        MgmtKeyChoice::Random,
    );
    let outcome = run(&mut card, &mut fe, &cfg(), &mut NoPlace::new(), None).unwrap();

    assert_eq!(outcome.guid, "191755CFF39EFE522C07A383275BBEB1");
    // Random choice → the engine generated and returned a 24-byte (48 hex) key.
    let key = outcome.generated_mgmt_key.expect("random key returned");
    assert_eq!(key.len(), 48, "24 bytes hex-encoded");

    // The card ops fired in provisioning order.
    assert_eq!(
        card.log,
        vec![
            "admin",
            "verify_pin",
            "chuid",
            "generate:9d",
            "sign:9d",
            "put_cert:9d",
            "generate:9a",
            "sign:9a",
            "put_cert:9a",
            "change_pin",
            "change_puk",
            "set_mgmt_key",
        ]
    );
    // The rotated key matches what was returned to the caller.
    let applied = hex::encode_upper(card.last_mgmt_key.unwrap());
    assert_eq!(applied, key);

    assert_eq!(fe.completed, Some(CompletedStatus::Success));
    assert_eq!(
        fe.steps,
        vec![
            "admin-auth",
            "write-chuid",
            "generate-9d",
            "generate-9a",
            "change-secrets",
            "rotate-mgmt-key",
        ]
    );
}

#[test]
fn declined_confirmation_aborts_before_touching_card() {
    let mut card = MockCard::default();
    let mut fe = ScriptedFrontend::new(&[], false, MgmtKeyChoice::Default);
    let err = run(&mut card, &mut fe, &cfg(), &mut NoPlace::new(), None).err().unwrap();
    assert!(matches!(err, ProvisionError::Aborted(_)), "got {err:?}");
    assert!(card.log.is_empty(), "no card op fired: {:?}", card.log);
    assert_eq!(fe.completed, Some(CompletedStatus::Error));
}

#[test]
fn mismatched_pin_entries_error_and_stop_after_pin_change_attempt() {
    let mut card = MockCard::default();
    let mut fe = ScriptedFrontend::new(
        &["111111", "222222"], // new PIN ≠ confirm
        true,
        MgmtKeyChoice::Default,
    );
    let err = run(&mut card, &mut fe, &cfg(), &mut NoPlace::new(), None).err().unwrap();
    assert!(matches!(err, ProvisionError::PinMismatch), "got {err:?}");
    // Keys/certs were written, but the PIN was never changed.
    assert!(card.log.contains(&"put_cert:9a".to_string()));
    assert!(!card.log.contains(&"change_pin".to_string()));
    assert_eq!(fe.completed, Some(CompletedStatus::Error));
}

#[test]
fn default_mgmt_choice_skips_rotation() {
    let mut card = MockCard::default();
    let mut fe = ScriptedFrontend::new(
        &["999999", "999999", "12345678", "12345678"],
        true,
        MgmtKeyChoice::Default,
    );
    let outcome = run(&mut card, &mut fe, &cfg(), &mut NoPlace::new(), None).unwrap();
    assert!(outcome.generated_mgmt_key.is_none());
    assert!(
        !card.log.contains(&"set_mgmt_key".to_string()),
        "Default choice does not rotate: {:?}",
        card.log
    );
}

#[test]
fn hex_mgmt_choice_rotates_to_supplied_key() {
    let mut card = MockCard::default();
    let mut fe = ScriptedFrontend::new(
        &["999999", "999999", "12345678", "12345678"],
        true,
        MgmtKeyChoice::Hex {
            key: "0102030405060708".repeat(3), // 24 bytes
        },
    );
    let outcome = run(&mut card, &mut fe, &cfg(), &mut NoPlace::new(), None).unwrap();
    assert!(
        outcome.generated_mgmt_key.is_none(),
        "Hex is not 'generated'"
    );
    assert_eq!(card.last_mgmt_key.unwrap().len(), 24);
}

#[test]
fn bad_hex_mgmt_key_is_rejected() {
    let mut card = MockCard::default();
    let mut fe = ScriptedFrontend::new(
        &["999999", "999999", "12345678", "12345678"],
        true,
        MgmtKeyChoice::Hex {
            key: "abcd".into(), // 2 bytes, not 24
        },
    );
    let err = run(&mut card, &mut fe, &cfg(), &mut NoPlace::new(), None).err().unwrap();
    assert!(matches!(err, ProvisionError::BadMgmtKey(_)), "got {err:?}");
}

#[test]
fn reprovision_escalates_the_confirm_wording() {
    // Default (fresh provision): standard wording, no destruction warning.
    let mut card = MockCard::default();
    let mut fe = ScriptedFrontend::new(
        &["999999", "999999", "12345678", "12345678"],
        true,
        MgmtKeyChoice::Default,
    );
    run(&mut card, &mut fe, &cfg(), &mut NoPlace::new(), None).unwrap();
    let msg = fe.confirm_message.clone().unwrap();
    assert!(msg.contains("Provision card"), "default wording: {msg}");
    assert!(
        !msg.contains("ALREADY PROVISIONED"),
        "default wording: {msg}"
    );

    // Reprovision: escalated wording naming the destruction.
    let mut card = MockCard::default();
    let mut fe = ScriptedFrontend::new(
        &["999999", "999999", "12345678", "12345678"],
        true,
        MgmtKeyChoice::Default,
    );
    let reprov = ProvisionConfig {
        reprovision: true,
        ..cfg()
    };
    run(&mut card, &mut fe, &reprov, &mut NoPlace::new(), None).unwrap();
    let msg = fe.confirm_message.clone().unwrap();
    assert!(
        msg.contains("ALREADY PROVISIONED") && msg.contains("DESTROYS"),
        "reprovision wording: {msg}"
    );
}

#[test]
fn slot_cn_uses_prefix_and_short_guid() {
    assert_eq!(
        slot_cn("piv-auth", "191755CFF39EFE522C07A383275BBEB1"),
        "piv-auth@191755CF"
    );
}

// Sealing a management key.

#[derive(Default)]
struct MockEscrow {
    sealed: Option<String>,
    rolled_back: bool,
    committed: bool,
    fail_seal: bool,
}

/// Two recipients (only their count reaches the engine).
fn two_recipients() -> Vec<RecipientId> {
    [0x02u8, 0x03]
        .iter()
        .map(|prefix| RecipientId {
            purpose: Some("piggy-recipient-v1".into()),
            format: "pivy_ecdh_p256_pub".into(),
            data: vec![*prefix; 33],
        })
        .collect()
}

fn copy_choice(c: &MgmtKeyChoice) -> MgmtKeyChoice {
    match c {
        MgmtKeyChoice::Default => MgmtKeyChoice::Default,
        MgmtKeyChoice::Hex { key } => MgmtKeyChoice::Hex { key: key.clone() },
        MgmtKeyChoice::Random => MgmtKeyChoice::Random,
    }
}

impl KeyEscrow for MockEscrow {
    fn pass_name(&self) -> String {
        "piv/TEST/management-key".into()
    }
    fn recipients(&self) -> Vec<RecipientId> {
        two_recipients()
    }
    fn seal(&mut self, key_hex: &str) -> Result<(), String> {
        if self.fail_seal {
            return Err("disk full".into());
        }
        self.sealed = Some(key_hex.to_string());
        Ok(())
    }
    fn rollback(&mut self) {
        self.rolled_back = true;
    }
    fn commit(&mut self) {
        self.committed = true;
    }
}

const NEW_SECRETS: [&str; 4] = ["999999", "999999", "12345678", "12345678"];

fn seal_run(
    card: &mut MockCard,
    fe: &mut ScriptedFrontend,
    escrow: &mut MockEscrow,
    ask: bool,
) -> Result<ProvisionOutcome, ProvisionError> {
    run(card, fe, &cfg(), escrow, Some(ask))
}

#[test]
fn required_seal_escrows_the_applied_key_and_withholds_it() {
    let mut card = MockCard::default();
    let mut fe = ScriptedFrontend::new(&NEW_SECRETS, true, MgmtKeyChoice::Random);
    let mut escrow = MockEscrow::default();
    let outcome = seal_run(&mut card, &mut fe, &mut escrow, false).unwrap();

    assert!(
        outcome.generated_mgmt_key.is_none(),
        "a sealed key is not displayed"
    );
    assert_eq!(
        outcome.sealed_mgmt_key,
        Some(SealedKey {
            pass_name: "piv/TEST/management-key".into(),
            recipients: 2,
        })
    );
    let applied = hex::encode_upper(card.last_mgmt_key.expect("rotated"));
    assert_eq!(escrow.sealed.as_deref(), Some(applied.as_str()));
    assert!(escrow.committed && !escrow.rolled_back);
    assert!(fe.steps.contains(&"seal-mgmt-key".to_string()));
}

#[test]
fn failed_seal_leaves_the_management_key_unrotated() {
    let mut card = MockCard::default();
    let mut fe = ScriptedFrontend::new(&NEW_SECRETS, true, MgmtKeyChoice::Random);
    let mut escrow = MockEscrow {
        fail_seal: true,
        ..Default::default()
    };
    let err = seal_run(&mut card, &mut fe, &mut escrow, false).err().unwrap();
    assert!(matches!(err, ProvisionError::Seal(_)), "got {err:?}");
    assert!(
        !card.log.contains(&"set_mgmt_key".to_string()),
        "the key is sealed before it is set: {:?}",
        card.log
    );
    assert!(!escrow.committed);
    assert_eq!(fe.completed, Some(CompletedStatus::Error));
}

#[test]
fn card_rejecting_the_key_rolls_the_seal_back() {
    let mut card = MockCard {
        reject_mgmt_key: true,
        ..Default::default()
    };
    let mut fe = ScriptedFrontend::new(&NEW_SECRETS, true, MgmtKeyChoice::Random);
    let mut escrow = MockEscrow::default();
    let err = seal_run(&mut card, &mut fe, &mut escrow, false).err().unwrap();
    assert!(matches!(err, ProvisionError::Card(_)), "got {err:?}");
    assert!(escrow.sealed.is_some() && escrow.rolled_back && !escrow.committed);
}

#[test]
fn accepted_seal_offer_escrows_the_key() {
    let mut card = MockCard::default();
    let mut fe = ScriptedFrontend::new(&NEW_SECRETS, true, MgmtKeyChoice::Random);
    let mut escrow = MockEscrow::default();
    let outcome = seal_run(&mut card, &mut fe, &mut escrow, true).unwrap();
    assert!(outcome.sealed_mgmt_key.is_some());
    assert!(outcome.generated_mgmt_key.is_none());
    let offer = fe.confirm_message.unwrap();
    assert!(
        offer.contains("piv/TEST/management-key") && offer.contains("2 recipients"),
        "{offer}"
    );
}

#[test]
fn declined_seal_offer_displays_the_key() {
    let mut card = MockCard::default();
    let mut fe = ScriptedFrontend::new(&NEW_SECRETS, true, MgmtKeyChoice::Random)
        .answering(&[true, false]);
    let mut escrow = MockEscrow::default();
    let outcome = seal_run(&mut card, &mut fe, &mut escrow, true).unwrap();
    assert!(outcome.sealed_mgmt_key.is_none());
    assert!(outcome.generated_mgmt_key.is_some());
    assert!(escrow.sealed.is_none() && !escrow.committed);
}

#[test]
fn operator_supplied_key_is_never_sealed() {
    let mut card = MockCard::default();
    let mut fe = ScriptedFrontend::new(
        &NEW_SECRETS,
        true,
        MgmtKeyChoice::Hex {
            key: "0102030405060708".repeat(3),
        },
    );
    let mut escrow = MockEscrow::default();
    let outcome = seal_run(&mut card, &mut fe, &mut escrow, false).unwrap();
    assert!(outcome.sealed_mgmt_key.is_none());
    assert!(escrow.sealed.is_none());
    assert!(
        fe.steps.contains(&"seal-skipped".to_string()),
        "{:?}",
        fe.steps
    );
}

/// Confirms the provision, then fails every later confirm as a cancelled
/// prompt — i.e. the seal offer's answer never arrives.
struct CancelsOffer(ScriptedFrontend);

impl Frontend for CancelsOffer {
    fn request_secret(
        &mut self,
        req: SecretRequest,
    ) -> Result<String, FrontendError> {
        self.0.request_secret(req)
    }
    fn request_mgmt_key(
        &mut self,
        req: MgmtKeyRequest,
    ) -> Result<MgmtKeyChoice, FrontendError> {
        self.0.request_mgmt_key(req)
    }
    fn confirm(&mut self, req: ConfirmRequest) -> Result<bool, FrontendError> {
        if self.0.confirm_message.is_some() {
            return Err(FrontendError::Declined("prompt cancelled".into()));
        }
        self.0.confirm(req)
    }
    fn select_card(&mut self, req: CardSelectRequest) -> Result<String, FrontendError> {
        self.0.select_card(req)
    }
    fn progress(&mut self, ev: ProgressEvent) {
        self.0.progress(ev)
    }
    fn completed(&mut self, ev: CompletedEvent) {
        self.0.completed(ev)
    }
}

#[test]
fn failed_seal_offer_answer_still_rotates_and_displays_the_key() {
    let mut card = MockCard::default();
    let mut fe = CancelsOffer(ScriptedFrontend::new(
        &NEW_SECRETS,
        true,
        MgmtKeyChoice::Random,
    ));
    let mut escrow = MockEscrow::default();
    let outcome = run(
        &mut card,
        &mut fe,
        &cfg(),
        &mut escrow,
        Some(true),
    )
    .unwrap();
    assert!(
        outcome.generated_mgmt_key.is_some(),
        "the key is displayed, not lost"
    );
    assert!(outcome.sealed_mgmt_key.is_none());
    assert!(escrow.sealed.is_none());
    assert!(card.last_mgmt_key.is_some(), "the key was still rotated");
}

// ------------------------------------------------------- the engine by itself

#[test]
fn errors_have_their_words() {
    let cases = [
        (ProvisionError::Setup("x".into()), "x"),
        (ProvisionError::Card("x".into()), "card error: x"),
        (
            ProvisionError::Frontend(FrontendError::Declined("x".into())),
            "frontend error: interaction declined: x",
        ),
        (
            ProvisionError::Frontend(FrontendError::Transport("x".into())),
            "frontend error: transport error: x",
        ),
        (
            ProvisionError::Frontend(FrontendError::Protocol("x".into())),
            "frontend error: protocol error: x",
        ),
        (ProvisionError::Aborted("x".into()), "operator aborted: x"),
        (
            ProvisionError::PinMismatch,
            "the two PIN entries did not match",
        ),
        (
            ProvisionError::PukMismatch,
            "the two PUK entries did not match",
        ),
        (
            ProvisionError::BadMgmtKey("x".into()),
            "supplied management key is not valid 24-byte hex: x",
        ),
        (
            ProvisionError::Seal("x".into()),
            "sealing the management key failed (the card's management key was not rotated): x",
        ),
    ];
    for (error, words) in cases {
        assert_eq!(error.text(), words);
    }
}

#[test]
fn engine_asks_before_it_touches_the_card() {
    let engine = Engine::new(&cfg(), Some(15909078), None);
    match engine.action() {
        Action::Confirm(q) => {
            assert_eq!(
                q.message,
                "Provision card serial 15909078 — this generates new 9A + 9D keys and overwrites their certs. Proceed?"
            );
            assert_eq!(q.default, Some(false));
        }
        _ => panic!("the question comes first"),
    }
    let engine = engine.on(Event::Answer(Ok(true)));
    match engine.action() {
        Action::Progress(p) => {
            assert_eq!(p.step, "admin-auth");
            assert_eq!((p.current, p.total), (Some(1), Some(6)));
        }
        _ => panic!("the first step is announced"),
    }
    let engine = engine.on(Event::Done);
    assert!(matches!(
        engine.action(),
        Action::Card(CardOp::AuthenticateAdmin)
    ));
    let engine = engine.on(Event::Card(Err("no".into())));
    match engine.action() {
        Action::Completed(c) => {
            assert_eq!(c.status, CompletedStatus::Error);
            assert_eq!(c.error.as_deref(), Some("card error: no"));
        }
        _ => panic!("the end is told"),
    }
    let engine = engine.on(Event::Done);
    assert!(matches!(
        engine.outcome(),
        Err(ProvisionError::Card(e)) if e == "no"
    ));
}

fn at(stage: Stage, escrow: Option<Escrow>) -> Engine {
    let mut engine = Engine::new(&cfg(), None, escrow);
    engine.stage = stage;
    engine
}

fn escrow(ask: bool, recipients: usize) -> Option<Escrow> {
    Some(Escrow {
        pass_name: "piv/X".into(),
        recipients,
        ask,
    })
}

#[test]
fn engine_offers_to_seal_in_full_words() {
    match at(Stage::OfferSeal(vec![0; 24]), escrow(true, 1)).action() {
        Action::Confirm(q) => assert_eq!(
            q.message,
            "Seal card 191755CF…'s new management key into the password store at piv/X (1 recipient)? Otherwise it is shown once and is NOT recoverable."
        ),
        _ => panic!("an offer"),
    }
    match at(Stage::SealStep(vec![0; 24]), escrow(false, 2)).action() {
        Action::Progress(p) => {
            assert_eq!(p.message, "Sealing management key to piv/X");
            assert_eq!((p.current, p.total), (None, None));
        }
        _ => panic!("a notice"),
    }
    match at(Stage::Seal(vec![0xAB; 24]), escrow(false, 2)).action() {
        Action::Seal(hex) => assert_eq!(hex, "AB".repeat(24)),
        _ => panic!("the key is sealed in hexadecimal"),
    }
}

#[test]
fn engine_takes_no_key_that_is_not_hexadecimal() {
    let engine = at(Stage::ChooseKey, None).on(Event::Choice(Ok(MgmtKeyChoice::Hex {
        key: "zz".repeat(24),
    })));
    match engine.stage {
        Stage::Complete(Ending::Failure(ProvisionError::BadMgmtKey(_))) => {}
        _ => panic!("not a key"),
    }
    let engine = at(Stage::ChooseKey, None).on(Event::Choice(Ok(MgmtKeyChoice::Hex {
        key: "abcd".into(),
    })));
    match engine.stage {
        Stage::Complete(Ending::Failure(ProvisionError::BadMgmtKey(e))) => {
            assert_eq!(e, "expected 24 bytes, got 2")
        }
        _ => panic!("not a whole key"),
    }
    let engine = at(Stage::ChooseKey, None).on(Event::Choice(Ok(MgmtKeyChoice::Hex {
        key: format!(" {}\n", "0f".repeat(24)),
    })));
    match engine.stage {
        Stage::SetKey(k, _) => assert_eq!(k, vec![0x0f; 24]),
        _ => panic!("space around a key does not matter"),
    }
}

#[test]
fn engine_tells_where_chance_fails_and_secrets_differ() {
    let engine = at(Stage::RandomKey, None).on(Event::Random(Err("dry".into())));
    match engine.stage {
        Stage::Complete(Ending::Failure(ProvisionError::BadMgmtKey(e))) => {
            assert_eq!(e, "rng: dry")
        }
        _ => panic!("no key without chance"),
    }
    let engine = at(Stage::ConfirmSecret(Code::Puk, "1".into()), None)
        .on(Event::Secret(Ok("2".into())));
    assert!(matches!(
        engine.stage,
        Stage::Complete(Ending::Failure(ProvisionError::PukMismatch))
    ));
    let engine = at(Stage::NewSecret(Code::Pin), None)
        .on(Event::Secret(Err(FrontendError::Declined("no".into()))));
    assert!(matches!(
        engine.stage,
        Stage::Complete(Ending::Failure(ProvisionError::Frontend(_)))
    ));
}

/// A card that notes what it is given.
#[derive(Default)]
struct NotingCard {
    notes: Vec<String>,
}

impl ProvisionCard for NotingCard {
    fn serial(&self) -> Option<u32> {
        None
    }
    fn authenticate_admin(&mut self) -> Result<(), String> {
        Ok(())
    }
    fn verify_pin(&mut self, pin: &str) -> Result<(), String> {
        self.notes.push(format!("verify {pin}"));
        Ok(())
    }
    fn write_chuid(&mut self, guid: &[u8; 16]) -> Result<(), String> {
        self.notes.push(format!("chuid {}", hex::encode(guid)));
        Ok(())
    }
    fn generate_key(&mut self, slot: u8, alg: PivAlgorithm) -> Result<Vec<u8>, String> {
        self.notes.push(format!("generate {slot:02x} {alg:?}"));
        Ok(vec![slot])
    }
    fn self_signed_cert(
        &mut self,
        slot: u8,
        cn: &str,
        point: &Vec<u8>,
    ) -> Result<Vec<u8>, String> {
        assert_eq!(*point, vec![slot]);
        self.notes.push(format!("certify {slot:02x} {cn}"));
        Ok(vec![slot, 1])
    }
    fn put_cert(&mut self, slot: u8, cert_der: &Vec<u8>) -> Result<(), String> {
        assert_eq!(*cert_der, vec![slot, 1]);
        Ok(())
    }
    fn change_pin(&mut self, old_pin: &str, new_pin: &str) -> Result<(), String> {
        self.notes.push(format!("pin {old_pin} {new_pin}"));
        Ok(())
    }
    fn change_puk(&mut self, old_puk: &str, new_puk: &str) -> Result<(), String> {
        self.notes.push(format!("puk {old_puk} {new_puk}"));
        Ok(())
    }
    fn set_management_key_3des(&mut self, key: &Vec<u8>) -> Result<(), String> {
        self.notes.push(format!("key {}", hex::encode_upper(key)));
        Ok(())
    }
}

#[test]
fn card_is_given_what_was_asked_for() {
    let mut card = NotingCard::default();
    let secrets = ["999999", "999999", "87654321", "87654321"];
    let key = "AB".repeat(24);
    let choice = MgmtKeyChoice::Hex { key: key.clone() };
    let mut fe = ScriptedFrontend::new(&secrets, true, choice);
    run(&mut card, &mut fe, &cfg(), &mut NoPlace::new(), None).unwrap();
    assert_eq!(
        card.notes,
        vec![
            "verify 123456".to_string(),
            "chuid 191755cff39efe522c07a383275bbeb1".into(),
            "generate 9d EcP256".into(),
            "certify 9d piv-key-mgmt@191755CF".into(),
            "generate 9a EcP256".into(),
            "certify 9a piv-auth@191755CF".into(),
            "pin 123456 999999".into(),
            "puk 12345678 87654321".into(),
            format!("key {key}"),
        ]
    );
}

#[test]
fn place_that_is_not_there_takes_no_key() {
    let mut place = NoPlace::new();
    assert_eq!(place.pass_name(), "");
    assert!(place.recipients().is_empty());
    assert_eq!(
        place.seal("AB").unwrap_err(),
        "no password store is available to seal into"
    );
    place.rollback();
    place.commit();
}
