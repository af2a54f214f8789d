//! Which card is set up, and who is asked.
use openssl::bn::BigNumContext;
use openssl::ec::{EcGroup, EcKey, PointConversionForm};
use openssl::nid::Nid;
use piggy::card::engine::{ProvisionError, ProvisionOutcome, SealedKey};
use piggy::card::frontend::jsonrpc::{
    read_line, settle, write_line, JsonRpcFrontend, LineRead, Notice, Request, RpcError,
    INTERACTION_DECLINED,
};
use piggy::card::frontend::select::{build_frontend, connect_failed, FrontendKind, FrontendPlan};
use piggy::card::frontend::tty::{
    card_suffix, parse_confirm_answer, secret_context, secret_prompt, TtyFrontend,
};
use piggy::card::init_cmd::{
    choose_card_index, draw_guid, guid_outcome, prepare_escrow, report, CardMeta, CardSelector,
};
use piggy::card::protocol::{
    selected_card, CardCandidate, CardId, CardSelectRequest, CardState, CompletedEvent, CompletedStatus,
    ConfirmRequest, Frontend, FrontendError, MgmtKeyChoice, MgmtKeyRequest, ProgressEvent,
    SecretKind, SecretRequest,
};
use piggy::card::seal::{
    check_escrow_recipients, default_pass_name, KeyEscrow, ManagementKeySealer, NoStore,
    RecipientId, SealMode,
};
use piggy::piv::Guid;

const BLANK: &str = "00000000000000000000000000000000";
const GUID_A: &str = "0102030405060708090a0b0c0d0e0f10";
const GUID_B: &str = "1112131415161718191a1b1c1d1e1f20";

fn meta(serial: Option<u32>, guid_hex: &str, reader: &str, initialized: bool) -> CardMeta {
    CardMeta {
        serial,
        guid: Guid::from_hex(guid_hex).expect("valid guid hex"),
        reader: reader.to_string(),
        initialized,
    }
}

// --- CardSelector::from_flags ---

#[test]
fn from_flags_none_is_auto() {
    assert!(matches!(
        CardSelector::from_flags(None, None, None),
        Ok(CardSelector::Auto)
    ));
}

#[test]
fn from_flags_serial() {
    assert!(matches!(
        CardSelector::from_flags(Some(42), None, None),
        Ok(CardSelector::Serial(42))
    ));
}

#[test]
fn from_flags_guid_parses_hex() {
    match CardSelector::from_flags(None, Some(GUID_A.to_string()), None) {
        Ok(CardSelector::Guid(g)) => assert_eq!(g.to_hex(), GUID_A.to_uppercase()),
        other => panic!("expected Guid, got {other:?}"),
    }
}

#[test]
fn from_flags_reader() {
    match CardSelector::from_flags(None, None, Some("R 01 00".to_string())) {
        Ok(CardSelector::Reader(r)) => assert_eq!(r, "R 01 00"),
        other => panic!("expected Reader, got {other:?}"),
    }
}

#[test]
fn from_flags_conflict_errors() {
    let e = CardSelector::from_flags(Some(1), Some(GUID_A.to_string()), None).err().unwrap();
    assert!(e.contains("at most one"), "{e}");
}

#[test]
fn from_flags_bad_guid_errors() {
    let e = CardSelector::from_flags(None, Some("nothex!!".to_string()), None).err().unwrap();
    assert!(e.contains("invalid --guid"), "{e}");
    let e = CardSelector::from_flags(None, Some("AB".into()), None).unwrap_err();
    assert_eq!(e, "invalid --guid \"AB\": expected 16 bytes, got 1");
}

// --- choose_card_index ---

#[test]
fn auto_single_blank_ok() {
    let metas = vec![meta(None, BLANK, "Reader 00 00", false)];
    assert_eq!(
        choose_card_index(&metas, &CardSelector::Auto, false).unwrap(),
        0
    );
}

#[test]
fn auto_none_errors() {
    let metas: Vec<CardMeta> = vec![];
    let e = choose_card_index(&metas, &CardSelector::Auto, false).unwrap_err();
    assert!(e.contains("no uninitialized"), "{e}");
}

#[test]
fn auto_multiple_errors_with_hint() {
    let metas = vec![
        meta(None, BLANK, "R0 00 00", false),
        meta(None, BLANK, "R1 00 00", false),
    ];
    let e = choose_card_index(&metas, &CardSelector::Auto, false).unwrap_err();
    assert!(e.contains("candidate cards present"), "{e}");
    assert!(e.contains("--reader"), "{e}");
}

#[test]
fn serial_matches() {
    let metas = vec![
        meta(Some(111), GUID_A, "R0", false),
        meta(Some(222), GUID_B, "R1", false),
    ];
    assert_eq!(
        choose_card_index(&metas, &CardSelector::Serial(222), false).unwrap(),
        1
    );
}

#[test]
fn serial_miss_errors_lists_candidates() {
    let metas = vec![meta(Some(111), GUID_A, "R0", false)];
    let e = choose_card_index(&metas, &CardSelector::Serial(999), false).unwrap_err();
    assert!(e.contains("serial 999"), "{e}");
    assert!(e.contains("candidates:"), "{e}");
}

#[test]
fn guid_matches_among_initialized() {
    let metas = vec![
        meta(None, GUID_A, "R0", true),
        meta(None, GUID_B, "R1", true),
    ];
    let sel = CardSelector::Guid(Guid::from_hex(GUID_B).unwrap());
    // allow_reprovision=true so initialized cards are eligible.
    assert_eq!(choose_card_index(&metas, &sel, true).unwrap(), 1);
}

#[test]
fn reader_matches() {
    let metas = vec![
        meta(None, BLANK, "Yubico 00 00", false),
        meta(None, BLANK, "Yubico 01 00", false),
    ];
    let sel = CardSelector::Reader("Yubico 01 00".to_string());
    assert_eq!(choose_card_index(&metas, &sel, false).unwrap(), 1);
}

#[test]
fn guid_ambiguous_blanks_errors() {
    // Two factory-blank cards share the all-zeros GUID — --guid can't pick.
    let metas = vec![
        meta(None, BLANK, "R0", false),
        meta(None, BLANK, "R1", false),
    ];
    let sel = CardSelector::Guid(Guid::from_hex(BLANK).unwrap());
    let e = choose_card_index(&metas, &sel, false).unwrap_err();
    assert!(e.contains("match"), "{e}");
    assert!(e.contains("--reader"), "{e}");
}

#[test]
fn reprovision_filter_excludes_initialized_by_default() {
    let metas = vec![meta(Some(1), GUID_A, "R0", true)]; // initialized
    // Default (allow_reprovision=false): the initialized card is NOT eligible.
    let e = choose_card_index(&metas, &CardSelector::Serial(1), false).unwrap_err();
    assert!(e.contains("candidates: none present"), "{e}");
    // With allow_reprovision it becomes selectable.
    assert_eq!(
        choose_card_index(&metas, &CardSelector::Serial(1), true).unwrap(),
        0
    );
}

// ----------------------------------------------------------------- terminal

fn card() -> CardId {
    CardId {
        guid: "2835305C6024B3255557BF6901443404".into(),
        serial: Some(15909078),
        cn: Some("piv-auth@2835305C".into()),
    }
}

#[test]
fn secret_prompt_names_card_by_serial_short_guid_and_cn() {
    let req = SecretRequest {
        kind: SecretKind::CurrentPin,
        prompt: String::new(),
        card: Some(card()),
        slot: Some("9a".into()),
        attempts_remaining: Some(3),
        detail: None,
    };
    let p = secret_prompt(&req);
    assert!(p.starts_with("Enter PIN"), "{p}");
    assert!(p.contains("2835305C…"), "short guid: {p}");
    assert!(p.contains("serial 15909078"), "serial: {p}");
    assert!(p.contains("piv-auth@2835305C"), "cn: {p}");
    assert!(p.contains("(slot 9a)"), "slot: {p}");
    assert!(p.contains("3 tries left"), "attempts: {p}");
}

#[test]
fn secret_prompt_uses_kind_verb() {
    let mk = |kind| SecretRequest {
        kind,
        prompt: String::new(),
        card: Some(card()),
        slot: None,
        attempts_remaining: None,
        detail: None,
    };
    assert!(secret_prompt(&mk(SecretKind::NewPin)).starts_with("Enter NEW PIN"));
    assert!(secret_prompt(&mk(SecretKind::ConfirmNewPuk)).starts_with("Confirm NEW PUK"));
    assert!(secret_prompt(&mk(SecretKind::ManagementKey)).starts_with("Enter management key"));
}

#[test]
fn secret_prompt_generic_uses_caller_text_verbatim() {
    let req = SecretRequest {
        kind: SecretKind::Generic,
        prompt: "Type the magic word: ".into(),
        card: None,
        slot: None,
        attempts_remaining: None,
        detail: None,
    };
    assert_eq!(secret_prompt(&req), "Type the magic word: ");
}

#[test]
fn secret_prompt_omits_absent_card_fields() {
    let req = SecretRequest {
        kind: SecretKind::CurrentPin,
        prompt: String::new(),
        card: Some(CardId {
            guid: "AABBCCDD00000000000000000000FFFF".into(),
            serial: None,
            cn: None,
        }),
        slot: None,
        attempts_remaining: None,
        detail: None,
    };
    let p = secret_prompt(&req);
    assert!(p.contains("AABBCCDD…"));
    assert!(!p.contains("serial"), "no serial line: {p}");
    assert!(!p.contains("·  ·"), "no empty separators: {p}");
}

#[test]
fn secret_context_carries_guid_serial_cn_slot() {
    let req = SecretRequest {
        kind: SecretKind::CurrentPin,
        prompt: String::new(),
        card: Some(card()),
        slot: Some("9a".into()),
        attempts_remaining: None,
        detail: None,
    };
    let c = secret_context(&req).unwrap();
    assert!(c.contains("guid 2835305C6024B3255557BF6901443404"));
    assert!(c.contains("serial 15909078"));
    assert!(c.contains("cn piv-auth@2835305C"));
    assert!(c.contains("slot 9a"));
}

#[test]
fn secret_context_is_none_without_card() {
    let req = SecretRequest {
        kind: SecretKind::Generic,
        prompt: "x".into(),
        card: None,
        slot: None,
        attempts_remaining: None,
        detail: None,
    };
    assert!(secret_context(&req).is_none());
}

#[test]
fn parse_confirm_answer_matrix() {
    assert_eq!(parse_confirm_answer("y", None), Some(true));
    assert_eq!(parse_confirm_answer("YES", None), Some(true));
    assert_eq!(parse_confirm_answer("n", None), Some(false));
    assert_eq!(parse_confirm_answer("No", None), Some(false));
    // Empty falls back to the offered default.
    assert_eq!(parse_confirm_answer("", Some(true)), Some(true));
    assert_eq!(parse_confirm_answer("  ", Some(false)), Some(false));
    assert_eq!(parse_confirm_answer("", None), None);
    // Garbage is unrecognized.
    assert_eq!(parse_confirm_answer("maybe", Some(true)), None);
}

#[test]
fn tty_default_mgmt_key_choice_is_random() {
    let fe = TtyFrontend::new();
    let choice = fe
        .request_mgmt_key(&MgmtKeyRequest {
            prompt: "mgmt key".into(),
            card: card(),
        })
        .unwrap();
    assert_eq!(choice, MgmtKeyChoice::Random);
}

// ------------------------------------------------------------------ sealing

fn compressed_point() -> Vec<u8> {
    let group = EcGroup::from_curve_name(Nid::X9_62_PRIME256V1).unwrap();
    let key = EcKey::generate(&group).unwrap();
    let mut ctx = BigNumContext::new().unwrap();
    key.public_key()
        .to_bytes(&group, PointConversionForm::COMPRESSED, &mut ctx)
        .unwrap()
}

fn id(purpose: Option<&str>, point: Vec<u8>) -> RecipientId {
    RecipientId {
        purpose: purpose.map(|p| p.to_string()),
        format: "pivy_ecdh_p256_pub".into(),
        data: point,
    }
}

fn same(r: &RecipientId) -> RecipientId {
    RecipientId {
        purpose: r.purpose.clone(),
        format: r.format.clone(),
        data: r.data.clone(),
    }
}

fn recipient() -> RecipientId {
    id(Some("piggy-recipient-v1"), compressed_point())
}

#[test]
fn from_cli_maps_flags_to_modes() {
    assert_eq!(SealMode::from_cli(None, false), SealMode::Offer);
    assert_eq!(SealMode::from_cli(None, true), SealMode::Never);
    assert_eq!(
        SealMode::from_cli(Some(String::new()), false),
        SealMode::Always(None)
    );
    assert_eq!(
        SealMode::from_cli(Some("escrow/yk".into()), false),
        SealMode::Always(Some("escrow/yk".into()))
    );
}

#[test]
fn default_pass_name_nests_under_piv_guid() {
    assert_eq!(
        default_pass_name("0123456789ABCDEF0123456789ABCDEF"),
        "piv/0123456789ABCDEF0123456789ABCDEF/management-key"
    );
}

#[test]
fn empty_recipient_set_is_refused() {
    let err = check_escrow_recipients(&vec![], &None).unwrap_err();
    assert!(err.contains("no encryption recipients"), "{err}");
}

#[test]
fn unrelated_recipients_pass_without_warning() {
    let backup = recipient();
    let doomed = recipient();
    assert_eq!(check_escrow_recipients(&vec![backup], &Some(doomed)), Ok(None));
}

#[test]
fn doomed_key_as_sole_recipient_is_refused() {
    let doomed = recipient();
    let err =
        check_escrow_recipients(&vec![same(&doomed)], &Some(doomed)).unwrap_err();
    assert!(err.contains("reprovisioning destroys"), "{err}");
}

#[test]
fn doomed_key_spelled_bare_in_piggy_ids_is_still_refused() {
    let point = compressed_point();
    let doomed = id(Some("piggy-recipient-v1"), point.clone());
    let bare = id(None, point);
    let err = check_escrow_recipients(&vec![bare], &Some(doomed)).unwrap_err();
    assert!(err.contains("reprovisioning destroys"), "{err}");
}

#[test]
fn doomed_key_among_others_warns() {
    let doomed = recipient();
    let warning = check_escrow_recipients(&vec![same(&doomed), recipient()], &Some(doomed))
        .unwrap()
        .expect("a warning");
    assert!(warning.contains("other recipients"), "{warning}");
}

#[test]
fn card_id_short_label_prefers_serial_then_guid() {
    let with_serial = CardId {
        guid: "AABBCCDD00000000000000000000FFFF".into(),
        serial: Some(15909078),
        cn: None,
    };
    assert_eq!(with_serial.short_label(), "serial 15909078");
    let without = CardId {
        guid: "AABBCCDD00000000000000000000FFFF".into(),
        serial: None,
        cn: None,
    };
    assert_eq!(without.short_label(), "card AABBCCDD…");
}

// ------------------------------------------------------- across a socket

/// The other side of a channel, played from lines that were written
/// beforehand; what is sent to it is kept.
struct Channel {
    rpc: JsonRpcFrontend,
    incoming: Vec<String>,
    sent: Vec<(Option<u64>, String)>,
}

impl Channel {
    fn new(rpc: JsonRpcFrontend, responses: &str) -> Self {
        let mut incoming: Vec<String> = responses.split('\n').map(|l| format!("{l}\n")).collect();
        incoming.pop();
        Channel {
            rpc,
            incoming,
            sent: Vec::new(),
        }
    }

    fn receive(&mut self) -> Result<serde_json::Value, FrontendError> {
        loop {
            let line = if self.incoming.is_empty() {
                None
            } else {
                Some(self.incoming.remove(0))
            };
            match read_line(line.as_deref())? {
                LineRead::Blank => continue,
                LineRead::Object => {
                    let reply: serde_json::Value = serde_json::from_str(&line.unwrap()).unwrap();
                    let error = reply.get("error").map(|e| RpcError {
                        code: e["code"].as_i64().unwrap(),
                        message: e["message"].as_str().unwrap().to_string(),
                    });
                    return settle(error, reply.get("result").cloned());
                }
            }
        }
    }

    fn ask(&mut self, request: Request) -> Result<serde_json::Value, FrontendError> {
        if !self.rpc.initialized {
            let hello = self.rpc.call(request);
            self.sent.push((hello.id, hello.method));
            let reply = self.receive()?;
            self.rpc.greeted(reply["protocol"].as_str().unwrap_or(""))?;
        }
        let message = self.rpc.call(request);
        self.sent.push((message.id, message.method));
        self.receive()
    }
}

fn frontend(responses: &str) -> Channel {
    Channel::new(JsonRpcFrontend::new("test-op".into()), responses)
}

const HELLO: &str = r#"{"jsonrpc":"2.0","id":0,"result":{"protocol":"piggy-mgmt/1"}}"#;

#[test]
fn secret_request_handshakes_then_returns_secret() {
    let mut fe = frontend(&format!(
        "{HELLO}\n{}\n",
        r#"{"jsonrpc":"2.0","id":1,"result":{"secret":"123456"}}"#
    ));
    let reply = fe.ask(Request::Secret).unwrap();
    assert_eq!(reply["secret"].as_str(), Some("123456"));
    assert_eq!(fe.sent.len(), 2, "one initialize + one secret.request");
    assert_eq!(fe.sent[0], (Some(0), "initialize".to_string()));
    assert_eq!(fe.sent[1], (Some(1), "secret.request".to_string()));
    assert!(fe.rpc.initialized);
}

#[test]
fn already_initialized_skips_the_handshake() {
    let mut fe = Channel::new(
        JsonRpcFrontend::already_initialized("manage".into()),
        "{\"jsonrpc\":\"2.0\",\"id\":0,\"result\":{\"secret\":\"123456\"}}\n",
    );
    let reply = fe.ask(Request::Secret).unwrap();
    assert_eq!(reply["secret"].as_str(), Some("123456"));
    assert_eq!(fe.sent, vec![(Some(0), "secret.request".to_string())]);
}

#[test]
fn declined_error_maps_to_declined_abort() {
    let mut fe = frontend(&format!(
        "{HELLO}\n{}\n",
        r#"{"jsonrpc":"2.0","id":1,"error":{"code":-32010,"message":"operator cancelled"}}"#
    ));
    let err = fe.ask(Request::Secret).unwrap_err();
    assert!(
        matches!(err, FrontendError::Declined(ref m) if m.contains("cancelled")),
        "got {err:?}"
    );
    assert_eq!(INTERACTION_DECLINED, -32010);
}

#[test]
fn other_error_code_maps_to_protocol_error() {
    let mut fe = frontend(&format!(
        "{HELLO}\n{}\n",
        r#"{"jsonrpc":"2.0","id":1,"error":{"code":-32601,"message":"method not found"}}"#
    ));
    let err = fe.ask(Request::Confirm).unwrap_err();
    assert!(matches!(err, FrontendError::Protocol(_)), "got {err:?}");
    assert_eq!(
        err.text(),
        "protocol error: JSON-RPC error -32601: method not found"
    );
}

#[test]
fn blank_lines_between_objects_are_ignored() {
    let mut fe = frontend(&format!(
        "\n{HELLO}\n\n{}\n",
        r#"{"jsonrpc":"2.0","id":1,"result":{"confirmed":true}}"#
    ));
    let ok = fe.ask(Request::Confirm).unwrap();
    assert_eq!(ok["confirmed"].as_bool(), Some(true));
}

#[test]
fn closed_channel_is_a_transport_error() {
    let mut fe = frontend("");
    let err = fe.ask(Request::Confirm).unwrap_err();
    assert!(matches!(err, FrontendError::Transport(_)), "got {err:?}");
}

#[test]
fn version_mismatch_in_handshake_is_protocol_error() {
    let mut fe = frontend(&format!(
        "{}\n",
        r#"{"jsonrpc":"2.0","id":0,"result":{"protocol":"piggy-mgmt/2"}}"#
    ));
    let err = fe.ask(Request::Confirm).unwrap_err();
    assert!(matches!(err, FrontendError::Protocol(_)), "got {err:?}");
    assert_eq!(
        err.text(),
        "protocol error: frontend speaks \"piggy-mgmt/2\", expected piggy-mgmt/1"
    );
    assert!(!fe.rpc.initialized);
}

#[test]
fn progress_and_completed_emit_notifications_without_id() {
    let mut fe = frontend(&format!(
        "{HELLO}\n{}\n",
        r#"{"jsonrpc":"2.0","id":1,"result":{"confirmed":true}}"#
    ));
    let _ = fe.ask(Request::Confirm);
    let progress = fe.rpc.notify(Notice::Progress);
    assert_eq!(progress.method, "progress");
    assert_eq!(progress.id, None, "notifications carry no id");
    let completed = fe.rpc.notify(Notice::Completed);
    assert_eq!((completed.id, completed.method.as_str()), (None, "completed"));
}

#[test]
fn messages_are_lines_and_replies_must_say_something() {
    assert_eq!(write_line("{}"), "{}\n");
    assert!(matches!(
        settle::<u8>(None, None),
        Err(FrontendError::Protocol(e)) if e == "response missing both result and error"
    ));
    let mut rpc = JsonRpcFrontend::already_initialized("x".into());
    assert_eq!(rpc.call(Request::MgmtKey).method, "mgmt_key.request");
    assert_eq!(rpc.call(Request::SelectCard).method, "card_select.request");
    assert_eq!(rpc.call(Request::Confirm).method, "confirm.request");
    assert_eq!(rpc.next_id, 3);
}

#[test]
fn jsonrpc_without_socket_fails_fast() {
    let err = build_frontend(FrontendKind::Jsonrpc, None).unwrap_err();
    assert!(err.contains("--socket"), "got {err}");
}

#[test]
fn frontend_follows_the_options() {
    assert_eq!(
        build_frontend(FrontendKind::Tty, None).unwrap(),
        FrontendPlan::Tty
    );
    assert_eq!(
        build_frontend(FrontendKind::Jsonrpc, Some("/s".into())).unwrap(),
        FrontendPlan::Connect("/s".into())
    );
    assert_eq!(
        connect_failed("/s", "gone"),
        "connect frontend socket /s: gone"
    );
}

// ------------------------------------------------------ more of the terminal

#[test]
fn details_follow_the_card_in_a_prompt() {
    let req = SecretRequest {
        kind: SecretKind::CurrentPin,
        prompt: String::new(),
        card: Some(card()),
        slot: Some("9d".into()),
        attempts_remaining: Some(3),
        detail: Some("decrypt 5 secrets: a, b, c".into()),
    };
    assert_eq!(
        secret_prompt(&req),
        "Enter PIN — card 2835305C… · serial 15909078 · piv-auth@2835305C (slot 9d) · 3 tries left · decrypt 5 secrets: a, b, c [piggy card init]: "
    );
    let fe = TtyFrontend::new();
    let (prompt, context) = fe.request_secret(&req);
    assert_eq!(prompt, secret_prompt(&req));
    assert_eq!(
        context.as_deref(),
        Some("piggy card init: card guid 2835305C6024B3255557BF6901443404 serial 15909078 cn piv-auth@2835305C slot 9d")
    );
    assert_eq!(card_suffix(&None, &Some("9a".into())), " (slot 9a)");
}

#[test]
fn questions_show_what_they_offer() {
    let fe = TtyFrontend::new();
    for (default, hint) in [
        (Some(true), "ok? [Y/n] "),
        (Some(false), "ok? [y/N] "),
        (None, "ok? [y/n] "),
    ] {
        let q = ConfirmRequest {
            message: "ok?".into(),
            default,
        };
        assert_eq!(fe.confirm_prompt(&q), hint);
        assert_eq!(fe.confirm(&q, &Some("y\n".into())), Ok(true));
        match default {
            Some(b) => assert_eq!(fe.confirm(&q, &None), Ok(b)),
            None => assert_eq!(
                fe.confirm(&q, &None),
                Err(FrontendError::Declined(
                    "no answer (eof, no controlling tty)".into()
                ))
            ),
        }
        assert_eq!(
            fe.confirm(&q, &Some(" maybe\n".into())),
            Err(FrontendError::Declined("unrecognized answer \"maybe\"".into()))
        );
    }
}

#[test]
fn terminal_takes_the_only_card_and_tells_the_progress() {
    let fe = TtyFrontend::new();
    let one = CardSelectRequest {
        reason: "r".into(),
        candidates: vec![CardCandidate {
            card: card(),
            state: CardState::Provisioned,
        }],
    };
    assert_eq!(
        fe.select_card(&one).unwrap(),
        "2835305C6024B3255557BF6901443404"
    );
    let none = CardSelectRequest {
        reason: "r".into(),
        candidates: vec![],
    };
    assert!(fe
        .select_card(&none)
        .unwrap_err()
        .text()
        .contains("cannot disambiguate 0 candidate cards"));
    let mut ev = ProgressEvent {
        step: "s".into(),
        message: "Writing CHUID".into(),
        current: Some(2),
        total: Some(6),
    };
    assert_eq!(fe.progress(&ev), "[2/6] Writing CHUID");
    ev.total = None;
    assert_eq!(fe.progress(&ev), "Writing CHUID");
    let mut done = CompletedEvent {
        status: CompletedStatus::Success,
        summary: None,
        error: None,
    };
    assert_eq!(fe.completed(&done), "✓ done");
    done.status = CompletedStatus::Error;
    assert_eq!(fe.completed(&done), "✗ failed: unknown error");
    done.error = Some("x".into());
    assert_eq!(fe.completed(&done), "✗ failed: x");
}

// --------------------------------------------------------- where keys are sealed

/// A place with the given recipients.
struct Place(Vec<RecipientId>);

impl KeyEscrow for Place {
    fn pass_name(&self) -> String {
        "p".into()
    }
    fn recipients(&self) -> Vec<RecipientId> {
        self.0.iter().map(same).collect()
    }
    fn seal(&mut self, _key_hex: &str) -> Result<(), String> {
        Ok(())
    }
    fn rollback(&mut self) {}
    fn commit(&mut self) {}
}

struct Store(Vec<RecipientId>);

impl ManagementKeySealer for Store {
    type Sink = Place;
    fn prepare(&self, _pass_name: &str) -> Result<Place, String> {
        Ok(Place(self.0.iter().map(same).collect()))
    }
}

/// An operator who only listens.
struct Listener(Vec<(String, String)>);

impl Frontend for Listener {
    fn request_secret(&mut self, _req: SecretRequest) -> Result<String, FrontendError> {
        Err(FrontendError::Declined("not used".into()))
    }
    fn request_mgmt_key(&mut self, _req: MgmtKeyRequest) -> Result<MgmtKeyChoice, FrontendError> {
        Err(FrontendError::Declined("not used".into()))
    }
    fn confirm(&mut self, _req: ConfirmRequest) -> Result<bool, FrontendError> {
        Err(FrontendError::Declined("not used".into()))
    }
    fn select_card(&mut self, _req: CardSelectRequest) -> Result<String, FrontendError> {
        Err(FrontendError::Declined("not used".into()))
    }
    fn progress(&mut self, ev: ProgressEvent) {
        self.0.push((ev.step, ev.message));
    }
    fn completed(&mut self, _ev: CompletedEvent) {}
}

#[test]
fn required_seal_without_a_store_is_a_setup_error() {
    let mut fe = Listener(vec![]);
    let r = prepare_escrow(&SealMode::Always(None), &NoStore, "AB", &mut fe, || None);
    match r {
        Err(ProvisionError::Setup(e)) => assert_eq!(
            e,
            "cannot seal the management key to piv/AB/management-key: no password store is available to seal into"
        ),
        _ => panic!("there is no store"),
    }
    assert!(matches!(
        prepare_escrow(&SealMode::Offer, &NoStore, "AB", &mut fe, || None),
        Ok(None)
    ));
    assert!(matches!(
        prepare_escrow(&SealMode::Never, &NoStore, "AB", &mut fe, || None),
        Ok(None)
    ));
}

#[test]
fn doomed_recipient_is_told_of_before_the_card_is_touched() {
    let mut fe = Listener(vec![]);
    let doomed = recipient();
    let store = Store(vec![same(&doomed), recipient()]);
    let named = SealMode::Always(Some("x".into()));
    let r = prepare_escrow(&named, &store, "AB", &mut fe, || Some(same(&doomed)));
    assert!(matches!(r, Ok(Some(_))));
    assert_eq!(fe.0.len(), 1);
    assert_eq!(fe.0[0].0, "seal-warning");
    let store = Store(vec![same(&doomed)]);
    match prepare_escrow(&named, &store, "AB", &mut fe, || Some(same(&doomed))) {
        Err(ProvisionError::Setup(e)) => {
            assert!(e.starts_with("cannot seal the management key to x: the only recipient"))
        }
        _ => panic!("nobody could read it"),
    }
}

#[test]
fn report_keeps_the_key_off_the_output() {
    let r = report(&Ok(ProvisionOutcome {
        guid: "AB".into(),
        generated_mgmt_key: Some("KEY".into()),
        sealed_mgmt_key: None,
    }));
    assert_eq!(r.stdout.as_deref(), Some("AB"));
    assert_eq!(
        r.stderr,
        vec!["New management key (record this — it is NOT recoverable): KEY"]
    );
    assert_eq!(r.code, 0);
    let r = report(&Ok(ProvisionOutcome {
        guid: "AB".into(),
        generated_mgmt_key: None,
        sealed_mgmt_key: Some(SealedKey {
            pass_name: "p".into(),
            recipients: 1,
        }),
    }));
    assert_eq!(
        r.stderr,
        vec!["Management key sealed to p in the password store (1 recipient)."]
    );
    let r = report(&Err("x".into()));
    assert_eq!((r.stdout, r.code), (None, 1));
    assert_eq!(r.stderr, vec!["piggy card init: x"]);
}

fn two_candidates() -> CardSelectRequest {
    let candidate = |guid: &str| CardCandidate {
        card: CardId {
            guid: guid.into(),
            serial: None,
            cn: None,
        },
        state: CardState::Provisioned,
    };
    CardSelectRequest {
        reason: "r".into(),
        candidates: vec![candidate("AA"), candidate("BB")],
    }
}

#[test]
fn selected_card_is_one_of_the_candidates() {
    let req = two_candidates();
    assert_eq!(selected_card(&req, "BB".into()).unwrap(), "BB");
    assert_eq!(
        selected_card(&req, "CC".into()),
        Err(FrontendError::Protocol(
            "selected card is not one of the candidates: CC".into()
        ))
    );
}

#[test]
fn guids_are_drawn_anew() {
    let a = draw_guid().unwrap();
    let b = draw_guid().unwrap();
    assert_ne!(a, b);
    assert_eq!(guid_outcome(Ok(vec![7; 16])).unwrap(), [7; 16]);
    assert_eq!(
        guid_outcome(Err("no entropy".into())).unwrap_err().text(),
        "generate GUID: no entropy"
    );
}
