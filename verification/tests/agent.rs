//! The agent: its keys and PINs, the cards behind it, the agents it speaks
//! for, and what its clients read.
use piggy::agent_client::{
    decode_query_response, ecdh_reply, encode_names, parse_flat_cstrings, piggy_auth_sock_override,
    probe_extensions,
};
use piggy::card_oracle::{
    askpass_program, canonicalize_uncompressed, find_token_by_pubkey, piv_to_oracle_pin_error,
    run_askpass, CardEcdhOracle, OracleError, PinNeed, PinRefusal,
};
use piggy::cmd::agent::cak::{authenticate, challenge};
use piggy::cmd::agent::card::{
    newcomers, Reconciler, DEFAULT_PROBE_INTERVAL_SECS, PROBE_FAIL_LIMIT,
};
use piggy::cmd::agent::pins::{PinCache, PinSource};
use piggy::cmd::agent::rebox::{ReboxEvent, ReboxJob, ReboxStage};
use piggy::cmd::agent::session::{
    attest_reply, extension_kind, extract_ec_point_from_ssh_blob, parse_rebox_request, query_reply,
    read_u32_be, rebox_target, string_reply, AcquiredPin, AgentError, BoxInfo, CachedKey,
    CardRequest, EcdhPlan, ExtensionKind, Identity, Phase, PiggyAgent, Verdict, PIN_RETRY_LIMIT,
};
use piggy::cmd::agent::upstream::{
    merge_names, parse_upstream_spec, parse_upstream_specs, timed_out, Forward, Route, Upstream,
    UpstreamPool,
};
use piggy::cmd::agent::{
    bind_reclaiming_stale, info_line, key_list, kill_commands, kill_target, log_filter, parse_slot_spec,
    run as start_agent, shell_commands, spawn_probe_loop, use_csh, AgentArgs, Contact, KeyLoad,
    KeyLoadConfig, SlotInfo, Startup, TokenInfo, Watch,
};
use piggy::crypto::{EcCurve, PublicKey};
use piggy::piv::{Guid, PivAlgorithm};

// ------------------------------------------------------------------ helpers

fn g(seed: u8) -> Guid {
    Guid::from_bytes(&[seed; 16]).unwrap()
}

fn ed25519(seed: u8) -> PublicKey {
    let mut blob = vec![0, 0, 0, 11];
    blob.extend_from_slice(b"ssh-ed25519");
    blob.extend_from_slice(&[0, 0, 0, 32]);
    blob.extend_from_slice(&[seed; 32]);
    PublicKey { blob, sec1: None }
}

fn ec_blob(point: &[u8]) -> Vec<u8> {
    let mut blob = Vec::new();
    for part in [&b"ecdsa-sha2-nistp256"[..], &b"nistp256"[..], point] {
        blob.extend_from_slice(&(part.len() as u32).to_be_bytes());
        blob.extend_from_slice(part);
    }
    blob
}

fn ssh_string(body: &[u8]) -> Vec<u8> {
    let mut out = (body.len() as u32).to_be_bytes().to_vec();
    out.extend_from_slice(body);
    out
}

fn cached(guid: Guid, seed: u8, slot: u8) -> CachedKey {
    CachedKey {
        guid,
        reader_name: "MockReader".into(),
        slot_id: slot,
        algorithm: PivAlgorithm::Ed25519,
        public_key: ed25519(seed),
        comment: format!("seed-{seed}"),
    }
}

fn cached_ed25519(seed: u8, slot: u8) -> CachedKey {
    let guid = Guid::from_hex("995E171383029CDA0D9CDBDBAD580813").unwrap();
    cached(guid, seed, slot)
}

/// The generator of P-256, compressed and not.
fn p256_point() -> (Vec<u8>, Vec<u8>) {
    let x = "6b17d1f2e12c4247f8bce6e563a440f277037d812deb33a0f4a13945d898c296";
    let y = "4fe342e2fe1a7f9b8ee7eb4a7c0f9e162bce33576b315ececbb6406837bf51f5";
    let compressed = hex::decode(format!("03{x}")).unwrap();
    let uncompressed = hex::decode(format!("04{x}{y}")).unwrap();
    (compressed, uncompressed)
}

// --------------------------------------------------------------------- PINs

#[test]
fn empty_cache_has_nothing() {
    let c = PinCache::new();
    assert!(!c.has_any());
    assert!(c.lookup(&g(1)).is_none());
}

#[test]
fn verified_pins_are_per_card() {
    let mut c = PinCache::new();
    c.cache_verified(&g(1), "1111");
    c.cache_verified(&g(2), "2222");
    assert_eq!(c.lookup(&g(1)), Some(("1111".into(), PinSource::Verified)));
    assert_eq!(c.lookup(&g(2)), Some(("2222".into(), PinSource::Verified)));
    assert!(c.lookup(&g(3)).is_none(), "a third card gets nothing");
}

#[test]
fn offer_is_handed_to_any_unverified_card_as_offered() {
    let mut c = PinCache::new();
    c.offer("9999");
    assert_eq!(c.lookup(&g(1)), Some(("9999".into(), PinSource::Offered)));
    assert_eq!(c.lookup(&g(2)), Some(("9999".into(), PinSource::Offered)));
    c.cache_verified(&g(2), "2222");
    assert_eq!(c.lookup(&g(2)), Some(("2222".into(), PinSource::Verified)));
}

#[test]
fn rejected_offer_is_not_reoffered_to_that_card_only() {
    let mut c = PinCache::new();
    c.offer("9999");
    c.forget_for(&g(1));
    assert!(c.lookup(&g(1)).is_none());
    assert_eq!(c.lookup(&g(2)), Some(("9999".into(), PinSource::Offered)));
    c.offer("8888");
    assert_eq!(c.lookup(&g(1)), Some(("8888".into(), PinSource::Offered)));
}

#[test]
fn forget_for_drops_only_that_cards_verified_pin() {
    let mut c = PinCache::new();
    c.cache_verified(&g(1), "1111");
    c.cache_verified(&g(2), "2222");
    c.forget_for(&g(1));
    assert!(c.lookup(&g(1)).is_none());
    assert_eq!(c.verified_for(&g(2)).as_deref(), Some("2222"));
}

#[test]
fn forget_card_drops_its_pin_and_the_unverified_offer() {
    let mut c = PinCache::new();
    c.cache_verified(&g(1), "1111");
    c.cache_verified(&g(2), "2222");
    c.offer("9999");
    assert!(c.forget_card(&g(1)));
    assert!(c.lookup(&g(1)).is_none());
    assert!(c.offered().is_none());
    assert_eq!(
        c.verified_for(&g(2)).as_deref(),
        Some("2222"),
        "other card untouched"
    );
    assert!(!c.forget_card(&g(1)));
}

#[test]
fn clear_forgets_everything() {
    let mut c = PinCache::new();
    c.cache_verified(&g(1), "1111");
    c.offer("9999");
    c.clear();
    assert!(!c.has_any());
    assert!(c.lookup(&g(1)).is_none());
}

// -------------------------------------------------------------------- cards

/// The loop around the reconciler, without its waiting: `present` says which
/// cards each tick finds, or that the tick is skipped.
struct Loop {
    reconciler: Reconciler,
    served: Vec<CachedKey>,
    pins: PinCache,
    loads: u32,
}

impl Loop {
    fn new(served: Vec<CachedKey>, pins: &[(Guid, &str)]) -> Self {
        let mut cache = PinCache::new();
        for (guid, pin) in pins {
            cache.cache_verified(guid, pin);
        }
        Loop {
            reconciler: Reconciler::new(PROBE_FAIL_LIMIT),
            served,
            pins: cache,
            loads: 0,
        }
    }

    fn tick(&mut self, busy: bool, present: Vec<CachedKey>, usable: bool) {
        if busy {
            return;
        }
        self.loads += 1;
        let fresh = newcomers(&self.served, &present);
        let verdicts = vec![usable; fresh.len()];
        let out = self
            .reconciler
            .tick(&self.served, &present, &fresh, &verdicts, &mut self.pins);
        self.served = out.served;
    }

    fn served_guids(&self) -> Vec<String> {
        self.served.iter().map(|k| k.guid.to_hex()).collect()
    }
}

fn guid_a() -> Guid {
    g(0xAA)
}

fn guid_b() -> Guid {
    g(0xBB)
}

fn key_of(guid: Guid) -> CachedKey {
    cached(guid, guid.bytes[0], 0x9A)
}

#[test]
fn drops_keys_and_forgets_pin_after_fail_limit() {
    let a = guid_a();
    let mut l = Loop::new(vec![key_of(a)], &[(a, "1234")]);
    l.tick(false, vec![], true);
    l.tick(false, vec![], true);
    assert_eq!(l.served_guids(), vec![a.to_hex()], "kept below limit");
    assert_eq!(l.pins.verified_for(&a).as_deref(), Some("1234"));
    l.tick(false, vec![], true);
    assert!(l.served_guids().is_empty(), "dropped after fail_limit");
    assert_eq!(l.pins.verified_for(&a), None, "PIN forgotten on removal");
    assert!(l.loads >= 3, "loop actually ran");
}

#[test]
fn dropped_cards_are_told_of_once() {
    let (a, b) = (guid_a(), guid_b());
    let mut reconciler = Reconciler::new(1);
    let mut pins = PinCache::new();
    pins.cache_verified(&b, "2222");
    pins.offer("9999");
    let served = vec![key_of(a), key_of(b), key_of(a)];
    let out = reconciler.tick(&served, &vec![], &vec![], &vec![], &mut pins);
    let told: Vec<(String, bool)> = out.dropped.iter().map(|d| (d.0.to_hex(), d.1)).collect();
    assert_eq!(told, vec![(a.to_hex(), true), (b.to_hex(), true)]);
    let mut pins = PinCache::new();
    let out = Reconciler::new(1).tick(&served, &vec![], &vec![], &vec![], &mut pins);
    assert!(out.dropped.iter().all(|d| !d.1));
}

#[test]
fn debounces_a_transient_blip() {
    let a = guid_a();
    let mut l = Loop::new(vec![key_of(a)], &[(a, "1234")]);
    for i in 0..6 {
        let present = if i == 1 { vec![] } else { vec![key_of(a)] };
        l.tick(false, present, true);
    }
    assert_eq!(l.served_guids(), vec![a.to_hex()], "blip did not evict");
    assert_eq!(l.pins.verified_for(&a).as_deref(), Some("1234"));
}

#[test]
fn removing_one_card_keeps_the_sibling() {
    let (a, b) = (guid_a(), guid_b());
    let mut l = Loop::new(vec![key_of(a), key_of(b)], &[(a, "1111"), (b, "2222")]);
    for _ in 0..4 {
        l.tick(false, vec![key_of(b)], true);
    }
    assert_eq!(l.served_guids(), vec![b.to_hex()], "A dropped, B kept");
    assert_eq!(l.pins.verified_for(&a), None, "A's PIN forgotten");
    assert_eq!(
        l.pins.verified_for(&b).as_deref(),
        Some("2222"),
        "B's PIN survives"
    );
}

#[test]
fn adopts_a_newly_present_card_after_verify() {
    let a = guid_a();
    let mut l = Loop::new(vec![], &[]);
    l.tick(false, vec![key_of(a)], true);
    assert_eq!(l.served_guids(), vec![a.to_hex()], "adopted on insert");
}

#[test]
fn does_not_adopt_when_verify_fails() {
    let a = guid_a();
    let mut l = Loop::new(vec![], &[]);
    for _ in 0..4 {
        l.tick(false, vec![key_of(a)], false);
    }
    assert!(l.served_guids().is_empty(), "sign-incapable card not adopted");
}

#[test]
fn skips_ticks_while_request_holds_card_lock() {
    let a = guid_a();
    let mut l = Loop::new(vec![key_of(a)], &[(a, "1234")]);
    for _ in 0..7 {
        l.tick(true, vec![], true);
    }
    assert_eq!(l.loads, 0, "enumerated while a request held the lock");
    assert_eq!(l.served_guids(), vec![a.to_hex()], "card kept while busy");
    for _ in 0..3 {
        l.tick(false, vec![], true);
    }
    assert!(l.loads >= 3, "reconcile did not resume");
    assert!(
        l.served_guids().is_empty(),
        "absent card drops once lock frees"
    );
}

#[test]
fn probe_fail_limit_is_3() {
    assert_eq!(PROBE_FAIL_LIMIT, 3);
}

#[test]
fn default_probe_interval_is_10s() {
    assert_eq!(
        std::time::Duration::from_secs(DEFAULT_PROBE_INTERVAL_SECS),
        std::time::Duration::from_secs(10)
    );
}

#[test]
fn card_is_expected_only_when_its_signature_verifies() {
    let a = challenge().unwrap();
    let b = challenge().unwrap();
    assert_eq!(a.len(), 32);
    assert_ne!(a, b, "each attempt has its own challenge");
    assert!(authenticate(&Ok(true)));
    assert!(!authenticate(&Ok(false)));
    assert!(!authenticate(&Err("no slot 9E".into())));
}

// --------------------------------------------------------------- identities

#[test]
fn request_identities_empty() {
    let agent = PiggyAgent::new(Vec::new());
    assert!(agent.request_identities().is_empty());
}

#[test]
fn request_identities_returns_all_cached_keys() {
    let keys = vec![
        cached_ed25519(0x11, 0x9A),
        cached_ed25519(0x22, 0x9C),
        cached_ed25519(0x33, 0x9D),
    ];
    let comments: Vec<String> = keys.iter().map(|k| k.comment.clone()).collect();
    let pubs: Vec<Vec<u8>> = keys.iter().map(|k| k.public_key.blob.clone()).collect();
    let agent = PiggyAgent::new(keys);
    let ids = agent.request_identities();
    assert_eq!(ids.len(), 3);
    for (i, id) in ids.iter().enumerate() {
        assert_eq!(id.comment, comments[i]);
        assert_eq!(id.pubkey.blob, pubs[i]);
    }
}

#[test]
fn request_identities_idempotent() {
    let agent = PiggyAgent::new(vec![cached_ed25519(0x42, 0x9E)]);
    let first = agent.request_identities();
    let second = agent.request_identities();
    assert_eq!(first.len(), second.len());
    assert_eq!(first[0].pubkey.blob, second[0].pubkey.blob);
}

// --------------------------------------------------------- sign, lock, unlock

fn assert_agent_error_other_eq(err: &AgentError, expected: &str) {
    assert!(matches!(err, AgentError::Other(_)));
    assert!(
        err.text().contains(expected),
        "error message mismatch: expected to contain {expected:?}, got {}",
        err.text()
    );
}

#[test]
fn sign_unknown_key_errors_before_touching_pcsc() {
    let agent = PiggyAgent::new(Vec::new());
    let err = agent
        .plan_sign(&ed25519(0x01).blob, b"whatever", 0)
        .err()
        .unwrap();
    assert_agent_error_other_eq(&err, "key not found");
}

#[test]
fn sign_mismatched_key_errors_before_touching_pcsc() {
    let agent = PiggyAgent::new(vec![cached_ed25519(0x11, 0x9A)]);
    let err = agent
        .plan_sign(&ed25519(0x99).blob, b"whatever", 0)
        .err()
        .unwrap();
    assert_agent_error_other_eq(&err, "key not found");
}

#[test]
fn sign_hands_the_data_to_the_right_key() {
    let agent = PiggyAgent::new(vec![cached_ed25519(0x11, 0x9A), cached_ed25519(0x22, 0x9C)]);
    let plan = agent
        .plan_sign(&ed25519(0x22).blob, b"whatever", 0)
        .ok()
        .unwrap();
    assert_eq!(plan.key, 1);
    assert_eq!(plan.data, b"whatever".to_vec());
}

#[test]
fn unlock_populates_pin() {
    let mut agent = PiggyAgent::new(Vec::new());
    agent.unlock("1234".into());
    assert_eq!(agent.pin, Some("1234".into()));
}

#[test]
fn lock_clears_pin() {
    let mut agent = PiggyAgent::new(Vec::new());
    agent.unlock("abcd".into());
    agent.lock("ignored-by-impl");
    assert_eq!(agent.pin, None);
}

#[test]
fn unlock_overwrites_existing_pin() {
    let mut agent = PiggyAgent::new(Vec::new());
    agent.unlock("first".into());
    agent.unlock("second".into());
    assert_eq!(agent.pin, Some("second".into()));
}

#[test]
fn lock_when_empty_is_noop() {
    let mut agent = PiggyAgent::new(Vec::new());
    agent.lock("anything");
    assert_eq!(agent.pin, None);
    agent.lock("again");
    assert_eq!(agent.pin, None);
}

#[test]
fn lock_unlock_lock_cycle() {
    let mut agent = PiggyAgent::new(Vec::new());
    assert_eq!(agent.pin, None);
    agent.unlock("pin1".into());
    assert_eq!(agent.pin, Some("pin1".into()));
    agent.lock("x");
    assert_eq!(agent.pin, None);
    agent.unlock("pin2".into());
    assert_eq!(agent.pin, Some("pin2".into()));
}

#[test]
fn wrong_pins_are_not_tried_beyond_the_limit() {
    let mut agent = PiggyAgent::new(Vec::new());
    agent.unlock("0000".into());
    let mut op = CardRequest::new(0x9A);
    assert!(matches!(op.phase, Phase::NeedPin));
    op.on_pin(agent.cached_pin().unwrap());
    op.on_session();
    assert!(op
        .on_verdict(&mut agent, Verdict::Wrong("wrong".into()))
        .is_none());
    assert_eq!(agent.pin, None, "a wrong PIN is forgotten");
    assert_eq!(op.attempt, PIN_RETRY_LIMIT);
    op.on_pin(AcquiredPin {
        pin: "1111".into(),
        fresh: true,
    });
    op.on_session();
    let err = op
        .on_verdict(&mut agent, Verdict::Wrong("wrong".into()))
        .unwrap();
    assert_agent_error_other_eq(&err, "wrong");
    assert!(matches!(op.phase, Phase::Failed));
}

#[test]
fn fresh_pin_is_kept_once_the_card_accepts_it() {
    let mut agent = PiggyAgent::new(Vec::new());
    let mut op = CardRequest::new(0x9A);
    op.on_pin(AcquiredPin {
        pin: "1111".into(),
        fresh: true,
    });
    op.on_session();
    assert_eq!(agent.pin, None);
    assert!(op.on_verdict(&mut agent, Verdict::Accepted).is_none());
    assert_eq!(agent.pin, Some("1111".into()));
    assert!(matches!(op.phase, Phase::Operate));
    let mut free = CardRequest::new(0x9E);
    assert!(matches!(free.phase, Phase::Connect), "9E needs no PIN");
    free.on_session();
    assert!(matches!(free.phase, Phase::Operate));
}

// --------------------------------------------------------------- extensions

#[test]
fn extension_query_lists_supported_names() {
    assert_eq!(
        extension_kind("query").ok().unwrap(),
        ExtensionKind::Query
    );
    let resp = query_reply();
    assert_eq!(resp.name, "query");
    let body: Vec<u8> = resp.details;
    let mut names = Vec::new();
    let mut i = 0;
    while i + 4 <= body.len() {
        let len = u32::from_be_bytes([body[i], body[i + 1], body[i + 2], body[i + 3]]) as usize;
        i += 4;
        names.push(String::from_utf8(body[i..i + len].to_vec()).unwrap());
        i += len;
    }
    assert_eq!(
        i,
        body.len(),
        "body must fully parse with no trailing bytes"
    );
    assert!(names.iter().any(|n| n == "query"));
    assert!(names.iter().any(|n| n == "session-bind@openssh.com"));
    assert!(names.iter().any(|n| n == "pin-status@joyent.com"));
    assert_eq!(decode_query_response(&body).unwrap(), names);
}

#[test]
fn extension_session_bind_returns_none() {
    assert_eq!(
        extension_kind("session-bind@openssh.com").ok().unwrap(),
        ExtensionKind::SessionBind
    );
}

#[test]
fn extension_pin_status_empty_agent() {
    let agent = PiggyAgent::new(Vec::new());
    let body = agent.pin_status_reply().details;
    assert_eq!(body.len(), 2);
    assert_eq!(body[0], 0, "no PIN -> has_pin=0");
    assert_eq!(body[1], 0, "no keys -> has_card=0");
}

#[test]
fn extension_pin_status_with_keys_and_pin() {
    let mut agent = PiggyAgent::new(vec![cached_ed25519(0x77, 0x9A)]);
    agent.unlock("cached".into());
    assert_eq!(agent.pin_status_reply().details, vec![1, 1]);
}

#[test]
fn extension_pin_status_with_keys_no_pin() {
    let agent = PiggyAgent::new(vec![cached_ed25519(0x77, 0x9A)]);
    assert_eq!(agent.pin_status_reply().details, vec![0, 1]);
    assert_eq!(agent.pin_status_reply().name, "pin-status@joyent.com");
}

#[test]
fn extension_unknown_returns_error() {
    let err = extension_kind("bogus@example.com").err().unwrap();
    assert!(matches!(err, AgentError::UnsupportedCommand(_)));
    assert!(format!("{err:?}").contains("UnsupportedCommand"));
    assert_eq!(
        err.text(),
        "Agent: Protocol error: Command not supported (27)"
    );
}

#[test]
fn extension_name_is_case_sensitive() {
    let err = extension_kind("Query").err().unwrap();
    assert!(matches!(err, AgentError::UnsupportedCommand(_)));
}

#[test]
fn ecdh_reads_the_request_and_finds_the_key() {
    let (_, point) = p256_point();
    let card_blob = ec_blob(&point);
    let mut key = cached_ed25519(1, 0x9D);
    key.algorithm = PivAlgorithm::EcP256;
    key.public_key = PublicKey {
        blob: card_blob.clone(),
        sec1: Some(point.clone()),
    };
    let agent = PiggyAgent::new(vec![cached_ed25519(2, 0x9A), key]);
    let mut details = ssh_string(&card_blob);
    details.extend_from_slice(&ssh_string(&ec_blob(&point)));
    details.extend_from_slice(&[0, 0, 0, 0]);
    let details = ssh_string(&details);
    let plan = agent.plan_ecdh(&details).ok().unwrap();
    assert_eq!(plan.key, 1);
    assert_eq!(plan.slot, 0x9D);
    assert_eq!(plan.point, point);

    let mut bad = ssh_string(b"no key");
    bad.extend_from_slice(&ssh_string(&ec_blob(&point)));
    bad.extend_from_slice(&[0, 0, 0, 0]);
    let err = agent.plan_ecdh(&ssh_string(&bad)).err().unwrap();
    assert!(matches!(&err, AgentError::Other(e) if e.starts_with("ecdh: bad card key: ")));

    let empty = PiggyAgent::new(Vec::new());
    assert_agent_error_other_eq(
        &empty.plan_ecdh(&details).err().unwrap(),
        "ecdh: key not found",
    );
}

#[test]
fn attest_finds_the_key_and_counts_certificates() {
    let (_, point) = p256_point();
    let blob = ec_blob(&point);
    let mut key = cached_ed25519(1, 0x9A);
    key.public_key = PublicKey {
        blob: blob.clone(),
        sec1: Some(point),
    };
    let agent = PiggyAgent::new(vec![key]);
    let mut details = ssh_string(&blob);
    details.extend_from_slice(&[0, 0, 0, 0]);
    assert_eq!(agent.plan_attest(&ssh_string(&details)).ok().unwrap(), 0);
    assert_eq!(
        attest_reply(b"c", &None).details,
        [vec![0, 0, 0, 1], ssh_string(b"c")].concat()
    );
    assert_eq!(
        attest_reply(b"c", &Some(b"d".to_vec())).details,
        [vec![0, 0, 0, 2], ssh_string(b"c"), ssh_string(b"d")].concat()
    );
    let reply = string_reply(ExtensionKind::Ecdh, b"secret");
    assert_eq!(reply.name, "ecdh@joyent.com");
    assert_eq!(reply.details, ssh_string(b"secret"));
}

#[test]
fn rebox_opens_with_the_key_the_box_was_sealed_to() {
    let (compressed, uncompressed) = p256_point();
    let mut key = cached_ed25519(1, 0x9D);
    key.algorithm = PivAlgorithm::EcP256;
    key.public_key = PublicKey {
        blob: ec_blob(&uncompressed),
        sec1: Some(uncompressed.clone()),
    };
    let guid = key.guid;
    let agent = PiggyAgent::new(vec![key]);
    let by_key = BoxInfo {
        guid_slot: None,
        recipient_pubkey: compressed.clone(),
        ephemeral_pubkey: compressed.clone(),
        curve: EcCurve::NistP256,
    };
    let plan = agent.plan_rebox(&by_key).ok().unwrap();
    assert_eq!((plan.key, plan.slot), (0, 0x9D));
    assert_eq!(plan.point, uncompressed);
    let by_card = BoxInfo {
        guid_slot: Some((guid, 0x82)),
        recipient_pubkey: vec![],
        ephemeral_pubkey: compressed.clone(),
        curve: EcCurve::NistP256,
    };
    assert_eq!(agent.plan_rebox(&by_card).ok().unwrap().slot, 0x82);
    let stranger = BoxInfo {
        guid_slot: Some((g(9), 0x9D)),
        recipient_pubkey: vec![],
        ephemeral_pubkey: compressed,
        curve: EcCurve::NistP256,
    };
    assert_agent_error_other_eq(
        &agent.plan_rebox(&stranger).err().unwrap(),
        "ecdh-rebox: no matching key for GUID",
    );
}

#[test]
fn rebox_target_needs_a_whole_guid() {
    let mut details = ssh_string(b"box");
    details.extend_from_slice(&ssh_string(&[7; 16]));
    details.push(0x9D);
    details.extend_from_slice(&ssh_string(&ec_blob(&p256_point().1)));
    details.extend_from_slice(&[0, 0, 0, 0]);
    let request = parse_rebox_request(&ssh_string(&details)).ok().unwrap();
    assert_eq!(request.boxed, b"box".to_vec());
    let (target, slot) = rebox_target(&request).ok().unwrap().unwrap();
    assert_eq!(target.to_hex(), "07070707070707070707070707070707");
    assert_eq!(slot, 0x9D);
}

fn rebox_details(guid: &[u8], partner: &[u8]) -> Vec<u8> {
    let mut details = ssh_string(b"box");
    details.extend_from_slice(&ssh_string(guid));
    details.push(0x9D);
    details.extend_from_slice(&ssh_string(partner));
    details.extend_from_slice(&[0, 0, 0, 0]);
    ssh_string(&details)
}

fn rebox_job(guid: &[u8], partner: &[u8], steps: usize) -> ReboxJob {
    let mut job = ReboxJob::new(&rebox_details(guid, partner)).ok().unwrap();
    for step in 0..steps {
        job = job.on(match step {
            0 => ReboxEvent::Info(Ok(BoxInfo {
                guid_slot: None,
                recipient_pubkey: vec![],
                ephemeral_pubkey: vec![],
                curve: EcCurve::NistP256,
            })),
            1 => ReboxEvent::Planned(Ok(EcdhPlan {
                key: 0,
                slot: 0x9D,
                point: vec![4],
            })),
            2 => ReboxEvent::Secret(Ok(b"secret".to_vec())),
            _ => ReboxEvent::Done(Ok(())),
        });
    }
    job
}

fn rebox_refusal(job: ReboxJob) -> String {
    match job.stage {
        ReboxStage::Refused {
            error: AgentError::Other(e),
        } => e,
        ReboxStage::Refused { error } => error.text(),
        _ => panic!("not refused"),
    }
}

#[test]
fn rebox_goes_from_the_request_to_the_new_box() {
    let (_, point) = p256_point();
    let partner = ec_blob(&point);
    let job = rebox_job(&[7; 16], &partner, 0);
    assert!(matches!(&job.stage, ReboxStage::OpenBox { boxed } if boxed == b"box"));
    let job = rebox_job(&[7; 16], &partner, 3);
    assert!(matches!(&job.stage, ReboxStage::Unseal { secret } if secret == b"secret"));
    let job = rebox_job(&[7; 16], &partner, 4);
    assert!(matches!(&job.stage, ReboxStage::PartnerKey { point: p } if *p == point));
    let job = rebox_job(&[7; 16], &partner, 5);
    assert!(matches!(
        &job.stage,
        ReboxStage::TakeData { target: Some((guid, 0x9D)) } if guid.bytes == [7; 16]
    ));
    let job = rebox_job(&[], &partner, 5);
    assert!(matches!(&job.stage, ReboxStage::TakeData { target: None }));
    match job
        .on(ReboxEvent::Done(Ok(())))
        .on(ReboxEvent::Done(Ok(())))
        .on(ReboxEvent::Bytes(Ok(b"new".to_vec())))
        .stage
    {
        ReboxStage::Replied { reply } => {
            assert_eq!(reply.name, "ecdh-rebox@joyent.com");
            assert_eq!(reply.details, ssh_string(b"new"));
        }
        _ => panic!("no reply"),
    }
}

#[test]
fn every_failed_step_of_a_rebox_is_told() {
    let partner = ec_blob(&p256_point().1);
    let no = || ReboxEvent::Done(Err("no".into()));
    let refused = |steps: usize, e: ReboxEvent| rebox_refusal(rebox_job(&[], &partner, steps).on(e));
    assert_eq!(
        refused(0, ReboxEvent::Info(Err("no".into()))),
        "ecdh-rebox: bad box: no"
    );
    assert_eq!(
        refused(1, ReboxEvent::Planned(Err(AgentError::Other("who".into())))),
        "who"
    );
    assert_eq!(
        refused(2, ReboxEvent::Secret(Err(AgentError::Failure))),
        "Generic agent failure"
    );
    assert_eq!(refused(3, no()), "ecdh-rebox: decrypt: no");
    assert_eq!(refused(4, no()), "no");
    assert_eq!(refused(5, no()), "ecdh-rebox: take_data: no");
    assert_eq!(refused(6, no()), "ecdh-rebox: seal: no");
    assert_eq!(
        refused(7, ReboxEvent::Bytes(Err("no".into()))),
        "ecdh-rebox: serialize: no"
    );
    let bad_guid = rebox_refusal(rebox_job(&[7; 3], &partner, 5));
    assert_eq!(bad_guid, "ecdh-rebox: bad target GUID: expected 16 bytes, got 3");
    assert!(matches!(
        rebox_job(&[], b"junk", 4).stage,
        ReboxStage::Refused { .. }
    ));
    assert!(ReboxJob::new(b"junk").is_err());
}

#[test]
fn card_oracle_forgets_its_pins() {
    let mut oracle = CardEcdhOracle::new();
    oracle.remember(&g(1), "1111".into());
    oracle.remember(&g(1), "2222".into());
    assert_eq!(oracle.known(&g(1)).as_deref(), Some("2222"));
    oracle.forget_all();
    assert_eq!(oracle.known(&g(1)), None);
}

#[test]
fn numbers_and_points_are_read_from_requests() {
    assert_eq!(read_u32_be(&[9, 0, 0, 1, 2], 1, "x").unwrap(), 0x102);
    assert!(read_u32_be(&[0, 0, 1], 0, "x").is_err());
    let (_, point) = p256_point();
    assert_eq!(extract_ec_point_from_ssh_blob(&ec_blob(&point)).unwrap(), point);
    assert!(extract_ec_point_from_ssh_blob(&[0, 0, 0, 9]).is_err());
}

// ---------------------------------------------------------------- upstreams

#[test]
fn parse_spec_ok() {
    let up = parse_upstream_spec("launchd=/tmp/l.sock").ok().unwrap();
    assert_eq!(up.name, "launchd");
    assert_eq!(up.path, "/tmp/l.sock");
}

#[test]
fn parse_spec_path_may_contain_equals() {
    let up = parse_upstream_spec("a=/tmp/x=y.sock").ok().unwrap();
    assert_eq!(up.path, "/tmp/x=y.sock");
}

#[test]
fn parse_spec_rejects_missing_equals() {
    let err = parse_upstream_spec("launchd").err().unwrap();
    assert!(err.contains("expected NAME=SOCKET_PATH"), "{err}");
}

#[test]
fn parse_spec_rejects_empty_name() {
    let err = parse_upstream_spec("=/tmp/l.sock").err().unwrap();
    assert!(err.contains("empty name"), "{err}");
}

#[test]
fn parse_spec_rejects_empty_path() {
    let err = parse_upstream_spec("launchd=").err().unwrap();
    assert!(err.contains("empty socket path"), "{err}");
}

#[test]
fn parse_specs_accepts_unique_names() {
    let specs = vec!["a=/tmp/a.sock".to_string(), "b=/tmp/b.sock".to_string()];
    let ups = parse_upstream_specs(&specs).ok().unwrap();
    assert_eq!(ups.len(), 2);
    assert_eq!(ups[0].name, "a");
    assert_eq!(ups[1].name, "b");
}

#[test]
fn parse_specs_rejects_duplicate_names() {
    let specs = vec!["a=/tmp/a.sock".to_string(), "a=/tmp/b.sock".to_string()];
    let err = parse_upstream_specs(&specs).err().unwrap();
    assert!(err.contains("duplicate --upstream name"), "{err}");
}

fn pool_of(names: &[&str]) -> UpstreamPool {
    let upstreams = names
        .iter()
        .map(|n| Upstream {
            name: n.to_string(),
            path: format!("/tmp/{n}.sock"),
        })
        .collect();
    UpstreamPool::new(upstreams, 5)
}

fn identity(seed: u8, comment: &str) -> Identity {
    Identity {
        pubkey: ed25519(seed),
        comment: comment.into(),
    }
}

#[test]
fn empty_pool_is_empty_and_lists_nothing() {
    let mut pool = UpstreamPool::empty();
    assert!(pool.is_empty());
    assert!(pool.refresh_identities(&vec![]).is_empty());
}

#[test]
fn list_identities_returns_upstream_keys_in_order() {
    let mut pool = pool_of(&["stub"]);
    let ids = pool.refresh_identities(&vec![Some(vec![
        identity(0xA1, "up-key-1"),
        identity(0xA2, "up-key-2"),
    ])]);
    assert_eq!(ids.len(), 2);
    assert_eq!(ids[0].comment, "up-key-1");
    assert_eq!(ids[1].comment, "up-key-2");
}

#[test]
fn list_identities_skips_dead_upstream_keeps_live_one() {
    let mut pool = pool_of(&["dead", "live"]);
    let ids = pool.refresh_identities(&vec![None, Some(vec![identity(0xB1, "live-key")])]);
    assert_eq!(ids.len(), 1);
    assert_eq!(ids[0].comment, "live-key");
}

#[test]
fn sign_routes_to_owning_upstream() {
    let mut pool = pool_of(&["stub"]);
    let key = ed25519(0xC1).blob;
    assert!(matches!(pool.sign(&key, false), Route::Refresh));
    pool.refresh_identities(&vec![Some(vec![identity(0xC1, "sign-key")])]);
    assert!(matches!(pool.sign(&key, true), Route::Ask(0)));
}

#[test]
fn sign_unknown_key_errors_after_refresh() {
    let mut pool = pool_of(&["stub"]);
    pool.refresh_identities(&vec![Some(vec![identity(0xD1, "held-key")])]);
    match pool.sign(&ed25519(0xEE).blob, true) {
        Route::Refuse(err) => assert!(
            err.text().contains("no upstream agent holds"),
            "unexpected error: {}",
            err.text()
        ),
        _ => panic!("nobody holds the key"),
    }
}

#[test]
fn query_names_unions_across_upstreams() {
    let pool = pool_of(&["a", "b"]);
    let names = pool.query_extension_names(&vec![
        Some(vec!["foo@example".into(), "bar@example".into()]),
        Some(vec!["bar@example".into(), "baz@example".into()]),
    ]);
    for want in ["foo@example", "bar@example", "baz@example"] {
        assert!(names.iter().any(|n| n == want), "missing {want}: {names:?}");
    }
}

#[test]
fn merged_names_are_advertised_once() {
    let known: Vec<String> = vec!["query".into(), "a@x".into()];
    let more: Vec<String> = vec!["b@x".into(), "a@x".into(), "b@x".into()];
    let names = merge_names(known, &more);
    assert_eq!(names, ["query", "a@x", "b@x"]);
    let details = encode_names(&names);
    assert_eq!(&details[..9], &[0, 0, 0, 5, b'q', b'u', b'e', b'r', b'y']);
    assert_eq!(decode_query_response(&details).unwrap(), names);
    assert!(encode_names(&vec![]).is_empty());
}

#[test]
fn forward_extension_first_supporting_upstream_wins() {
    let pool = pool_of(&["a", "b"]);
    assert_eq!(pool.forward_extension(0, false), Forward::Ask(0));
    assert_eq!(pool.forward_extension(1, false), Forward::Ask(1));
    assert_eq!(pool.forward_extension(2, true), Forward::Answered);
}

#[test]
fn forward_extension_exhaustion_is_failure() {
    let pool = pool_of(&["a"]);
    assert_eq!(pool.forward_extension(0, false), Forward::Ask(0));
    assert_eq!(pool.forward_extension(1, false), Forward::Exhausted);
    assert!(matches!(
        pool.forward_extension(1, false).refusal(),
        Some(AgentError::Failure)
    ));
    assert!(Forward::Ask(0).refusal().is_none());
}

#[test]
fn add_identity_routes_only_to_designated_upstream() {
    let pool = pool_of(&["a", "b"]).with_add_new_keys_to("b").ok().unwrap();
    assert_eq!(pool.add_target().ok().unwrap(), 1);
}

#[test]
fn add_identity_without_target_refuses() {
    let pool = pool_of(&["a"]);
    let err = pool.add_target().err().unwrap();
    assert!(
        err.text().contains("no --add-new-keys-to"),
        "unexpected error: {}",
        err.text()
    );
}

#[test]
fn status_reports_reachable_and_dead_upstreams_in_order() {
    let pool = pool_of(&["live", "dead"]);
    let st = pool.status(&vec![Some(1), None]);
    assert_eq!(st.len(), 2);
    assert_eq!(
        (st[0].name.as_str(), st[0].reachable, st[0].keys),
        ("live", true, 1)
    );
    assert_eq!(
        (st[1].name.as_str(), st[1].reachable, st[1].keys),
        ("dead", false, 0)
    );
    assert_eq!(
        timed_out("live", "sign").text(),
        "Other error: upstream live: sign timed out"
    );
}

#[test]
fn with_add_new_keys_to_rejects_unknown_name() {
    let err = pool_of(&["a"]).with_add_new_keys_to("nope").err().unwrap();
    assert!(err.contains("matches no --upstream name"), "{err}");
}

// ------------------------------------------------------------------ startup

fn agent_args() -> AgentArgs {
    AgentArgs {
        guid: None,
        all_cards: true,
        cak: None,
        socket: None,
        slot_spec: None,
        kill: false,
        debug: 0,
        foreground_debug: false,
        info: false,
        sh_format: false,
        csh_format: false,
        upstream: vec![],
        agent_timeout: 5,
        add_new_keys_to: None,
        proxy_only: false,
        command: vec![],
    }
}

#[test]
fn startup_follows_the_options() {
    let mut args = agent_args();
    args.slot_spec = Some("9a, 9E".into());
    args.upstream = vec!["soft=/tmp/s.sock".into()];
    args.add_new_keys_to = Some("soft".into());
    match start_agent(&args) {
        Startup::Run(plan) => {
            assert_eq!(plan.config.allowed_slots, Some(vec![0x9a, 0x9e]));
            assert!(plan.config.all_cards && plan.load_cards);
            assert_eq!(plan.pool.unwrap().add_target().ok().unwrap(), 0);
        }
        _ => panic!("these options make sense"),
    }
    let mut args = agent_args();
    args.add_new_keys_to = Some("hard".into());
    args.upstream = vec!["soft=/tmp/s.sock".into()];
    match start_agent(&args) {
        Startup::Refuse(e) => assert_eq!(
            e,
            "--add-new-keys-to \"hard\" matches no --upstream name"
        ),
        _ => panic!("no such upstream"),
    }
    let mut args = agent_args();
    args.kill = true;
    assert!(matches!(start_agent(&args), Startup::Kill));
}

#[test]
fn startup_reads_the_key_that_cards_must_prove() {
    let mut args = agent_args();
    args.cak = Some("not a key".into());
    match start_agent(&args) {
        Startup::Refuse(e) => assert!(e.starts_with("invalid -K Card Authentication Key: "), "{e}"),
        _ => panic!("not a key"),
    }
    args.cak = Some(
        "ssh-ed25519 AAAAC3NzaC1lZDI1NTE5AAAAIAcHBwcHBwcHBwcHBwcHBwcHBwcHBwcHBwcHBwcHBwcH".into(),
    );
    match start_agent(&args) {
        Startup::Run(plan) => assert_eq!(plan.config.cak.unwrap().blob, ed25519(7).blob),
        _ => panic!("a key"),
    }
}

#[test]
fn slot_lists_name_known_slots() {
    assert_eq!(parse_slot_spec("9a,82").unwrap(), vec![0x9a, 0x82]);
    assert!(parse_slot_spec("zz").unwrap_err().contains("invalid slot"));
    assert!(parse_slot_spec("11").unwrap_err().contains("unknown PIV slot"));
}

fn token(seed: u8, slots: &[u8]) -> TokenInfo {
    TokenInfo {
        guid: g(seed),
        short_id: format!("{seed:02X}"),
        reader_name: "r".into(),
        slots: slots
            .iter()
            .map(|s| SlotInfo {
                id: *s,
                algorithm: PivAlgorithm::Ed25519,
                public_key: ed25519(*s),
            })
            .collect(),
    }
}

#[test]
fn keys_are_loaded_from_cards_that_prove_themselves() {
    let tokens = vec![token(1, &[0x9a]), token(2, &[0x9a, 0x9d])];
    let config = KeyLoadConfig {
        guid_filter: None,
        all_cards: true,
        allowed_slots: Some(vec![0x9d]),
        cak: Some(ed25519(9)),
    };
    let mut load = KeyLoad::new();
    assert_eq!(load.advance(&tokens, &config), Some(0));
    load.authenticated(&tokens, &config, false);
    assert_eq!(load.advance(&tokens, &config), Some(1));
    load.authenticated(&tokens, &config, true);
    assert_eq!(load.advance(&tokens, &config), None);
    assert_eq!(load.keys.len(), 1);
    assert_eq!(load.keys[0].slot_id, 0x9d);
    assert_eq!(load.keys[0].guid.to_hex(), g(2).to_hex());
}

#[test]
fn key_list_is_in_openssh_format() {
    assert_eq!(
        key_list(&vec![cached_ed25519(7, 0x9A)]),
        vec!["9A Ed25519 ssh-ed25519 AAAAC3NzaC1lZDI1NTE5AAAAIAcHBwcHBwcHBwcHBwcHBwcHBwcHBwcHBwcHBwcHBwcH"]
    );
}

#[test]
fn bind_reclaims_stale_socket_file() {
    assert!(bind_reclaiming_stale(Contact::Refused));
}

#[test]
fn bind_refuses_to_clobber_live_listener() {
    assert!(!bind_reclaiming_stale(Contact::Answered));
    assert!(!bind_reclaiming_stale(Contact::Failed));
}

#[test]
fn shells_are_told_in_their_own_words() {
    assert_eq!(
        shell_commands(false, "/s", 7),
        "SSH_AUTH_SOCK=/s; export SSH_AUTH_SOCK;\nSSH_AGENT_PID=7; export SSH_AGENT_PID;\necho Agent pid 7;\n"
    );
    assert_eq!(
        shell_commands(true, "/s", 7),
        "setenv SSH_AUTH_SOCK /s;\nsetenv SSH_AGENT_PID 7;\necho Agent pid 7;\n"
    );
    assert!(use_csh(false, false, &Some("/bin/tcsh".into())));
    assert!(!use_csh(false, true, &Some("/bin/tcsh".into())));
    assert!(use_csh(true, true, &None));
    assert_eq!(kill_target(Some("42".into())).unwrap(), 42);
    assert_eq!(kill_target(Some("4x".into())).unwrap_err(), "invalid SSH_AGENT_PID");
    assert_eq!(kill_target(None).unwrap_err(), "SSH_AGENT_PID not set");
    assert_eq!(
        kill_commands(42),
        "unset SSH_AUTH_SOCK;\nunset SSH_AGENT_PID;\necho Agent pid 42 killed;\n"
    );
    assert_eq!(info_line(0x9a, "EcP256", "ssh x"), "9A EcP256 ssh x");
    assert_eq!(log_filter(0, false), "piggy=info");
    assert_eq!(log_filter(0, true), "piggy=debug");
    assert_eq!(log_filter(1, false), "piggy=debug");
    assert_eq!(log_filter(2, false), "piggy=trace");
    assert_eq!(spawn_probe_loop(true, false, true), Watch::Reauthenticate);
    assert_eq!(spawn_probe_loop(true, false, false), Watch::Presence);
    assert_eq!(spawn_probe_loop(false, true, false), Watch::Nothing);
    assert_eq!(spawn_probe_loop(false, false, false), Watch::Recover);
}

// ------------------------------------------------------------------- client

#[test]
fn auth_sock_override_prefers_set_nonempty() {
    assert_eq!(
        piggy_auth_sock_override(Some("/run/piggy.sock".into())).as_deref(),
        Some(&b"/run/piggy.sock"[..])
    );
    assert_eq!(
        piggy_auth_sock_override(Some("".into())),
        None,
        "empty must be treated as unset"
    );
    assert_eq!(piggy_auth_sock_override(None), None);
}

const ECDH_EXT: &str = "ecdh@joyent.com";

fn flat_cstrings(names: &[&str]) -> Vec<u8> {
    let mut buf = Vec::new();
    for name in names {
        buf.extend_from_slice(&(name.len() as u32).to_be_bytes());
        buf.extend_from_slice(name.as_bytes());
    }
    buf
}

#[test]
fn decode_query_response_flat_cstrings() {
    let buf = flat_cstrings(&["query", ECDH_EXT]);
    let names = decode_query_response(&buf).expect("flat encoding");
    assert_eq!(names, vec!["query".to_string(), ECDH_EXT.to_string()]);
}

#[test]
fn decode_query_response_wrapped_blob() {
    let inner = flat_cstrings(&["query", ECDH_EXT]);
    let mut buf = Vec::new();
    buf.extend_from_slice(&(inner.len() as u32).to_be_bytes());
    buf.extend_from_slice(&inner);
    let names = decode_query_response(&buf).expect("wrapped encoding");
    assert_eq!(names, vec!["query".to_string(), ECDH_EXT.to_string()]);
}

#[test]
fn decode_query_response_truncated_is_error() {
    let full = flat_cstrings(&["query", ECDH_EXT]);
    let err = decode_query_response(&full[..full.len() - 3]).expect_err("truncated must fail");
    assert!(err.contains("truncated"), "got: {err}");
}

#[test]
fn decode_query_response_single_flat_entry_errors_like_pivy() {
    let buf = flat_cstrings(&[ECDH_EXT]);
    decode_query_response(&buf).expect_err("single flat entry aliases the wrapped shape");
}

#[test]
fn malformed_lists_are_told_apart() {
    assert_eq!(
        parse_flat_cstrings(&[0, 0]).unwrap_err(),
        "query response: truncated length prefix (2 trailing bytes)"
    );
    assert_eq!(
        parse_flat_cstrings(&[0, 0, 0, 3, b'a']).unwrap_err(),
        "query response: truncated name (want 3 bytes, have 1)"
    );
    assert!(parse_flat_cstrings(&[0, 0, 0, 1, 0xFF])
        .unwrap_err()
        .starts_with("query response: non-UTF-8 extension name: "));
    assert!(probe_extensions(None).unwrap_err().contains("plain SUCCESS"));
    assert!(matches!(ecdh_reply(None), Err(OracleError::Protocol(_))));
    assert_eq!(ecdh_reply(Some(vec![1])).ok().unwrap(), vec![1]);
}

// ------------------------------------------------------------- direct cards

#[test]
fn askpass_supplier_returns_pin_from_stdout() {
    assert_eq!(
        askpass_program(Some("/bin/askpass".into())).ok().unwrap(),
        "/bin/askpass"
    );
    assert_eq!(
        run_askpass(true, "exit status: 0", "123456\r\n").ok().unwrap(),
        "123456"
    );
    assert!(matches!(
        run_askpass(true, "exit status: 0", "\n"),
        Err(OracleError::Other(e)) if e == "askpass returned empty PIN"
    ));
}

#[test]
fn askpass_supplier_errors_when_unset() {
    for unset in [None, Some(String::new())] {
        assert!(matches!(
            askpass_program(unset),
            Err(OracleError::Other(e)) if e.contains("SSH_ASKPASS")
        ));
    }
}

#[test]
fn askpass_supplier_errors_on_nonzero_exit() {
    assert!(matches!(
        run_askpass(false, "exit status: 1", "123456\n"),
        Err(OracleError::Other(e)) if e == "askpass exited with exit status: 1"
    ));
}

#[test]
fn canonicalize_passthrough_uncompressed() {
    let (_, uncompressed) = p256_point();
    assert_eq!(
        canonicalize_uncompressed(&uncompressed).ok().unwrap(),
        uncompressed
    );
}

#[test]
fn canonicalize_decompresses_p256() {
    let (compressed, uncompressed) = p256_point();
    assert_eq!(
        canonicalize_uncompressed(&compressed).ok().unwrap(),
        uncompressed
    );
}

#[test]
fn canonicalize_refuses_what_is_no_point() {
    assert!(matches!(
        canonicalize_uncompressed(&[2; 12]),
        Err(OracleError::InvalidPubkey(e))
            if e == "compressed point of length 12 does not match P-256 or P-384"
    ));
    assert!(matches!(
        canonicalize_uncompressed(&[0xFF; 33]),
        Err(OracleError::InvalidPubkey(e)) if e.starts_with("decompress: ")
    ));
}

#[test]
fn direct_card_is_found_by_its_key_and_asked_once() {
    let points = vec![None, Some(vec![4, 1]), Some(vec![4, 2])];
    assert_eq!(find_token_by_pubkey(&points, &[4, 2]), Some(2));
    assert_eq!(find_token_by_pubkey(&points, &[4, 3]), None);
    let guids = vec![g(1), g(2), g(3)];
    let mut oracle = CardEcdhOracle::new();
    match oracle.ecdh(&guids, &points, &[4, 2]) {
        Ok((2, PinNeed::Ask(prompt))) => assert_eq!(
            prompt,
            "PIV PIN for token 03030303030303030303030303030303"
        ),
        _ => panic!("the PIN is asked for first"),
    }
    oracle.remember(&g(3), "123456".into());
    match oracle.ecdh(&guids, &points, &[4, 2]) {
        Ok((2, PinNeed::Known(pin))) => assert_eq!(pin, "123456"),
        _ => panic!("the PIN is known"),
    }
    assert!(matches!(
        oracle.ecdh(&guids, &points, &[4, 9]),
        Err(OracleError::NoKey)
    ));
}

#[test]
fn refused_pins_are_no_transport_errors() {
    assert!(matches!(
        piv_to_oracle_pin_error(PinRefusal::Incorrect { retries: 2 }),
        OracleError::Other(e) if e == "wrong PIN, 2 retries remaining"
    ));
    assert!(matches!(
        piv_to_oracle_pin_error(PinRefusal::Blocked),
        OracleError::Other(e) if e == "PIN blocked"
    ));
    assert!(matches!(
        piv_to_oracle_pin_error(PinRefusal::Failed("gone".into())),
        OracleError::Transport(e) if e == "verify_pin: gone"
    ));
}
