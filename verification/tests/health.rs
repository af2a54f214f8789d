//! The health report: probes in, points out.
use piggy::agent_client::SignProbe;
use piggy::cmd::agent::upstream::UpstreamStatus;
use piggy::health::gather::{
    cards_probe, choose_socket, gather, resolve_socket, slot_probe, stat_socket_path, Gathering,
    NextProbe, PathKind, SlotRead,
};
use piggy::health::render::{
    format_sign_probes, render_into, run_code, select_sink, sign_test_code, HealthSink, NdjsonSink,
    Report, SinkKind, TapSink,
};
use piggy::health::service::{
    enrich_unparseable_with_exit, parse_launchctl_print, parse_systemctl_show,
};
use piggy::health::{
    evaluate, evaluate_as, exit_code, socket_skip_reason, CardInfo, CheckResult, Format, PcscProbe,
    Probes, ServiceProbe, SlotProbe, SocketProbe, Status, ECDH_EXT, LAUNCHD_POINT_NAME,
    SERVICE_POINT_NAME,
};

#[test]
fn format_sign_probes_marks_pass_and_fail() {
    let probes = vec![
        SignProbe {
            comment: "PIV_slot_9A AAAA".into(),
            fingerprint: "SHA256:aaa".into(),
            outcome: Ok((
                "ecdsa-sha2-nistp256".into(),
                72,
                118,
            )),
        },
        SignProbe {
            comment: "PIV_slot_9C BBBB".into(),
            fingerprint: "SHA256:bbb".into(),
            outcome: Err("agent refused operation".into()),
        },
    ];
    let out = format_sign_probes(&probes);
    assert!(out.contains("PASS  PIV_slot_9A AAAA"), "got: {out}");
    assert!(out.contains("ecdsa-sha2-nistp256"), "got: {out}");
    assert!(out.contains("72 bytes"), "got: {out}");
    assert!(out.contains("FAIL  PIV_slot_9C BBBB"), "got: {out}");
    assert!(out.contains("agent refused operation"), "got: {out}");
}

#[test]
fn format_sign_probes_handles_no_identities() {
    let out = format_sign_probes(&vec![]);
    assert!(out.contains("no identities"), "got: {out}");
}

fn empty_probes() -> Probes {
    Probes {
        service: ServiceProbe::NotAvailable("non-linux".into()),
        socket: SocketProbe::Unresolved,
        agent: None,
        extensions: None,
        upstreams: None,
        pcsc: PcscProbe::Error("PC/SC unavailable".into()),
        cards: None,
    }
}

fn healthy_probes() -> Probes {
    Probes {
        service: ServiceProbe::Unit {
            load_state: "loaded".into(),
            active_state: "active".into(),
            sub_state: "running".into(),
            exec_main_status: "0".into(),
        },
        socket: SocketProbe::Resolved {
            source: "PIGGY_AUTH_SOCK",
            path: "/run/user/1000/piggy-agent.sock".into(),
            is_socket: true,
            stat_detail: "unix socket".into(),
        },
        agent: Some(Ok(vec!["card-a".into(), "card-b".into(), "card-c".into()])),
        extensions: Some(Ok(vec![ECDH_EXT.into(), "other-ext".into()])),
        upstreams: None,
        pcsc: PcscProbe::Reachable,
        cards: Some(vec![CardInfo {
            reader: "Yubico YubiKey CCID 00 00".into(),
            guid: "DEADBEEFDEADBEEF".into(),
            slot_9d: SlotProbe::Populated,
        }]),
    }
}

fn diag<'a>(r: &'a CheckResult, key: &str) -> Option<&'a str> {
    r.diags
        .iter()
        .find(|(k, _)| k == key)
        .map(|(_, v)| v.as_str())
}

#[test]
fn upstream_points_append_after_base_nine() {
    let mut probes = healthy_probes();
    probes.upstreams = Some(Ok(vec![
        UpstreamStatus {
            name: "soft".into(),
            reachable: true,
            keys: 2,
        },
        UpstreamStatus {
            name: "launchd".into(),
            reachable: false,
            keys: 0,
        },
    ]));
    let results = evaluate(&probes);
    assert_eq!(results.len(), 11);
    assert_eq!(results[9].name, "agent: upstream soft answers");
    assert!(matches!(results[9].status, Status::Pass));
    assert_eq!(diag(&results[9], "keys"), Some("2"));
    assert_eq!(results[10].name, "agent: upstream launchd answers");
    assert!(matches!(results[10].status, Status::Fail));
}

#[test]
fn upstream_status_probe_error_is_single_fail_point() {
    let mut probes = healthy_probes();
    probes.upstreams = Some(Err("timeout after 2s".into()));
    let results = evaluate(&probes);
    assert_eq!(results.len(), 10);
    assert_eq!(results[9].name, "agent: upstream status answers");
    assert!(matches!(results[9].status, Status::Fail));
    assert_eq!(diag(&results[9], "error"), Some("timeout after 2s"));
}

#[test]
fn evaluate_always_yields_nine_points_in_order() {
    let results = evaluate(&empty_probes());
    assert_eq!(results.len(), 9);
    let names: Vec<&str> = results.iter().map(|r| r.name.as_str()).collect();
    assert_eq!(
        names,
        vec![
            SERVICE_POINT_NAME,
            "agent: socket resolved",
            "agent: socket exists",
            "agent: answers request_identities",
            "agent: advertises ecdh extension",
            "pcsc: daemon reachable",
            "card: PIV card attached",
            "card: key-management slot 9D populated",
            "agent serves attached card",
        ]
    );
}

#[test]
fn unresolved_socket_skips_dependents() {
    let results = evaluate(&empty_probes());
    assert!(matches!(results[1].status, Status::Fail));
    assert!(matches!(results[2].status, Status::Skip(_)));
    match &results[3].status {
        Status::Skip(reason) => assert_eq!(reason, "socket unresolved"),
        _ => panic!("expected Skip for point 4"),
    }
    match &results[4].status {
        Status::Skip(reason) => assert_eq!(reason, "socket unresolved"),
        _ => panic!("expected Skip for point 5"),
    }
    assert!(matches!(results[8].status, Status::Skip(_)));
}

#[test]
fn healthy_probes_all_pass() {
    let results = evaluate(&healthy_probes());
    assert_eq!(results.len(), 9);
    for r in &results {
        assert!(
            matches!(r.status, Status::Pass),
            "expected Pass for {:?}",
            r.name
        );
    }
    assert_eq!(exit_code(&results), 0);
}

#[test]
fn multi_card_point_7_diags_have_unique_keys() {
    let mut probes = healthy_probes();
    probes.cards = Some(vec![
        CardInfo {
            reader: "Yubico YubiKey CCID 00 00".into(),
            guid: "AAAA".into(),
            slot_9d: SlotProbe::Populated,
        },
        CardInfo {
            reader: "Yubico YubiKey CCID 01 00".into(),
            guid: "BBBB".into(),
            slot_9d: SlotProbe::Populated,
        },
    ]);
    let results = evaluate(&probes);
    let keys: Vec<&str> = results[6].diags.iter().map(|(k, _)| k.as_str()).collect();
    let mut unique_keys = keys.clone();
    unique_keys.sort();
    unique_keys.dedup();
    assert_eq!(
        keys.len(),
        unique_keys.len(),
        "point 7 diag keys must be unique across cards, got: {keys:?}"
    );
    assert_eq!(
        diag(&results[6], "reader_0"),
        Some("Yubico YubiKey CCID 00 00")
    );
    assert_eq!(diag(&results[6], "guid_0"), Some("AAAA"));
    assert_eq!(
        diag(&results[6], "reader_1"),
        Some("Yubico YubiKey CCID 01 00")
    );
    assert_eq!(diag(&results[6], "guid_1"), Some("BBBB"));
}

#[test]
fn slot_9d_read_error_renders_distinctly_from_empty() {
    let mut probes = healthy_probes();
    probes.cards = Some(vec![CardInfo {
        reader: "Yubico YubiKey CCID 00 00".into(),
        guid: "DEADBEEFDEADBEEF".into(),
        slot_9d: SlotProbe::Error("pcsc transport error".into()),
    }]);
    probes.agent = Some(Ok(vec!["card-a".into()]));
    let results = evaluate(&probes);
    assert!(matches!(results[7].status, Status::Fail));
    assert_eq!(
        diag(&results[7], "DEADBEEFDEADBEEF"),
        Some("9D read error: pcsc transport error")
    );
    // Not provisioned, so point 9 SKIPs rather than treating the
    // errored read as a confirmed key-management slot.
    assert!(matches!(results[8].status, Status::Skip(_)));
}

#[test]
fn zero_identities_with_provisioned_card_fails_point_9() {
    let mut probes = healthy_probes();
    probes.agent = Some(Ok(vec![]));
    let results = evaluate(&probes);
    assert!(matches!(results[3].status, Status::Pass));
    assert_eq!(diag(&results[3], "identities"), Some("0"));
    assert!(matches!(results[8].status, Status::Fail));
    assert_eq!(
        diag(&results[8], "hint"),
        Some("pcscd race or locked agent — restart piggy-agent")
    );
}

#[test]
fn zero_identities_without_card_skips_point_9() {
    let mut probes = healthy_probes();
    probes.agent = Some(Ok(vec![]));
    probes.cards = Some(vec![]);
    let results = evaluate(&probes);
    assert!(matches!(results[6].status, Status::Fail));
    assert!(matches!(results[7].status, Status::Skip(_)));
    assert!(matches!(results[8].status, Status::Skip(_)));
}

#[test]
fn ecdh_missing_from_query_fails_point_5() {
    let mut probes = healthy_probes();
    probes.extensions = Some(Ok(vec!["other-ext".into()]));
    let results = evaluate(&probes);
    assert!(matches!(results[4].status, Status::Fail));
    assert_eq!(diag(&results[4], "advertised"), Some("other-ext"));
}

#[test]
fn query_unsupported_fails_point_5() {
    let mut probes = healthy_probes();
    probes.extensions = Some(Err("agent: unsupported extension".into()));
    let results = evaluate(&probes);
    assert!(matches!(results[4].status, Status::Fail));
}

#[test]
fn agent_connect_error_fails_4_skips_5_and_9() {
    let mut probes = healthy_probes();
    probes.agent = Some(Err("connection refused".into()));
    probes.extensions = None;
    let results = evaluate(&probes);
    assert!(matches!(results[3].status, Status::Fail));
    match &results[4].status {
        Status::Skip(reason) => assert_eq!(reason, "agent did not answer"),
        _ => panic!("expected Skip for point 5"),
    }
    assert!(matches!(results[8].status, Status::Skip(_)));
}

#[test]
fn pcsc_error_fails_6_skips_7_8_9() {
    let mut probes = healthy_probes();
    probes.pcsc = PcscProbe::Error("PC/SC daemon not available".into());
    probes.cards = None;
    let results = evaluate(&probes);
    assert!(matches!(results[5].status, Status::Fail));
    assert!(matches!(results[6].status, Status::Skip(_)));
    assert!(matches!(results[7].status, Status::Skip(_)));
    assert!(matches!(results[8].status, Status::Skip(_)));
}

#[test]
fn unit_inactive_fails_point_1() {
    let mut probes = healthy_probes();
    probes.service = ServiceProbe::Unit {
        load_state: "loaded".into(),
        active_state: "failed".into(),
        sub_state: "failed".into(),
        exec_main_status: "1".into(),
    };
    let results = evaluate(&probes);
    assert!(matches!(results[0].status, Status::Fail));
    // the service failure must not cascade to any other point
    assert_eq!(
        results
            .iter()
            .filter(|r| matches!(r.status, Status::Fail))
            .count(),
        1
    );
    assert_eq!(exit_code(&results), 1);
}

#[test]
fn unit_not_found_skips_point_1() {
    let mut probes = healthy_probes();
    probes.service = ServiceProbe::UnitNotFound;
    let results = evaluate(&probes);
    assert!(matches!(results[0].status, Status::Skip(_)));
}

#[test]
fn socket_path_not_a_socket_fails_point_3() {
    let mut probes = healthy_probes();
    probes.socket = SocketProbe::Resolved {
        source: "SSH_AUTH_SOCK",
        path: "/tmp/not-a-socket".into(),
        is_socket: false,
        stat_detail: "regular file".into(),
    };
    probes.agent = None;
    probes.extensions = None;
    let results = evaluate(&probes);
    assert!(matches!(results[1].status, Status::Pass));
    assert!(matches!(results[2].status, Status::Fail));
    match &results[3].status {
        Status::Skip(reason) => assert_eq!(reason, "path is not a socket"),
        _ => panic!("expected Skip for point 4"),
    }
    match &results[4].status {
        Status::Skip(reason) => assert_eq!(reason, "path is not a socket"),
        _ => panic!("expected Skip for point 5"),
    }
    assert!(matches!(results[8].status, Status::Skip(_)));
}

#[test]
fn parse_systemctl_show_active_unit() {
    let out = "LoadState=loaded\nActiveState=active\nSubState=running\nExecMainStatus=0\n";
    match parse_systemctl_show(out) {
        ServiceProbe::Unit {
            load_state,
            active_state,
            sub_state,
            exec_main_status,
        } => {
            assert_eq!(load_state, "loaded");
            assert_eq!(active_state, "active");
            assert_eq!(sub_state, "running");
            assert_eq!(exec_main_status, "0");
        }
        _ => panic!("expected Unit"),
    }
}

#[test]
fn parse_systemctl_show_not_found_unit() {
    let out = "LoadState=not-found\nActiveState=inactive\nSubState=dead\nExecMainStatus=0\n";
    assert!(matches!(
        parse_systemctl_show(out),
        ServiceProbe::UnitNotFound
    ));
}

#[test]
fn parse_systemctl_show_empty_input_is_not_available() {
    assert!(matches!(
        parse_systemctl_show(""),
        ServiceProbe::NotAvailable(_)
    ));
}

#[test]
fn enrich_unparseable_with_exit_folds_status_and_stderr() {
    let probe = ServiceProbe::NotAvailable("unparseable systemctl output".into());
    match enrich_unparseable_with_exit(
        probe,
        false,
        "exit status: 1",
        b"Failed to connect to bus: No medium found\n",
    ) {
        ServiceProbe::NotAvailable(reason) => {
            assert!(reason.contains("exit status: 1"), "reason: {reason}");
            assert!(
                reason.contains("Failed to connect to bus: No medium found"),
                "reason: {reason}"
            );
        }
        _ => panic!("expected NotAvailable"),
    }
}

#[test]
fn enrich_unparseable_with_exit_passes_unit_through() {
    let probe = ServiceProbe::Unit {
        load_state: "loaded".into(),
        active_state: "active".into(),
        sub_state: "running".into(),
        exec_main_status: "0".into(),
    };
    match enrich_unparseable_with_exit(probe, false, "exit status: 1", b"noise") {
        ServiceProbe::Unit { active_state, .. } => assert_eq!(active_state, "active"),
        _ => panic!("expected Unit to pass through"),
    }
}

#[test]
fn parse_launchctl_print_running_agent() {
    let out = "\tactive count = 1\n\tstate = running\n\tpid = 970\n\tlast exit code = (never exited)\n";
    match parse_launchctl_print(true, Some(0), out, "") {
        ServiceProbe::Unit {
            load_state,
            active_state,
            sub_state,
            exec_main_status,
        } => {
            assert_eq!(load_state, "loaded");
            assert_eq!(active_state, "active");
            assert_eq!(sub_state, "running");
            assert_eq!(exec_main_status, "(never exited)");
        }
        _ => panic!("expected Unit"),
    }
}

#[test]
fn parse_launchctl_print_idle_on_demand_is_active() {
    let out = "\tstate = waiting\n\tlast exit code = 0\n";
    match parse_launchctl_print(true, Some(0), out, "") {
        ServiceProbe::Unit {
            active_state,
            sub_state,
            ..
        } => {
            assert_eq!(active_state, "active");
            assert_eq!(sub_state, "waiting");
        }
        _ => panic!("expected Unit"),
    }
}

#[test]
fn parse_launchctl_print_absent_label_is_not_found() {
    let stderr = "Could not find service \"org.nix-community.home.piggy-agent\" in domain for user gui: 501\n";
    assert!(matches!(
        parse_launchctl_print(false, Some(113), "", stderr),
        ServiceProbe::UnitNotFound
    ));
    // exit 113 alone (stderr stripped) is also sufficient.
    assert!(matches!(
        parse_launchctl_print(false, Some(113), "", ""),
        ServiceProbe::UnitNotFound
    ));
}

#[test]
fn parse_launchctl_print_other_error_is_not_available() {
    match parse_launchctl_print(false, Some(1), "", "Bad request.\n") {
        ServiceProbe::NotAvailable(reason) => {
            assert!(reason.contains("exit 1"), "reason: {reason}");
            assert!(reason.contains("Bad request."), "reason: {reason}");
        }
        _ => panic!("expected NotAvailable"),
    }
}

#[test]
fn parse_launchctl_print_unparseable_is_not_available() {
    assert!(matches!(
        parse_launchctl_print(true, Some(0), "garbage with no equals signs\n", ""),
        ServiceProbe::NotAvailable(_)
    ));
}

#[test]
fn exit_code_zero_iff_no_fail() {
    let mut results = evaluate(&empty_probes());
    assert_ne!(exit_code(&results), 0);
    for r in &mut results {
        r.status = Status::Pass;
    }
    assert_eq!(exit_code(&results), 0);
    results[0].status = Status::Skip("x".into());
    assert_eq!(exit_code(&results), 0);
}

fn sink_fixture() -> Vec<CheckResult> {
    vec![
        CheckResult {
            name: "agent: socket resolved".into(),
            status: Status::Pass,
            diags: vec![
                ("source".into(), "PIGGY_AUTH_SOCK".into()),
                ("path".into(), "/run/user/1000/piggy-agent.sock".into()),
            ],
        },
        CheckResult {
            name: "agent: answers request_identities".into(),
            status: Status::Fail,
            diags: vec![("error".into(), "connection refused".into())],
        },
        CheckResult {
            name: "card: key-management slot 9D populated".into(),
            status: Status::Skip("no card attached".into()),
            diags: vec![],
        },
    ]
}

// ------------------------------------------------------------------ gathering

#[test]
fn resolve_socket_precedence() {
    let piggy = Some("/run/piggy-health-test.sock".to_string());
    let ssh = Some("/run/ambient-health-test.sock".to_string());
    match resolve_socket(choose_socket(piggy, ssh.clone()), &PathKind::Missing) {
        SocketProbe::Resolved { source, path, .. } => {
            assert_eq!(source, "PIGGY_AUTH_SOCK");
            assert_eq!(path, "/run/piggy-health-test.sock");
        }
        _ => panic!("expected Resolved via PIGGY_AUTH_SOCK"),
    }
    match resolve_socket(choose_socket(Some("".into()), ssh), &PathKind::Missing) {
        SocketProbe::Resolved { source, path, .. } => {
            assert_eq!(
                source, "SSH_AUTH_SOCK",
                "empty PIGGY_AUTH_SOCK must be treated as unset"
            );
            assert_eq!(path, "/run/ambient-health-test.sock");
        }
        _ => panic!("expected Resolved via SSH_AUTH_SOCK"),
    }
    assert!(
        matches!(
            resolve_socket(choose_socket(None, Some("".into())), &PathKind::Missing),
            SocketProbe::Unresolved
        ),
        "both empty must be Unresolved"
    );
    assert!(
        matches!(
            resolve_socket(choose_socket(None, None), &PathKind::Missing),
            SocketProbe::Unresolved
        ),
        "both unset must be Unresolved"
    );
}

#[test]
fn stat_plain_file_is_not_a_socket() {
    let (is_socket, detail) = stat_socket_path(&PathKind::RegularFile);
    assert!(!is_socket, "plain file must not be a socket");
    assert!(detail.contains("regular file"), "detail: {detail}");
    let (missing_is_socket, missing_detail) = stat_socket_path(&PathKind::Missing);
    assert!(!missing_is_socket);
    assert!(
        missing_detail.contains("does not exist"),
        "detail: {missing_detail}"
    );
    assert_eq!(stat_socket_path(&PathKind::Socket), (true, "unix socket".into()));
}

fn live_socket() -> SocketProbe {
    resolve_socket(
        choose_socket(Some("/run/a.sock".into()), None),
        &PathKind::Socket,
    )
}

#[test]
fn probes_follow_from_one_another() {
    let g = Gathering::new(ServiceProbe::UnitNotFound, live_socket());
    assert!(matches!(g.next(), NextProbe::Identities(p) if p == "/run/a.sock"));
    let g = g.identities(Ok(vec!["k".into()]));
    assert!(matches!(g.next(), NextProbe::Extensions(_)));
    let g = g.extensions(Ok(vec![ECDH_EXT.into()]));
    assert!(matches!(g.next(), NextProbe::Cards), "no upstreams to ask about");
    let g = g.cards(Err("no pcscd".into()));
    assert!(matches!(g.next(), NextProbe::Finished));
    let probes = gather(g);
    assert!(matches!(probes.pcsc, PcscProbe::Error(e) if e == "no pcscd"));
    assert!(probes.cards.is_none());
}

#[test]
fn silent_agent_is_not_asked_further() {
    let g = Gathering::new(ServiceProbe::UnitNotFound, live_socket());
    let g = g.identities(Err("refused".into()));
    assert!(matches!(g.next(), NextProbe::Cards));
    let g = Gathering::new(ServiceProbe::UnitNotFound, SocketProbe::Unresolved);
    assert!(matches!(g.next(), NextProbe::Cards));
}

#[test]
fn slots_and_cards_are_told_apart() {
    assert!(matches!(slot_probe(SlotRead::Certificate), SlotProbe::Populated));
    assert!(matches!(slot_probe(SlotRead::NoCertificate), SlotProbe::Empty));
    assert!(matches!(
        slot_probe(SlotRead::Failed("x".into())),
        SlotProbe::Error(e) if e == "x"
    ));
    let (pcsc, cards) = cards_probe(Ok(vec![]));
    assert!(matches!(pcsc, PcscProbe::Reachable));
    assert_eq!(cards.unwrap().len(), 0);
}

// ------------------------------------------------------------------ reporting

#[test]
fn reports_follow_the_points() {
    let quiet = render_into(&sink_fixture(), false);
    assert_eq!(quiet.len(), 5);
    assert!(matches!(quiet[0], Report::PlanAhead(3)));
    assert!(matches!(&quiet[1], Report::Pass(n) if n == "agent: socket resolved"));
    assert!(matches!(&quiet[2], Report::FailDiag(_, d) if d[0].1 == "connection refused"));
    assert!(matches!(&quiet[3], Report::Skip(_, why) if why == "no card attached"));
    assert!(matches!(quiet[4], Report::Finish));
    let loud = TapSink::new((), true).render(&sink_fixture());
    assert!(matches!(&loud[1], Report::PassDiag(_, d) if d.len() == 2));
    let loud = NdjsonSink::new((), true).render(&sink_fixture());
    assert!(matches!(&loud[1], Report::PassDiag(_, d) if d[0].0 == "source"));
    assert!(TapSink::auto((), false).auto_style);
}

#[test]
fn sink_follows_format_and_terminal() {
    assert_eq!(select_sink(Format::Auto, true), SinkKind::TapAuto);
    assert_eq!(select_sink(Format::Auto, false), SinkKind::Ndjson);
    assert_eq!(select_sink(Format::Tap, false), SinkKind::Tap);
    assert_eq!(select_sink(Format::Ndjson, true), SinkKind::Ndjson);
}

#[test]
fn codes_follow_failures() {
    let fine = SignProbe {
        comment: "c".into(),
        fingerprint: "f".into(),
        outcome: Ok(("a".into(), 1, 2)),
    };
    let broken = SignProbe {
        comment: "c".into(),
        fingerprint: "f".into(),
        outcome: Err("e".into()),
    };
    assert_eq!(sign_test_code(&[]), 0);
    assert_eq!(sign_test_code(&[fine]), 0);
    assert_eq!(sign_test_code(&[broken]), 1);
    assert_eq!(run_code(false, &[], None), 2);
    assert_eq!(run_code(true, &sink_fixture(), Some(0)), 1);
    assert_eq!(run_code(true, &[], Some(1)), 1);
    assert_eq!(run_code(true, &[], None), 0);
}

#[test]
fn service_point_is_named_after_its_manager() {
    let results = evaluate_as(LAUNCHD_POINT_NAME, &healthy_probes());
    assert_eq!(results[0].name, LAUNCHD_POINT_NAME);
    assert_eq!(socket_skip_reason(&live_socket()), "socket missing");
}
