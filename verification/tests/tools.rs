//! `piggy box` and `piggy tool`: command lines, frames, certificates.
use openssl::asn1::Asn1Time;
use openssl::bn::BigNum;
use openssl::ec::{EcGroup, EcKey};
use openssl::hash::MessageDigest;
use openssl::nid::Nid;
use openssl::pkey::PKey;
use openssl::x509::{X509Builder, X509NameBuilder};
use piggy::cmd::pivy_box::{
    cmd_tpl_show, extract_ec_compressed_point, find_card, plan_template,
    run as run_box, tpl_dir, BoxAction, Decryptor, FrameReader, ShownConfig, ShownPart,
    ShownTemplate,
};
use piggy::cmd::agent::{SlotInfo, TokenInfo};
use piggy::cmd::tool::{
    can_ecdh, change_sources, cmd_change_secret, cmd_pubkey, cmd_reset_pin, get_pin, parse,
    parse_openssh_ec_point, print_cert_pem, pubkey_comment, reset_sources, run as run_tool,
    select_token, sign_digest, slot_arg, subject_line, subject_oneline, ChangeOutcome, Credential,
    Secret, ToolOp,
};
use piggy::crypto::{EcCurve, PublicKey};
use piggy::piv::{is_valid_piv_slot, Guid, PivAlgorithm};
use sha2::{Digest, Sha256, Sha384};

fn argv(parts: &[&str]) -> Vec<String> {
    parts.iter().map(|s| s.to_string()).collect()
}

fn g(seed: u8) -> Guid {
    Guid::from_bytes(&[seed; 16]).unwrap()
}

// ---------------------------------------------------------------------- box

fn code(parts: &[&str]) -> i32 {
    run_box(&argv(parts)).refused().map_or(0, |r| r.0)
}

#[test]
fn unknown_subcommands_are_usage_errors() {
    assert_eq!(code(&[]), 2);
    assert_eq!(code(&["key"]), 2);
    assert_eq!(code(&["challenge", "respond"]), 2);
    assert_eq!(code(&["tpl", "edit"]), 2);
    assert_eq!(code(&["stream", "sign"]), 2);
    assert_eq!(code(&["tpl"]), 2);
    assert_eq!(code(&["stream"]), 2);
}

#[test]
fn recognized_subcommand_reaches_its_handler() {
    assert_eq!(code(&["stream", "encrypt"]), 1);
}

#[test]
fn box_subcommands_take_their_arguments() {
    assert!(matches!(
        run_box(&argv(&["stream", "encrypt", "t.tpl"])),
        BoxAction::Encrypt { template } if template == "t.tpl"
    ));
    assert!(matches!(
        run_box(&argv(&["stream", "decrypt"])),
        BoxAction::Decrypt { file: None }
    ));
    let hex = "07".repeat(16);
    match run_box(&argv(&["tpl", "create", "n", "primary", "local-guid", &hex])) {
        BoxAction::CreateTemplate { name, guid } => {
            assert_eq!(name, "n");
            assert_eq!(guid.to_hex(), hex);
        }
        _ => panic!("a template is created"),
    }
    let (code, said) = run_box(&argv(&["tpl", "create", "-i"])).refused().unwrap();
    assert_eq!(code, 1);
    assert!(said.contains("interactive mode not yet implemented"));
    let (_, said) = run_box(&argv(&["key"])).refused().unwrap();
    assert!(said.starts_with("piggy box: unknown subcommand: key\n"));
}

#[test]
fn decryptor_prefers_its_own_socket() {
    let d = Decryptor::from_env(Some("/own".into()), Some("/ssh".into()), true);
    assert_eq!(d.agent_socket.as_deref(), Some(&b"/own"[..]));
    let d = Decryptor::from_env(Some(Vec::new()), Some("/ssh".into()), false);
    assert_eq!(d.agent_socket.as_deref(), Some(&b"/ssh"[..]));
    assert!(!d.card);
}

#[test]
fn frames_are_read_one_by_one() {
    let mut data = vec![0xEE; 3];
    for (n, body) in [(0u32, &b"abc"[..]), (1, &b""[..])] {
        data.extend_from_slice(&n.to_be_bytes());
        data.extend_from_slice(&(body.len() as u32).to_be_bytes());
        data.extend_from_slice(body);
    }
    let mut reader = FrameReader::new(3);
    let end = reader.next_frame(&data).unwrap().unwrap();
    assert_eq!(end, 14);
    reader.accept(end);
    assert_eq!(reader.failure("bad"), "chunk 1: bad");
    let end = reader.next_frame(&data).unwrap().unwrap();
    reader.accept(end);
    assert_eq!(reader.next_frame(&data).unwrap(), None);
    let reader = FrameReader::new(3);
    assert_eq!(
        reader.next_frame(&data[..9]).unwrap_err(),
        "truncated chunk frame"
    );
    assert_eq!(
        reader.next_frame(&data[..12]).unwrap_err(),
        "truncated chunk data"
    );
}

fn p256_point() -> (Vec<u8>, Vec<u8>) {
    let x = "6b17d1f2e12c4247f8bce6e563a440f277037d812deb33a0f4a13945d898c296";
    let y = "4fe342e2fe1a7f9b8ee7eb4a7c0f9e162bce33576b315ececbb6406837bf51f5";
    (
        hex::decode(format!("03{x}")).unwrap(),
        hex::decode(format!("04{x}{y}")).unwrap(),
    )
}

#[test]
fn template_takes_the_compressed_key_of_the_card() {
    let (compressed, uncompressed) = p256_point();
    let key = PublicKey {
        blob: vec![],
        sec1: Some(uncompressed.clone()),
    };
    assert_eq!(
        extract_ec_compressed_point(&key, EcCurve::NistP256).unwrap(),
        compressed
    );
    let tokens = vec![TokenInfo {
        guid: g(1),
        short_id: "01010101".into(),
        reader_name: "r".into(),
        slots: vec![SlotInfo {
            id: 0x9D,
            algorithm: PivAlgorithm::EcP256,
            public_key: PublicKey {
                blob: vec![],
                sec1: Some(uncompressed),
            },
        }],
    }];
    assert_eq!(find_card(&vec![g(3), g(1)], &g(1)).unwrap(), 1);
    assert_eq!(
        find_card(&vec![g(3)], &g(1)).unwrap_err(),
        format!("PIV device {} not found", "01".repeat(16))
    );
    let part = plan_template(&tokens[0]).ok().unwrap();
    assert_eq!((part.slot, part.pubkey), (0x9D, compressed));
    assert_eq!(tpl_dir(&Some("/home/u".into()), false), "/home/u/.pivy/tpl");
    assert_eq!(tpl_dir(&Some("/".into()), false), "/.pivy/tpl");
    assert_eq!(tpl_dir(&None, true), "/tmp/Library/Preferences/pivy/tpl");
}

#[test]
fn template_is_shown_part_by_part() {
    let shown = cmd_tpl_show(&ShownTemplate {
        version: 1,
        configs: vec![ShownConfig {
            kind: "PRIMARY".into(),
            n: 1,
            parts: vec![
                ShownPart {
                    guid: Some(g(1)),
                    slot: 0x9D,
                    name: Some("n".into()),
                    curve_name: "nistp256".into(),
                    pubkey_len: 33,
                },
                ShownPart {
                    guid: None,
                    slot: 0x9D,
                    name: None,
                    curve_name: "nistp384".into(),
                    pubkey_len: 49,
                },
            ],
        }],
    });
    assert_eq!(
        shown,
        format!(
            "-- template --\nversion: 1\nconfiguration 0: PRIMARY, n=1, parts=2\n  part 0: guid={}, slot=9d\n    name: n\n    pubkey: nistp256 (33 bytes)\n  part 1: guid=(none — piggy 2.x guid-less), slot=9d\n    pubkey: nistp384 (49 bytes)\n",
            "01".repeat(16)
        )
    );
}

// --------------------------------------------------------------------- tool

#[test]
fn parse_claims_only_the_ported_ops() {
    assert!(parse(&argv(&["pubkey", "9d"])).is_some());
    assert!(parse(&argv(&["cert", "9a"])).is_some());
    assert!(parse(&argv(&["attest", "9d"])).is_some());
    assert!(parse(&argv(&["sign", "9c"])).is_some());
    assert!(parse(&argv(&["ecdh", "9d"])).is_some());
    assert!(parse(&argv(&["change-pin"])).is_some());
    assert!(parse(&argv(&["change-puk"])).is_some());
    assert!(parse(&argv(&["reset-pin"])).is_some());
    assert!(parse(&argv(&["-P", "12345678", "-P", "654321", "reset-pin"])).is_some());
    assert!(parse(&argv(&["-g", "ABCD", "pubkey", "9d"])).is_some());
    assert!(parse(&argv(&["-P", "123456", "sign", "9a"])).is_some());
    assert!(parse(&argv(&["-P", "123456", "-P", "654321", "change-pin"])).is_some());
    assert!(parse(&argv(&["list"])).is_none());
    assert!(parse(&argv(&["pinfo"])).is_none());
    assert!(parse(&argv(&["init"])).is_none());
    assert!(parse(&argv(&["-d", "pubkey", "9d"])).is_none());
    assert!(parse(&argv(&[])).is_none());
    assert!(parse(&argv(&["-g"])).is_none());
}

#[test]
fn parse_extracts_guid_pin_and_positionals() {
    let inv = parse(&argv(&["-g", "deadbeef", "-P", "123456", "sign", "9c"])).unwrap();
    assert_eq!(inv.guid.as_deref(), Some("deadbeef"));
    assert_eq!(inv.pins, vec!["123456".to_string()]);
    assert_eq!(inv.op, "sign");
    assert_eq!(inv.positionals, vec!["9c".to_string()]);
}

#[test]
fn parse_collects_repeated_pins_for_change() {
    let inv = parse(&argv(&["-P", "123456", "-P", "654321", "change-pin"])).unwrap();
    assert_eq!(inv.pins, vec!["123456".to_string(), "654321".to_string()]);
    assert_eq!(inv.op, "change-pin");
}

#[test]
fn operations_name_their_slot() {
    let (op, inv) = run_tool(&argv(&["pubkey", "9d"])).unwrap();
    assert_eq!(op, ToolOp::Pubkey);
    assert_eq!(slot_arg(&inv, "pubkey").unwrap(), 0x9d);
    let (_, inv) = run_tool(&argv(&["cert"])).unwrap();
    assert_eq!(
        slot_arg(&inv, "cert").unwrap_err(),
        (2, "piggy tool cert: missing slot (e.g. 9d)".to_string())
    );
    assert!(is_valid_piv_slot(0x95) && !is_valid_piv_slot(0x96));
}

#[test]
fn card_is_selected_by_the_start_of_its_guid() {
    let cards = vec![g(0xAB), g(0xCD)];
    assert_eq!(select_token(&cards, &Some("cdcd".into())).unwrap(), 1);
    assert!(select_token(&cards, &Some("ef".into())).is_err());
    assert!(select_token(&cards, &None).is_err());
    assert_eq!(select_token(&vec![g(1)], &None).unwrap(), 0);
}

fn certificate() -> Vec<u8> {
    let group = EcGroup::from_curve_name(Nid::X9_62_PRIME256V1).unwrap();
    let key = PKey::from_ec_key(EcKey::generate(&group).unwrap()).unwrap();
    let mut name = X509NameBuilder::new().unwrap();
    name.append_entry_by_text("O", "piggy").unwrap();
    name.append_entry_by_text("CN", "piv-auth@AB").unwrap();
    let name = name.build();
    let mut b = X509Builder::new().unwrap();
    b.set_version(2).unwrap();
    let serial = BigNum::from_u32(1).unwrap().to_asn1_integer().unwrap();
    b.set_serial_number(&serial).unwrap();
    b.set_subject_name(&name).unwrap();
    b.set_issuer_name(&name).unwrap();
    b.set_not_before(&Asn1Time::days_from_now(0).unwrap()).unwrap();
    b.set_not_after(&Asn1Time::days_from_now(1).unwrap()).unwrap();
    b.set_pubkey(&key).unwrap();
    b.sign(&key, MessageDigest::sha256()).unwrap();
    b.build().to_der().unwrap()
}

#[test]
fn certificates_are_shown_by_subject_and_as_pem() {
    let der = certificate();
    let subject = subject_oneline(&der);
    assert!(
        subject.contains("piggy") && subject.contains("piv-auth@AB"),
        "{subject}"
    );
    assert_eq!(subject_oneline(b"junk"), "");
    assert_eq!(subject_line(&vec![]), "");
    let pem = print_cert_pem(&der).unwrap();
    assert!(pem.starts_with("-----BEGIN CERTIFICATE-----\n"), "{pem}");
    assert_eq!(
        pubkey_comment(0x9a, &g(0xAB), "CN=x"),
        format!("PIV_slot_9A@{} \"CN=x\"", "AB".repeat(16))
    );
}

#[test]
fn keys_are_printed_with_slot_card_and_subject() {
    let line = "ssh-ed25519 AAAAC3NzaC1lZDI1NTE5AAAAIAcHBwcHBwcHBwcHBwcHBwcHBwcHBwcHBwcHBwcHBwcH";
    let mut blob = vec![0, 0, 0, 11];
    blob.extend_from_slice(b"ssh-ed25519");
    blob.extend_from_slice(&[0, 0, 0, 32]);
    blob.extend_from_slice(&[7; 32]);
    let key = PublicKey { blob, sec1: None };
    assert_eq!(
        cmd_pubkey(0x9a, &g(0xAB), b"junk", &key).unwrap(),
        format!("{line} PIV_slot_9A@{} \"\"", "AB".repeat(16))
    );
    let junk = PublicKey {
        blob: vec![1],
        sec1: None,
    };
    assert!(cmd_pubkey(0x9a, &g(1), b"junk", &junk)
        .unwrap_err()
        .starts_with("render OpenSSH: "));
}

#[test]
fn digests_follow_the_key() {
    assert_eq!(
        sign_digest(0x9a, PivAlgorithm::EcP256, b"abc").unwrap(),
        Sha256::digest(b"abc").to_vec()
    );
    assert_eq!(
        sign_digest(0x9a, PivAlgorithm::EcP384, b"abc").unwrap(),
        Sha384::digest(b"abc").to_vec()
    );
    assert!(sign_digest(0x9a, PivAlgorithm::Rsa2048, b"abc").is_err());
    assert!(can_ecdh(0x9d) && !can_ecdh(0x82));
}

#[test]
fn partner_keys_are_read_in_openssh_format() {
    assert!(parse_openssh_ec_point("nonsense")
        .unwrap_err()
        .starts_with("failed to parse public key input: "));
    let ed = "ssh-ed25519 AAAAC3NzaC1lZDI1NTE5AAAAIAcHBwcHBwcHBwcHBwcHBwcHBwcHBwcHBwcHBwcHBwcH";
    assert!(parse_openssh_ec_point(ed).is_err());
}

#[test]
fn credentials_are_given_or_asked_for() {
    let inv = parse(&argv(&["-P", "1", "sign", "9a"])).unwrap();
    assert!(matches!(get_pin(&inv, "sign"), Credential::Given(p) if p == "1"));
    let inv = parse(&argv(&["sign", "9a"])).unwrap();
    assert!(matches!(
        get_pin(&inv, "sign"),
        Credential::Ask { prompt, context }
            if prompt == "Enter PIV PIN for sign: " && context == "piggy-tool:sign"
    ));
    let inv = parse(&argv(&["-P", "1", "change-pin"])).unwrap();
    let (old, new) = change_sources(&inv, Secret::Pin);
    assert!(matches!(old, Credential::Given(p) if p == "1"));
    assert!(matches!(new, Credential::Ask { .. }));
    let (puk, pin) = reset_sources(&inv);
    assert!(matches!(puk, Credential::Given(_)) && matches!(pin, Credential::Ask { .. }));
}

#[test]
fn changes_are_reported() {
    assert_eq!(cmd_change_secret(Secret::Pin, &ChangeOutcome::Done), (0, None));
    assert_eq!(
        cmd_change_secret(Secret::Puk, &ChangeOutcome::Incorrect(2)),
        (
            1,
            Some(
                "piggy tool change-puk: current PUK was incorrect (2 attempt(s) remaining); PUK change failed"
                    .into()
            )
        )
    );
    assert_eq!(
        cmd_reset_pin(&ChangeOutcome::Failed("x".into())),
        (
            1,
            Some("piggy tool reset-pin: failed to reset PIN: x".into())
        )
    );
}
