//! Operations of `piggy tool`, step by step.
use piggy::cmd::tool::job::{CardJob, JobEvent, JobStage, SlotRead};
use piggy::cmd::tool::{print_cert_pem, run, ChangeOutcome};
use piggy::crypto::PublicKey;
use piggy::piv::{Guid, PivAlgorithm};
use sha2::{Digest, Sha256};

fn job(parts: &[&str]) -> CardJob {
    let args: Vec<String> = parts.iter().map(|s| s.to_string()).collect();
    let (op, inv) = run(&args).unwrap();
    CardJob::new(op, inv)
}

fn cards(seeds: &[u8]) -> JobEvent {
    JobEvent::Cards(Ok(seeds
        .iter()
        .map(|s| Guid::from_bytes(&[*s; 16]).unwrap())
        .collect()))
}

fn slot(algorithm: PivAlgorithm) -> JobEvent {
    JobEvent::Slot(Ok(SlotRead {
        algorithm,
        cert_der: vec![0x30],
        key: PublicKey {
            blob: vec![1],
            sec1: None,
        },
    }))
}

fn end(job: CardJob) -> (i32, Option<String>) {
    match job.stage {
        JobStage::Ended { code, said } => (code, said),
        _ => panic!("not at its end"),
    }
}

fn said(job: CardJob) -> String {
    let (code, said) = end(job);
    assert_eq!(code, 1);
    said.unwrap()
}

#[test]
fn data_is_signed_by_its_digest() {
    let j = job(&["-g", "22", "-P", "123456", "sign", "9a"]).on(cards(&[0x11, 0x22]));
    assert_eq!(j.card, Some(1));
    let j = j.on(slot(PivAlgorithm::EcP256));
    let j = j.on(JobEvent::Data(Ok(b"abc".to_vec())));
    assert!(matches!(&j.stage, JobStage::Session { pin, .. } if pin == "123456"));
    let j = j.on(JobEvent::Done(Ok(())));
    assert!(matches!(&j.stage, JobStage::Verify { pin, .. } if pin == "123456"));
    let j = j.on(JobEvent::Done(Ok(())));
    let digest = Sha256::digest(b"abc").to_vec();
    assert!(matches!(&j.stage, JobStage::Use { material } if *material == digest));
    let j = j.on(JobEvent::Output(Ok(vec![9, 9])));
    assert!(matches!(&j.stage, JobStage::Write { bytes } if *bytes == [9, 9]));
    assert_eq!(end(j.on(JobEvent::Done(Ok(())))), (0, None));
}

#[test]
fn missing_pin_is_asked_for() {
    let j = job(&["sign", "9a"])
        .on(cards(&[1]))
        .on(slot(PivAlgorithm::EcP256))
        .on(JobEvent::Data(Ok(vec![])));
    assert!(matches!(
        &j.stage,
        JobStage::Pin { prompt, context, .. }
            if prompt == "Enter PIV PIN for sign: " && context == "piggy-tool:sign"
    ));
    let j = j.on(JobEvent::Secret(Ok("42".into())));
    assert!(matches!(&j.stage, JobStage::Session { pin, .. } if pin == "42"));
}

#[test]
fn every_failed_step_of_signing_is_told() {
    let at_slot = || job(&["-P", "1", "sign", "9a"]).on(cards(&[1]));
    let at_session = || {
        at_slot()
            .on(slot(PivAlgorithm::EcP256))
            .on(JobEvent::Data(Ok(vec![])))
    };
    let at_verify = || at_session().on(JobEvent::Done(Ok(())));
    let at_use = || at_verify().on(JobEvent::Done(Ok(())));
    let no = || Err("no".to_string());
    assert_eq!(
        said(job(&["sign", "9a"]).on(JobEvent::Cards(Err("PC/SC: x".into())))),
        "piggy tool sign: PC/SC: x"
    );
    assert_eq!(
        said(job(&["sign", "9a"]).on(cards(&[]))),
        "piggy tool sign: no PIV tokens present"
    );
    assert_eq!(
        said(at_slot().on(JobEvent::Slot(Err("no".into())))),
        "piggy tool sign: failed to read cert for signing key in slot 9A: no"
    );
    assert_eq!(
        said(at_slot()
            .on(slot(PivAlgorithm::Rsa2048))
            .on(JobEvent::Data(Ok(vec![])))),
        "piggy tool sign: slot 9A key algorithm Rsa2048 is not supported for signing"
    );
    assert_eq!(
        said(at_slot()
            .on(slot(PivAlgorithm::EcP256))
            .on(JobEvent::Data(Err("no".into())))),
        "piggy tool sign: stdin: no"
    );
    assert_eq!(
        said(job(&["sign", "9a"])
            .on(cards(&[1]))
            .on(slot(PivAlgorithm::EcP384))
            .on(JobEvent::Data(Ok(vec![])))
            .on(JobEvent::Secret(Err("no".into())))),
        "piggy tool sign: PIN prompt failed: no"
    );
    assert_eq!(
        said(at_session().on(JobEvent::Done(no()))),
        "piggy tool sign: begin session: no"
    );
    assert_eq!(
        said(at_verify().on(JobEvent::Done(no()))),
        "piggy tool sign: PIN verification failed: no"
    );
    assert_eq!(
        said(at_use().on(JobEvent::Output(Err("no".into())))),
        "piggy tool sign: failed to sign data: no"
    );
    assert_eq!(
        said(at_use()
            .on(JobEvent::Output(Ok(vec![1])))
            .on(JobEvent::Done(no()))),
        "piggy tool sign: write: no"
    );
}

#[test]
fn key_agreement_needs_a_slot_for_it() {
    assert_eq!(
        said(job(&["ecdh", "82"])),
        "piggy tool ecdh: PIV slot 82 cannot be used for ECDH"
    );
    assert_eq!(end(job(&["ecdh"])).0, 2);
    let j = job(&["-P", "1", "ecdh", "9d"]).on(cards(&[1]));
    assert!(matches!(j.stage, JobStage::PeerKey));
    let group = openssl::ec::EcGroup::from_curve_name(openssl::nid::Nid::X9_62_PRIME256V1).unwrap();
    let mut ctx = openssl::bn::BigNumContext::new().unwrap();
    let key = openssl::ec::EcKey::generate(&group).unwrap();
    let form = openssl::ec::PointConversionForm::UNCOMPRESSED;
    let point = key.public_key().to_bytes(&group, form, &mut ctx).unwrap();
    let ecdsa = ssh_key::public::EcdsaPublicKey::from_sec1_bytes(&point).unwrap();
    let line = ssh_key::PublicKey::from(ecdsa).to_openssh().unwrap();
    let j = j.on(JobEvent::PeerKey(Ok(format!("{line}\n"))));
    let j = j.on(JobEvent::Done(Ok(()))).on(JobEvent::Done(Ok(())));
    assert!(matches!(&j.stage, JobStage::Use { material } if *material == point));
    assert_eq!(
        said(j.on(JobEvent::Output(Err("no".into())))),
        "piggy tool ecdh: failed to compute ECDH: no"
    );
    let j = job(&["ecdh", "9d"]).on(cards(&[1]));
    assert_eq!(
        said(j.on(JobEvent::PeerKey(Err("no".into())))),
        "piggy tool ecdh: stdin: no"
    );
}

fn certificate() -> Vec<u8> {
    let group = openssl::ec::EcGroup::from_curve_name(openssl::nid::Nid::X9_62_PRIME256V1).unwrap();
    let key = openssl::ec::EcKey::generate(&group).unwrap();
    let key = openssl::pkey::PKey::from_ec_key(key).unwrap();
    let mut b = openssl::x509::X509Builder::new().unwrap();
    b.set_version(2).unwrap();
    let from = openssl::asn1::Asn1Time::days_from_now(0).unwrap();
    let to = openssl::asn1::Asn1Time::days_from_now(1).unwrap();
    b.set_not_before(&from).unwrap();
    b.set_not_after(&to).unwrap();
    b.set_pubkey(&key).unwrap();
    b.sign(&key, openssl::hash::MessageDigest::sha256()).unwrap();
    b.build().to_der().unwrap()
}

fn with_cert(cert_der: Vec<u8>) -> JobEvent {
    JobEvent::Slot(Ok(SlotRead {
        algorithm: PivAlgorithm::EcP256,
        cert_der,
        key: PublicKey {
            blob: vec![1],
            sec1: None,
        },
    }))
}

fn printed(job: &CardJob) -> String {
    match &job.stage {
        JobStage::Print { text, .. } => text.clone(),
        _ => panic!("nothing to print"),
    }
}

#[test]
fn attestation_prints_two_certificates() {
    let (one, two) = (certificate(), certificate());
    let begin = || job(&["attest", "9a"]).on(cards(&[1]));
    let attested = || begin().on(JobEvent::Output(Ok(one.clone())));
    let j = attested();
    assert_eq!(printed(&j), print_cert_pem(&one).unwrap());
    let j = j.on(JobEvent::Printed);
    assert!(matches!(j.stage, JobStage::Device));
    let j = j.on(with_cert(two.clone()));
    assert_eq!(printed(&j), print_cert_pem(&two).unwrap());
    assert_eq!(end(j.on(JobEvent::Printed)), (0, None));
    let words = said(begin().on(JobEvent::Output(Ok(vec![7]))));
    let head = "piggy tool attest: slot attestation cert: encode PEM: ";
    assert!(words.starts_with(head), "{words}");
    let device = || attested().on(JobEvent::Printed);
    assert_eq!(
        said(device().on(JobEvent::Slot(Err("no".into())))),
        "piggy tool attest: read device attestation cert: no"
    );
    let words = said(device().on(slot(PivAlgorithm::EcP256)));
    let head = "piggy tool attest: device attestation cert: encode PEM: ";
    assert!(words.starts_with(head), "{words}");
    assert_eq!(
        said(begin().on(JobEvent::Output(Err("no".into())))),
        "piggy tool attest: attestation failed: no"
    );
}

#[test]
fn certificates_and_keys_are_printed() {
    let begin = || job(&["cert", "9a"]).on(cards(&[1]));
    let der = certificate();
    let j = begin().on(with_cert(der.clone()));
    assert_eq!(printed(&j), print_cert_pem(&der).unwrap());
    assert_eq!(end(j.on(JobEvent::Printed)), (0, None));
    let words = said(begin().on(slot(PivAlgorithm::EcP256)));
    assert!(words.starts_with("piggy tool cert: encode PEM: "), "{words}");
    assert_eq!(
        said(begin().on(JobEvent::Slot(Err("empty".into())))),
        "piggy tool cert: slot 9a: empty"
    );
    let mut blob = vec![0, 0, 0, 11];
    blob.extend_from_slice(b"ssh-ed25519");
    blob.extend_from_slice(&[0, 0, 0, 32]);
    blob.extend_from_slice(&[7; 32]);
    let j = job(&["pubkey", "9a"]).on(cards(&[0xAB]));
    let j = j.on(JobEvent::Slot(Ok(SlotRead {
        algorithm: PivAlgorithm::Ed25519,
        cert_der: vec![],
        key: PublicKey { blob, sec1: None },
    })));
    match j.stage {
        JobStage::Print { text, last } => {
            assert!(last);
            assert!(text.starts_with("ssh-ed25519 AAAA"), "{text}");
            let comment = format!(" PIV_slot_9A@{} \"\"\n", "AB".repeat(16));
            assert!(text.ends_with(&comment), "{text}");
        }
        _ => panic!("nothing to print"),
    }
}

#[test]
fn credentials_are_changed_in_a_session() {
    let j = job(&["-P", "old", "-P", "new", "change-pin"]);
    assert!(matches!(
        &j.stage,
        JobStage::ChangeCards { current, new } if current == "old" && new == "new"
    ));
    let j = j.on(cards(&[1])).on(JobEvent::Done(Ok(())));
    assert!(matches!(&j.stage, JobStage::Change { .. }));
    assert_eq!(end(j.on(JobEvent::Changed(ChangeOutcome::Done))), (0, None));
    let j = job(&["change-puk"]);
    assert!(matches!(
        &j.stage,
        JobStage::Current { prompt, .. } if prompt == "Enter current PUK: "
    ));
    let j = j.on(JobEvent::Secret(Ok("a".into())));
    assert!(matches!(
        &j.stage,
        JobStage::New { prompt, context, .. }
            if prompt == "Enter new PUK: " && context == "piggy-tool:change-puk:new"
    ));
    assert_eq!(
        said(j.on(JobEvent::Secret(Err("no".into())))),
        "piggy tool change-puk: new PUK prompt failed: no"
    );
    assert_eq!(
        said(job(&["reset-pin"]).on(JobEvent::Secret(Err("no".into())))),
        "piggy tool reset-pin: current PUK prompt failed: no"
    );
    let j = job(&["-P", "puk", "reset-pin"]).on(JobEvent::Secret(Ok("pin".into())));
    assert!(matches!(
        &j.stage,
        JobStage::ChangeCards { current, new } if current == "puk" && new == "pin"
    ));
    let j = j.on(cards(&[1])).on(JobEvent::Done(Ok(())));
    assert_eq!(
        said(j.on(JobEvent::Changed(ChangeOutcome::Incorrect(3)))),
        "piggy tool reset-pin: PUK was incorrect (3 attempt(s) remaining); PIN reset failed"
    );
}
