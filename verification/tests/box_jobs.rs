//! Commands of `piggy box`, step by step.
use piggy::cmd::agent::{SlotInfo, TokenInfo};
use piggy::cmd::box_job::{BoxEvent, BoxJob, BoxStage};
use piggy::cmd::pivy_box::{run, ShownTemplate};
use piggy::crypto::PublicKey;
use piggy::piv::{Guid, PivAlgorithm};

fn job(parts: &[&str]) -> BoxJob {
    let args: Vec<String> = parts.iter().map(|s| s.to_string()).collect();
    BoxJob::new(run(&args), &Some("/home/u".into()), false)
        .ok()
        .unwrap()
}

fn bytes(b: &[u8]) -> BoxEvent {
    BoxEvent::Bytes(Ok(b.to_vec()))
}

fn no_bytes() -> BoxEvent {
    BoxEvent::Bytes(Err("no".into()))
}

fn done() -> BoxEvent {
    BoxEvent::Done(Ok(()))
}

fn not_done() -> BoxEvent {
    BoxEvent::Done(Err("no".into()))
}

fn end(job: BoxJob) -> (i32, Option<String>) {
    match job.stage {
        BoxStage::Ended { code, said } => (code, said),
        _ => panic!("not at its end"),
    }
}

fn said(job: BoxJob) -> String {
    let (code, said) = end(job);
    assert_eq!(code, 1);
    said.unwrap()
}

/// A frame whose body is the chunk with every bit turned over.
fn sealed(number: u32, chunk: &[u8]) -> Vec<u8> {
    let mut out = number.to_be_bytes().to_vec();
    out.extend_from_slice(&(chunk.len() as u32).to_be_bytes());
    out.extend(chunk.iter().map(|b| !b));
    out
}

fn unsealed(number: u32, frame: &[u8]) -> Vec<u8> {
    assert_eq!(frame[..4], number.to_be_bytes());
    frame[8..].iter().map(|b| !b).collect()
}

fn encrypted(plain: &[u8], size: usize) -> Vec<u8> {
    let mut job = job(&["stream", "encrypt", "/t"])
        .on(bytes(b"template"))
        .on(done())
        .on(BoxEvent::Count(Ok(size)))
        .on(bytes(plain))
        .on(bytes(b"HEAD"));
    let mut out = Vec::new();
    loop {
        let event = match &job.stage {
            BoxStage::WriteHeader { bytes, .. } | BoxStage::WriteChunk { bytes, .. } => {
                out.extend_from_slice(bytes);
                done()
            }
            BoxStage::SealChunk { plain, i, from, to, .. } => {
                bytes(&sealed(*i as u32, &plain[*from..*to]))
            }
            BoxStage::Ended { code, said } => {
                assert_eq!((*code, said), (0, &None));
                return out;
            }
            _ => panic!("unexpected stage"),
        };
        job = job.on(event);
    }
}

fn reading(stream: &[u8]) -> BoxJob {
    job(&["stream", "decrypt", "/s"])
        .on(bytes(stream))
        .on(done())
        .on(done())
        .on(BoxEvent::Count(Ok(4)))
}

fn decrypted(stream: &[u8]) -> Result<Vec<u8>, String> {
    let mut job = reading(stream);
    loop {
        let event = match &job.stage {
            BoxStage::OpenChunk { input, from, to, number, .. } => {
                bytes(&unsealed(*number, &input[*from..*to]))
            }
            BoxStage::WritePlain { out } => return Ok(out.clone()),
            _ => return Err(said(job)),
        };
        job = job.on(event);
    }
}

#[test]
fn encrypted_streams_are_decrypted() {
    for plain in [&b""[..], b"a", b"abcd", b"abcdefghi"] {
        for size in [1, 4, 100] {
            let stream = encrypted(plain, size);
            assert_eq!(decrypted(&stream).unwrap(), plain);
        }
    }
    let stream = encrypted(b"abcde", 4);
    assert_eq!(stream.len(), 4 + 12 + 9);
}

#[test]
fn cut_streams_are_refused() {
    let stream = encrypted(b"abcdefgh", 4);
    for cut in 5..stream.len() {
        if cut == 16 {
            assert_eq!(decrypted(&stream[..cut]).unwrap(), b"abcd");
        } else {
            let e = decrypted(&stream[..cut]).unwrap_err();
            assert!(e.starts_with("piggy box stream decrypt: truncated chunk "), "{e}");
        }
    }
}

#[test]
fn every_failed_step_of_encrypting_is_told() {
    let at = |n: usize| {
        let mut j = job(&["stream", "encrypt", "/t"]);
        for k in 0..n {
            j = j.on(match k {
                0 => bytes(b"template"),
                1 => done(),
                2 => BoxEvent::Count(Ok(4)),
                3 => bytes(b"abcdef"),
                4 => bytes(b"HEAD"),
                5 => done(),
                6 => bytes(b"sealed"),
                _ => done(),
            });
        }
        j
    };
    let failed = |n: usize, e: BoxEvent| said(at(n).on(e));
    let head = "piggy box stream encrypt: ";
    assert_eq!(failed(0, no_bytes()), format!("{head}cannot read template /t: no\n"));
    assert_eq!(failed(1, not_done()), format!("{head}invalid template: no\n"));
    assert_eq!(
        failed(2, BoxEvent::Count(Err("no".into()))),
        format!("{head}failed to create stream: no\n")
    );
    assert_eq!(failed(3, no_bytes()), format!("{head}stdin: no\n"));
    assert_eq!(failed(4, no_bytes()), format!("{head}header: no\n"));
    assert_eq!(failed(5, not_done()), format!("{head}write: no\n"));
    assert_eq!(failed(6, no_bytes()), format!("{head}chunk 0: no\n"));
    assert_eq!(failed(7, not_done()), format!("{head}write: no\n"));
    assert_eq!(failed(8, no_bytes()), format!("{head}chunk 1: no\n"));
}

#[test]
fn every_failed_step_of_decrypting_is_told() {
    let head = "piggy box stream decrypt: ";
    let begin = || job(&["stream", "decrypt", "/s"]);
    assert_eq!(said(begin().on(no_bytes())), format!("{head}cannot read /s: no\n"));
    assert_eq!(
        said(job(&["stream", "decrypt"]).on(no_bytes())),
        format!("{head}stdin: no\n")
    );
    let read = || begin().on(bytes(b"HEAD"));
    assert_eq!(said(read().on(not_done())), format!("{head}invalid stream: no\n"));
    assert_eq!(said(read().on(done()).on(not_done())), format!("{head}unlock failed: no\n"));
    let unlocked = read().on(done()).on(done());
    assert_eq!(said(unlocked.on(BoxEvent::Count(Err("no".into())))), format!("{head}no\n"));
    let stream = encrypted(b"abcdef", 4);
    assert_eq!(said(reading(&stream).on(no_bytes())), format!("{head}chunk 0: no\n"));
    assert_eq!(
        said(reading(&stream).on(bytes(b"abcd")).on(no_bytes())),
        format!("{head}chunk 1: no\n")
    );
    assert_eq!(said(reading(b"HEAD").on(not_done())), format!("{head}write: no\n"));
    assert_eq!(end(reading(b"HEAD").on(done())), (0, None));
}

fn point(compressed: bool) -> Vec<u8> {
    let x = "6b17d1f2e12c4247f8bce6e563a440f277037d812deb33a0f4a13945d898c296";
    let y = "4fe342e2fe1a7f9b8ee7eb4a7c0f9e162bce33576b315ececbb6406837bf51f5";
    if compressed {
        hex::decode(format!("03{x}")).unwrap()
    } else {
        hex::decode(format!("04{x}{y}")).unwrap()
    }
}

fn token(slot: u8) -> TokenInfo {
    TokenInfo {
        guid: Guid::from_bytes(&[1; 16]).unwrap(),
        short_id: "01010101".into(),
        reader_name: "r".into(),
        slots: vec![SlotInfo {
            id: slot,
            algorithm: PivAlgorithm::EcP256,
            public_key: PublicKey {
                blob: vec![],
                sec1: Some(point(false)),
            },
        }],
    }
}

#[test]
fn templates_are_written_below_the_home() {
    let guid = "01".repeat(16);
    let head = "piggy box tpl create: ";
    let begin = || job(&["tpl", "create", "mine", "primary", "local-guid", &guid]);
    let cards = |seed: u8| BoxEvent::Cards(Ok(vec![Guid::from_bytes(&[seed; 16]).unwrap()]));
    assert_eq!(
        said(begin().on(BoxEvent::Cards(Err("PCSC: no".into())))),
        format!("{head}PCSC: no\n")
    );
    assert_eq!(
        said(begin().on(cards(2))),
        format!("{head}PIV device {guid} not found\n")
    );
    let chosen = || begin().on(cards(1));
    assert!(matches!(chosen().stage, BoxStage::ReadSlots { card: 0, .. }));
    assert_eq!(
        said(chosen().on(BoxEvent::Slots(Err("no".into())))),
        format!("{head}read slots: no\n")
    );
    assert_eq!(
        said(chosen().on(BoxEvent::Slots(Ok(token(0x9A))))),
        format!("{head}slot 9D not found on device\n")
    );
    let planned = chosen().on(BoxEvent::Slots(Ok(token(0x9D))));
    match &planned.stage {
        BoxStage::Serialize { name, part } => {
            assert_eq!((name.as_str(), part.slot), ("mine", 0x9D));
            assert_eq!(part.guid.bytes, [1; 16]);
            assert_eq!(part.pubkey, point(true));
        }
        _ => panic!("nothing to serialize"),
    }
    assert_eq!(
        said(planned.on(BoxEvent::Text(Err("no".into())))),
        format!("{head}serialize: no\n")
    );
    let serialized = || {
        chosen()
            .on(BoxEvent::Slots(Ok(token(0x9D))))
            .on(BoxEvent::Text(Ok("TPL".into())))
    };
    assert_eq!(
        said(serialized().on(not_done())),
        format!("{head}mkdir /home/u/.pivy/tpl: no\n")
    );
    let writing = serialized().on(done());
    assert!(matches!(
        &writing.stage,
        BoxStage::WriteFile { path, text } if path == "/home/u/.pivy/tpl/mine" && text == "TPL"
    ));
    assert_eq!(end(writing.on(done())), (0, None));
    assert_eq!(
        said(serialized().on(done()).on(not_done())),
        format!("{head}write /home/u/.pivy/tpl/mine: no\n")
    );
}

#[test]
fn templates_are_shown() {
    let read = || job(&["tpl", "show"]).on(bytes(b"x"));
    assert_eq!(
        said(read().on(BoxEvent::Template(Err("no".into())))),
        "piggy box tpl show: invalid template: no\n"
    );
    let printing = read().on(BoxEvent::Template(Ok(ShownTemplate {
        version: 1,
        configs: vec![],
    })));
    assert!(matches!(
        &printing.stage,
        BoxStage::Print { text } if text == "-- template --\nversion: 1\n"
    ));
    assert_eq!(end(printing.on(BoxEvent::Printed)), (0, None));
}

#[test]
fn senseless_box_commands_do_not_begin() {
    let args = vec!["stream".to_string(), "encrypt".to_string()];
    let (code, said) = BoxJob::new(run(&args), &None, false).err().unwrap();
    assert_eq!(code, 1);
    assert_eq!(said, "piggy box stream encrypt: template path required\n");
    assert_eq!(BoxJob::new(run(&vec![]), &None, false).err().unwrap().0, 2);
}
