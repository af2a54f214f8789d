//! The plan that the clipboard's worker is handed.
use piggy::internal_clipboard_restore::{
    deserialize_plan, serialize_plan, should_restore, ClipPlan, Invocation,
};

fn fixture_plan() -> ClipPlan {
    ClipPlan {
        copy: Invocation {
            program: b"wl-copy".to_vec(),
            args: vec![b"--primary".to_vec()],
        },
        paste: Invocation {
            program: b"wl-paste".to_vec(),
            args: vec![b"-n".to_vec(), b"--primary".to_vec()],
        },
        sleep_argv0: "piggy sleep on display wayland-0".to_string(),
        clip_time: 45,
        pushed_bytes: b"new-secret".to_vec(),
        restore_bytes: b"old-clip".to_vec(),
        user_message: "Copied cred to clipboard. Will clear in 45 seconds.".to_string(),
    }
}

#[test]
fn roundtrip_basic_plan() {
    let p = fixture_plan();
    let bytes = serialize_plan(&p);
    let q = deserialize_plan(&bytes).unwrap();
    assert_eq!(q.copy.program, p.copy.program);
    assert_eq!(q.copy.args, p.copy.args);
    assert_eq!(q.paste.program, p.paste.program);
    assert_eq!(q.paste.args, p.paste.args);
    assert_eq!(q.sleep_argv0, p.sleep_argv0);
    assert_eq!(q.clip_time, p.clip_time);
    assert_eq!(q.pushed_bytes, p.pushed_bytes);
    assert_eq!(q.restore_bytes, p.restore_bytes);
    assert_eq!(q.user_message, "");
}

#[test]
fn roundtrip_binary_clipboard_payloads() {
    let mut p = fixture_plan();
    p.pushed_bytes = vec![0x00, 0xFF, 0x01, b'\n', b'a', 0x00];
    p.restore_bytes = vec![0xFE, 0xFD, 0x00, 0x01, b'\n'];
    let bytes = serialize_plan(&p);
    let q = deserialize_plan(&bytes).unwrap();
    assert_eq!(q.pushed_bytes, p.pushed_bytes);
    assert_eq!(q.restore_bytes, p.restore_bytes);
}

#[test]
fn roundtrip_zero_args() {
    let mut p = fixture_plan();
    p.copy.args.clear();
    p.paste.args.clear();
    let bytes = serialize_plan(&p);
    let q = deserialize_plan(&bytes).unwrap();
    assert!(q.copy.args.is_empty());
    assert!(q.paste.args.is_empty());
}

#[test]
fn deserialize_rejects_truncated_input() {
    let p = fixture_plan();
    let bytes = serialize_plan(&p);
    for cut in 0..bytes.len() {
        let result = deserialize_plan(&bytes[..cut]);
        assert!(
            result.is_err(),
            "truncated at {cut} should fail, got {result:?}"
        );
    }
}

#[test]
fn deserialize_rejects_trailing_garbage() {
    let p = fixture_plan();
    let mut bytes = serialize_plan(&p);
    bytes.push(0xCC);
    let result = deserialize_plan(&bytes);
    assert!(result.is_err());
    assert!(result.unwrap_err().contains("trailing"));
}

#[test]
fn plan_has_a_fixed_form() {
    let p = ClipPlan {
        copy: Invocation {
            program: b"c".to_vec(),
            args: vec![],
        },
        paste: Invocation {
            program: b"p".to_vec(),
            args: vec![b"x".to_vec()],
        },
        sleep_argv0: "s".to_string(),
        clip_time: 0x0102_0304_0506_0708,
        pushed_bytes: vec![],
        restore_bytes: vec![9],
        user_message: String::new(),
    };
    assert_eq!(
        serialize_plan(&p),
        vec![
            0, 0, 0, 1, b'c', 0, 0, 0, 0, 0, 0, 0, 1, b'p', 0, 0, 0, 1, 0, 0, 0, 1, b'x', 0, 0, 0,
            1, b's', 1, 2, 3, 4, 5, 6, 7, 8, 0, 0, 0, 0, 0, 0, 0, 1, 9
        ]
    );
    assert_eq!(deserialize_plan(&serialize_plan(&p)).unwrap(), p);
}

#[test]
fn malformed_plans_are_told_apart() {
    assert_eq!(
        deserialize_plan(&[0, 0]).unwrap_err(),
        "truncated u32 length prefix"
    );
    assert_eq!(
        deserialize_plan(&[0, 0, 0, 5, 1, 2]).unwrap_err(),
        "truncated bytes field (claimed 5, remaining 2)"
    );
    // Empty programs without arguments, then a name that is not UTF-8.
    let mut bytes = vec![0u8; 16];
    bytes.extend_from_slice(&[0, 0, 0, 1, 0xFF]);
    assert!(deserialize_plan(&bytes)
        .unwrap_err()
        .starts_with("sleep_argv0 not UTF-8: "));
    let mut bytes = vec![0u8; 20];
    bytes.extend_from_slice(&[0, 0, 0]);
    assert_eq!(
        deserialize_plan(&bytes).unwrap_err(),
        "truncated u64 (clip_time)"
    );
}

#[test]
fn clipboard_is_restored_only_while_untouched() {
    let p = fixture_plan();
    assert!(should_restore(&p, &b"new-secret".to_vec()));
    assert!(!should_restore(&p, &b"something else".to_vec()));
}
