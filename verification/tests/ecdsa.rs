//! Signatures of elliptic-curve keys in the forms that cards and agents use.
use piggy::ecdsa_sig::{decode_der_ecdsa_signature, der_to_raw_rs, ssh_ecdsa_blob_to_der};

fn der_sig(r: &[u8], s: &[u8]) -> Vec<u8> {
    let mut body = Vec::new();
    body.push(0x02);
    body.push(r.len() as u8);
    body.extend_from_slice(r);
    body.push(0x02);
    body.push(s.len() as u8);
    body.extend_from_slice(s);
    let mut der = vec![0x30, body.len() as u8];
    der.extend_from_slice(&body);
    der
}

#[test]
fn decode_minimal_valid() {
    let der = der_sig(&[0x01], &[0x02]);
    let (r, s) = decode_der_ecdsa_signature(&der).unwrap();
    assert_eq!(r, vec![0x01]);
    assert_eq!(s, vec![0x02]);
}

#[test]
fn decode_rejects_non_sequence() {
    let err = decode_der_ecdsa_signature(&[0x31, 0x00]).unwrap_err();
    assert!(err.contains("not a SEQUENCE"));
}

#[test]
fn der_to_raw_rs_pads_short_integers_to_field_len() {
    let der = der_sig(&[0x01], &[0x02]);
    let raw = der_to_raw_rs(&der, 32).unwrap();
    assert_eq!(raw.len(), 64);
    let mut want = vec![0u8; 64];
    want[31] = 0x01;
    want[63] = 0x02;
    assert_eq!(raw, want);
}

#[test]
fn der_to_raw_rs_strips_der_sign_byte() {
    let mut r = vec![0x00];
    r.extend_from_slice(&[0xFF; 32]); // 0x00 || 32 bytes
    let s = vec![0xAB; 32];
    let der = der_sig(&r, &s);
    let raw = der_to_raw_rs(&der, 32).unwrap();
    assert_eq!(raw.len(), 64);
    assert_eq!(&raw[..32], &[0xFF; 32]);
    assert_eq!(&raw[32..], &[0xAB; 32]);
}

#[test]
fn der_to_raw_rs_full_width_integers() {
    let r = vec![0x11; 32];
    let s = vec![0x22; 32];
    let der = der_sig(&r, &s);
    let raw = der_to_raw_rs(&der, 32).unwrap();
    assert_eq!(&raw[..32], r.as_slice());
    assert_eq!(&raw[32..], s.as_slice());
}

#[test]
fn der_to_raw_rs_rejects_oversized_integer() {
    let r = vec![0x7F; 33];
    let s = vec![0x01; 32];
    let der = der_sig(&r, &s);
    let err = der_to_raw_rs(&der, 32).unwrap_err();
    assert!(err.contains("exceeds field length"), "got: {err}");
}

#[test]
fn der_to_raw_rs_p384_field_width() {
    let r = vec![0x11; 48];
    let s = vec![0x22; 48];
    let der = der_sig(&r, &s);
    let raw = der_to_raw_rs(&der, 48).unwrap();
    assert_eq!(raw.len(), 96);
}

#[test]
fn decode_never_panics_on_malformed_input() {
    for len in 0..=6usize {
        let mut buf = vec![0u8; len];
        for fill in [0x00u8, 0x30, 0x02, 0xFF, 0x81, 0x82] {
            buf.iter_mut().for_each(|b| *b = fill);
            let _ = decode_der_ecdsa_signature(&buf);
        }
    }
}

fn ssh_blob(r: &[u8], s: &[u8]) -> Vec<u8> {
    let mut buf = Vec::new();
    buf.extend_from_slice(&(r.len() as u32).to_be_bytes());
    buf.extend_from_slice(r);
    buf.extend_from_slice(&(s.len() as u32).to_be_bytes());
    buf.extend_from_slice(s);
    buf
}

#[test]
fn ssh_blob_round_trips_through_der() {
    let r = vec![0x11u8; 32];
    let s = vec![0x22u8; 32];
    let der = ssh_ecdsa_blob_to_der(&ssh_blob(&r, &s)).unwrap();
    let (dr, ds) = decode_der_ecdsa_signature(&der).unwrap();
    assert_eq!(dr, r);
    assert_eq!(ds, s);
}

#[test]
fn ssh_blob_to_raw_matches_der_to_raw() {
    let r_body = vec![0x00, 0xFF]; // mpint/DER sign byte + 0xFF
    let s_body = vec![0x7F, 0xAB];
    let der_direct = der_sig(&r_body, &s_body);
    let raw_card = der_to_raw_rs(&der_direct, 32).unwrap();

    let der_via_ssh = ssh_ecdsa_blob_to_der(&ssh_blob(&r_body, &s_body)).unwrap();
    let raw_agent = der_to_raw_rs(&der_via_ssh, 32).unwrap();
    assert_eq!(raw_card, raw_agent);
}

#[test]
fn ssh_blob_p384_field_width() {
    let r = vec![0x11u8; 48];
    let s = vec![0x22u8; 48];
    let der = ssh_ecdsa_blob_to_der(&ssh_blob(&r, &s)).unwrap();
    let raw = der_to_raw_rs(&der, 48).unwrap();
    assert_eq!(raw.len(), 96);
}

#[test]
fn ssh_blob_rejects_trailing_bytes() {
    let mut blob = ssh_blob(&[0x01], &[0x02]);
    blob.push(0xFF);
    let err = ssh_ecdsa_blob_to_der(&blob).unwrap_err();
    assert!(err.contains("trailing"), "got: {err}");
}

#[test]
fn ssh_blob_rejects_truncated_length() {
    let err = ssh_ecdsa_blob_to_der(&[0x00, 0x00, 0x00]).unwrap_err();
    assert!(err.contains("truncated"), "got: {err}");
}

#[test]
fn ssh_blob_rejects_length_past_buffer() {
    let blob = vec![0x00, 0x00, 0x00, 0x20, 0xAA];
    let err = ssh_ecdsa_blob_to_der(&blob).unwrap_err();
    assert!(err.contains("exceeds buffer"), "got: {err}");
}

#[test]
fn ssh_blob_empty_mpint_becomes_zero_integer() {
    let der = ssh_ecdsa_blob_to_der(&ssh_blob(&[], &[0x01])).unwrap();
    let (r, s) = decode_der_ecdsa_signature(&der).unwrap();
    assert_eq!(r, vec![0x00]);
    assert_eq!(s, vec![0x01]);
}

#[test]
fn ssh_blob_never_panics_on_malformed_input() {
    for len in 0..=10usize {
        let mut buf = vec![0u8; len];
        for fill in [0x00u8, 0x01, 0x20, 0xFF] {
            buf.iter_mut().for_each(|b| *b = fill);
            let _ = ssh_ecdsa_blob_to_der(&buf);
        }
    }
}
