//! What the agent hands to a card, and what it makes of the card's answer.
use piggy::cmd::agent::session::{
    encode_ecdsa_ssh_signature, pkcs1_v15_pad, prepare_sign_data, to_ssh_signature,
    RSA_DIGEST_PREFIX_SHA256, RSA_DIGEST_PREFIX_SHA512, RSA_SHA2_256, RSA_SHA2_512,
};
use piggy::ecdsa_sig::decode_der_ecdsa_signature;
use piggy::piv::PivAlgorithm;
use sha2::{Digest, Sha256, Sha384, Sha512};

#[test]
fn prepare_sign_data_ecp256_returns_sha256_digest() {
    let data = b"hello world";
    let out = prepare_sign_data(PivAlgorithm::EcP256, data, 0).ok().unwrap();
    let expected = Sha256::digest(data).to_vec();
    assert_eq!(out, expected);
    assert_eq!(out.len(), 32);
}

#[test]
fn prepare_sign_data_ecp384_returns_sha384_digest() {
    let data = b"hello world";
    let out = prepare_sign_data(PivAlgorithm::EcP384, data, 0).ok().unwrap();
    let expected = Sha384::digest(data).to_vec();
    assert_eq!(out, expected);
    assert_eq!(out.len(), 48);
}

#[test]
fn prepare_sign_data_ed25519_is_passthrough() {
    let data = b"\x00\x01\x02ascii and binary\xff";
    let out = prepare_sign_data(PivAlgorithm::Ed25519, data, 0).ok().unwrap();
    assert_eq!(out, data);
}

#[test]
fn prepare_sign_data_ed25519_passthrough_empty() {
    let out = prepare_sign_data(PivAlgorithm::Ed25519, b"", 0).ok().unwrap();
    assert!(out.is_empty());
}

#[test]
fn prepare_sign_data_rsa2048_default_sha256() {
    let data = b"test message";
    let out = prepare_sign_data(PivAlgorithm::Rsa2048, data, 0).ok().unwrap();
    assert_eq!(out.len(), 256);

    assert_eq!(out[0], 0x00);
    assert_eq!(out[1], 0x01);

    let hash = Sha256::digest(data);
    let digest_info_len = RSA_DIGEST_PREFIX_SHA256.len() + hash.len();
    let tail_start = out.len() - digest_info_len;
    assert_eq!(
        &out[tail_start..tail_start + RSA_DIGEST_PREFIX_SHA256.len()],
        RSA_DIGEST_PREFIX_SHA256.as_slice()
    );
    assert_eq!(
        &out[tail_start + RSA_DIGEST_PREFIX_SHA256.len()..],
        hash.as_slice()
    );

    assert_eq!(out[tail_start - 1], 0x00);
    for &b in &out[2..tail_start - 1] {
        assert_eq!(b, 0xFF);
    }
}

#[test]
fn prepare_sign_data_rsa2048_explicit_sha256_flag() {
    let data = b"test message";
    let default_out = prepare_sign_data(PivAlgorithm::Rsa2048, data, 0).ok().unwrap();
    let flagged_out =
        prepare_sign_data(PivAlgorithm::Rsa2048, data, RSA_SHA2_256).ok().unwrap();
    assert_eq!(default_out, flagged_out);
}

#[test]
fn prepare_sign_data_rsa2048_sha512_flag() {
    let data = b"test message";
    let out = prepare_sign_data(PivAlgorithm::Rsa2048, data, RSA_SHA2_512).ok().unwrap();
    assert_eq!(out.len(), 256);

    let hash = Sha512::digest(data);
    let digest_info_len = RSA_DIGEST_PREFIX_SHA512.len() + hash.len();
    let tail_start = out.len() - digest_info_len;
    assert_eq!(
        &out[tail_start..tail_start + RSA_DIGEST_PREFIX_SHA512.len()],
        RSA_DIGEST_PREFIX_SHA512.as_slice()
    );
    assert_eq!(
        &out[tail_start + RSA_DIGEST_PREFIX_SHA512.len()..],
        hash.as_slice()
    );
}

#[test]
fn prepare_sign_data_rsa2048_sha512_wins_when_both_flags_set() {
    let data = b"precedence test";
    let out = prepare_sign_data(
        PivAlgorithm::Rsa2048,
        data,
        RSA_SHA2_256 | RSA_SHA2_512,
    ).ok().unwrap();
    let hash = Sha512::digest(data);
    let digest_info_len = RSA_DIGEST_PREFIX_SHA512.len() + hash.len();
    let tail_start = out.len() - digest_info_len;
    assert_eq!(
        &out[tail_start..tail_start + RSA_DIGEST_PREFIX_SHA512.len()],
        RSA_DIGEST_PREFIX_SHA512.as_slice(),
        "SHA-512 must take precedence over SHA-256 when both flags set"
    );
    assert_eq!(
        &out[tail_start + RSA_DIGEST_PREFIX_SHA512.len()..],
        hash.as_slice()
    );
}

#[test]
fn prepare_sign_data_rsa2048_unknown_flags_default_to_sha256() {
    let data = b"unknown flags";
    let default_out = prepare_sign_data(PivAlgorithm::Rsa2048, data, 0).ok().unwrap();
    let noise_flags: u32 = 1 << 31;
    let noisy_out = prepare_sign_data(PivAlgorithm::Rsa2048, data, noise_flags).ok().unwrap();
    assert_eq!(
        default_out, noisy_out,
        "unknown flag bits must be ignored (default to SHA-256)"
    );
}

#[test]
fn prepare_sign_data_rsa1024_default_sha256() {
    let data = b"rsa1024 message";
    let out = prepare_sign_data(PivAlgorithm::Rsa1024, data, 0).ok().unwrap();
    assert_eq!(out.len(), 128);
    assert_eq!(out[0], 0x00);
    assert_eq!(out[1], 0x01);
}

#[test]
fn prepare_sign_data_rsa1024_rejects_sha512_digest_too_large() {
    let data = b"rsa1024 sha512";
    let out = prepare_sign_data(PivAlgorithm::Rsa1024, data, RSA_SHA2_512).ok().unwrap();
    assert_eq!(out.len(), 128);
    let hash = Sha512::digest(data);
    assert!(out.ends_with(hash.as_slice()));
}

#[test]
fn pkcs1_v15_pad_exact_structure_sha256() {
    let hash = vec![0xAB; 32];
    let padded = pkcs1_v15_pad(&hash, &RSA_DIGEST_PREFIX_SHA256, 256).ok().unwrap();
    assert_eq!(padded.len(), 256);
    assert_eq!(padded[0..2], [0x00, 0x01]);

    let pad_len = 256 - 3 - RSA_DIGEST_PREFIX_SHA256.len() - 32;
    assert_eq!(pad_len, 202);
    for i in 2..2 + pad_len {
        assert_eq!(padded[i], 0xFF, "byte {i} should be 0xFF");
    }
    assert_eq!(padded[2 + pad_len], 0x00);
    assert_eq!(
        &padded[3 + pad_len..3 + pad_len + RSA_DIGEST_PREFIX_SHA256.len()],
        RSA_DIGEST_PREFIX_SHA256.as_slice()
    );
    assert_eq!(&padded[padded.len() - 32..], hash.as_slice());
}

#[test]
fn pkcs1_v15_pad_rejects_undersized_key() {
    let hash = vec![0; 32];
    let err = pkcs1_v15_pad(&hash, &RSA_DIGEST_PREFIX_SHA256, 40).err().unwrap();
    assert!(
        err.text().contains("key too small for digest"),
        "unexpected error: {}",
        err.text()
    );
}

#[test]
fn pkcs1_v15_pad_minimum_viable_size() {
    let hash = vec![0xCC; 32];
    let key_size = RSA_DIGEST_PREFIX_SHA256.len() + hash.len() + 11; // 62
    let out = pkcs1_v15_pad(&hash, &RSA_DIGEST_PREFIX_SHA256, key_size).ok().unwrap();
    assert_eq!(out.len(), key_size);
    assert_eq!(out[0..2], [0x00, 0x01]);
    for i in 2..10 {
        assert_eq!(out[i], 0xFF);
    }
    assert_eq!(out[10], 0x00);
}

#[test]
fn pkcs1_v15_pad_rejects_one_byte_below_minimum() {
    let hash = vec![0xCC; 32];
    let key_size = RSA_DIGEST_PREFIX_SHA256.len() + hash.len() + 10; // 61, one below
    let err = pkcs1_v15_pad(&hash, &RSA_DIGEST_PREFIX_SHA256, key_size).err().unwrap();
    assert!(
        err.text().contains("key too small for digest"),
        "unexpected error: {}",
        err.text()
    );
}

fn parse_pkcs1_v15_padded(block: &[u8], expected_digest_info_prefix_len: usize) -> Vec<u8> {
    assert!(block.len() >= 12, "block too short: {}", block.len());
    assert_eq!(block[0], 0x00, "leading byte must be 0x00");
    assert_eq!(block[1], 0x01, "block type must be 0x01 for signature");
    let mut i = 2;
    while i < block.len() && block[i] == 0xFF {
        i += 1;
    }
    assert!(
        i >= 2 + 8,
        "padding must be at least 8 bytes (got {})",
        i - 2
    );
    assert!(i < block.len(), "no separator byte found");
    assert_eq!(block[i], 0x00, "separator byte must be 0x00");
    let digest_info_start = i + 1;
    let hash_start = digest_info_start + expected_digest_info_prefix_len;
    assert!(hash_start <= block.len(), "DigestInfo prefix exceeds block");
    block[hash_start..].to_vec()
}

#[test]
fn pkcs1_v15_pad_roundtrips_through_independent_parser() {
    let hash = Sha256::digest(b"hello world").to_vec();
    let padded = pkcs1_v15_pad(&hash, &RSA_DIGEST_PREFIX_SHA256, 256).ok().unwrap();
    let extracted_hash = parse_pkcs1_v15_padded(&padded, RSA_DIGEST_PREFIX_SHA256.len());
    assert_eq!(extracted_hash, hash);
}

#[test]
fn pkcs1_v15_pad_roundtrips_through_independent_parser_sha512() {
    let hash = Sha512::digest(b"hello world").to_vec();
    let padded = pkcs1_v15_pad(&hash, &RSA_DIGEST_PREFIX_SHA512, 256).ok().unwrap();
    let extracted_hash = parse_pkcs1_v15_padded(&padded, RSA_DIGEST_PREFIX_SHA512.len());
    assert_eq!(extracted_hash, hash);
}

fn make_der_sig(r: &[u8], s: &[u8]) -> Vec<u8> {
    let mut v = Vec::new();
    v.push(0x30); // SEQUENCE
    v.push((r.len() + s.len() + 4) as u8);
    v.push(0x02); // INTEGER
    v.push(r.len() as u8);
    v.extend_from_slice(r);
    v.push(0x02);
    v.push(s.len() as u8);
    v.extend_from_slice(s);
    v
}

#[test]
fn decode_der_ecdsa_signature_minimal_valid() {
    let r = vec![0x11; 32];
    let s = vec![0x22; 32];
    let der = make_der_sig(&r, &s);
    let (dr, ds) = decode_der_ecdsa_signature(&der).unwrap();
    assert_eq!(dr, r);
    assert_eq!(ds, s);
}

#[test]
fn decode_der_ecdsa_signature_with_integer_leading_zero_padding() {
    let r = vec![0x00, 0x80, 0x12, 0x34];
    let s = vec![0x00, 0xFF, 0xCC];
    let der = make_der_sig(&r, &s);
    let (dr, ds) = decode_der_ecdsa_signature(&der).unwrap();
    assert_eq!(dr, r);
    assert_eq!(ds, s);
}

#[test]
fn decode_der_ecdsa_signature_short_integers() {
    let r = vec![0x01];
    let s = vec![0x02, 0x03];
    let der = make_der_sig(&r, &s);
    let (dr, ds) = decode_der_ecdsa_signature(&der).unwrap();
    assert_eq!(dr, r);
    assert_eq!(ds, s);
}

#[test]
fn decode_der_ecdsa_signature_rejects_non_sequence() {
    let bad = vec![0x31, 0x04, 0x02, 0x01, 0x00, 0x02, 0x01, 0x00];
    let err = decode_der_ecdsa_signature(&bad).err().unwrap();
    assert!(err.contains("not a SEQUENCE"));
}

#[test]
fn decode_der_ecdsa_signature_rejects_too_short() {
    let cases: &[(usize, &str)] = &[
        (0, "not a SEQUENCE"),
        (1, "missing length byte"),
        (2, "truncated body"),
        (3, "truncated body"),
        (4, "truncated body"),
        (5, "truncated body"),
    ];
    for &(len, expected_fragment) in cases {
        let bad = vec![0x30; len];
        let err = decode_der_ecdsa_signature(&bad).err().unwrap();
        assert!(
            err.contains(expected_fragment),
            "len={len}: expected {expected_fragment:?}, got: {err}"
        );
    }
}

#[test]
fn decode_der_ecdsa_signature_rejects_missing_r_integer_tag() {
    let bad = vec![0x30, 0x06, 0x03, 0x01, 0x00, 0x02, 0x01, 0x00];
    let err = decode_der_ecdsa_signature(&bad).err().unwrap();
    assert!(err.contains("expected INTEGER tag for r"));
}

#[test]
fn decode_der_ecdsa_signature_rejects_missing_s_integer_tag() {
    let bad = vec![0x30, 0x06, 0x02, 0x01, 0x00, 0x03, 0x01, 0x00];
    let err = decode_der_ecdsa_signature(&bad).err().unwrap();
    assert!(err.contains("expected INTEGER tag for s"));
}

#[test]
fn decode_der_ecdsa_signature_rejects_r_len_exceeding_sequence() {
    let bad = vec![0x30, 0x06, 0x02, 0x64, 0x00, 0x02, 0x01, 0x00];
    let err = decode_der_ecdsa_signature(&bad).err().unwrap();
    assert!(err.contains("r INTEGER length exceeds SEQUENCE"));
}

#[test]
fn decode_der_ecdsa_signature_rejects_s_len_exceeding_sequence() {
    let bad = vec![0x30, 0x06, 0x02, 0x01, 0x00, 0x02, 0x64, 0x00];
    let err = decode_der_ecdsa_signature(&bad).err().unwrap();
    assert!(err.contains("s INTEGER length exceeds SEQUENCE"));
}

#[test]
fn decode_der_ecdsa_signature_never_panics_on_malformed_input() {
    let fuzz_inputs: &[&[u8]] = &[
        &[],
        &[0x30],
        &[0x30, 0xFF],
        &[0x30, 0x06, 0x02, 0xFF, 0x00, 0x02, 0x01, 0x00],
        &[0x30, 0x06, 0x02, 0x01, 0x00, 0x02, 0xFF, 0x00],
        &[0x30, 0x81, 0xFF, 0x02, 0x01, 0x00, 0x02, 0x01, 0x00],
        &[0x30, 0x82, 0xFF, 0xFF, 0x02, 0x01, 0x00, 0x02, 0x01, 0x00],
        &[0x30, 0x80],                         // indefinite form (unsupported)
        &[0x30, 0x04, 0x02, 0x02, 0x00, 0x01], // s missing entirely
    ];
    for (i, input) in fuzz_inputs.iter().enumerate() {
        let result = decode_der_ecdsa_signature(input);
        assert!(
            result.is_err(),
            "fuzz input #{i} unexpectedly succeeded: {input:?}"
        );
    }
}

#[test]
fn decode_der_ecdsa_signature_rejects_truncated_sequence_body() {
    let bad = vec![0x30, 0x20, 0x02, 0x01, 0x00, 0x02];
    let err = decode_der_ecdsa_signature(&bad).err().unwrap();
    assert!(err.contains("truncated"));
}

fn make_der_sig_long_form(r: &[u8], s: &[u8]) -> Vec<u8> {
    let body_len = 4 + r.len() + s.len(); // two INTEGERs with 1-byte length headers each
    assert!(
        body_len >= 128,
        "long-form test requires body >= 128, got {body_len}"
    );
    let mut v = Vec::new();
    v.push(0x30); // SEQUENCE
    v.push(0x81); // long-form length: next byte is the length
    v.push(body_len as u8);
    v.push(0x02); // INTEGER
    v.push(r.len() as u8);
    v.extend_from_slice(r);
    v.push(0x02);
    v.push(s.len() as u8);
    v.extend_from_slice(s);
    v
}

#[test]
fn decode_der_ecdsa_signature_handles_long_form_sequence_length() {
    let r: Vec<u8> = std::iter::repeat(0x11).take(63).collect();
    let s: Vec<u8> = std::iter::repeat(0x22).take(63).collect();
    let der = make_der_sig_long_form(&r, &s);
    assert_eq!(der[1], 0x81);
    let (dr, ds) = decode_der_ecdsa_signature(&der).unwrap();
    assert_eq!(dr, r);
    assert_eq!(ds, s);
}

#[test]
fn decode_der_ecdsa_signature_rejects_non_canonical_long_form() {
    let bad = vec![0x30, 0x81, 0x06, 0x02, 0x01, 0x00, 0x02, 0x01, 0x00];
    let err = decode_der_ecdsa_signature(&bad).err().unwrap();
    assert!(err.contains("non-canonical"));
}

#[test]
fn decode_der_ecdsa_signature_rejects_trailing_bytes_in_sequence() {
    let inner: Vec<u8> = vec![0x02, 0x01, 0x00, 0x02, 0x01, 0x00, 0xDE];
    let mut der = Vec::with_capacity(2 + inner.len());
    der.push(0x30);
    der.push(inner.len() as u8);
    der.extend_from_slice(&inner);
    let err = decode_der_ecdsa_signature(&der).err().unwrap();
    assert!(err.contains("trailing bytes"));
}

#[test]
fn encode_ecdsa_ssh_signature_format() {
    let r = vec![0x01, 0x02, 0x03];
    let s = vec![0xAA, 0xBB];
    let blob = encode_ecdsa_ssh_signature(&r, &s);
    assert_eq!(blob.len(), 13);
    assert_eq!(&blob[0..4], &3u32.to_be_bytes());
    assert_eq!(&blob[4..7], r.as_slice());
    assert_eq!(&blob[7..11], &2u32.to_be_bytes());
    assert_eq!(&blob[11..13], s.as_slice());
}

#[test]
fn encode_ecdsa_ssh_signature_roundtrip_from_der() {
    let r = vec![0x00, 0xAB, 0xCD, 0xEF];
    let s = vec![0x12, 0x34, 0x56];
    let der = make_der_sig(&r, &s);
    let (dr, ds) = decode_der_ecdsa_signature(&der).unwrap();
    let blob = encode_ecdsa_ssh_signature(&dr, &ds);
    assert_eq!(&blob[0..4], &(r.len() as u32).to_be_bytes());
    assert_eq!(&blob[4..4 + r.len()], r.as_slice());
    let s_off = 4 + r.len();
    assert_eq!(&blob[s_off..s_off + 4], &(s.len() as u32).to_be_bytes());
    assert_eq!(&blob[s_off + 4..], s.as_slice());
}

#[test]
fn to_ssh_signature_ecp256_decodes_der() {
    let mut r = vec![0x00];
    r.extend(std::iter::repeat(0xAB).take(32));
    let mut s = vec![0x00];
    s.extend(std::iter::repeat(0xCD).take(32));
    let der = make_der_sig(&r, &s);
    let sig = to_ssh_signature(PivAlgorithm::EcP256, &der, 0).ok().unwrap();
    assert_eq!(sig.algorithm.as_str(), "ecdsa-sha2-nistp256");
    let expected = encode_ecdsa_ssh_signature(&r, &s);
    assert_eq!(sig.data.as_slice(), expected.as_slice());
}

#[test]
fn to_ssh_signature_ecp256_decodes_der_low_high_bit() {
    let r = vec![0x11; 32]; // high bit 0
    let s = vec![0x22; 32]; // high bit 0
    let der = make_der_sig(&r, &s);
    let sig = to_ssh_signature(PivAlgorithm::EcP256, &der, 0).ok().unwrap();
    assert_eq!(sig.algorithm.as_str(), "ecdsa-sha2-nistp256");
    let expected = encode_ecdsa_ssh_signature(&r, &s);
    assert_eq!(sig.data.as_slice(), expected.as_slice());
}

#[test]
fn to_ssh_signature_ecp384_decodes_der() {
    let r = vec![0x11; 48];
    let s = vec![0x22; 48];
    let der = make_der_sig(&r, &s);
    let sig = to_ssh_signature(PivAlgorithm::EcP384, &der, 0).ok().unwrap();
    assert_eq!(sig.algorithm.as_str(), "ecdsa-sha2-nistp384");
    let expected = encode_ecdsa_ssh_signature(&r, &s);
    assert_eq!(sig.data.as_slice(), expected.as_slice());
}

#[test]
fn to_ssh_signature_ecdsa_rejects_bad_der() {
    let bad_der = vec![0xFF; 8];
    let err = to_ssh_signature(PivAlgorithm::EcP256, &bad_der, 0).err().unwrap();
    assert!(err.text().contains("not a SEQUENCE"));
}

#[test]
fn to_ssh_signature_ecdsa_rejects_malformed_inner_der() {
    let bad_der = vec![0x30, 0x06, 0x02, 0x64, 0x00, 0x02, 0x01, 0x00];
    let err = to_ssh_signature(PivAlgorithm::EcP256, &bad_der, 0).err().unwrap();
    assert!(err.text().contains("r INTEGER length exceeds SEQUENCE"));
}

#[test]
fn to_ssh_signature_ed25519_passthrough() {
    let raw = vec![0x33; 64];
    let sig = to_ssh_signature(PivAlgorithm::Ed25519, &raw, 0).ok().unwrap();
    assert_eq!(sig.algorithm.as_str(), "ssh-ed25519");
    assert_eq!(sig.data.as_slice(), raw.as_slice());
}

#[test]
fn to_ssh_signature_rsa2048_default_labels_sha256() {
    let raw = vec![0xBB; 256];
    let sig = to_ssh_signature(PivAlgorithm::Rsa2048, &raw, 0).ok().unwrap();
    assert_eq!(sig.algorithm.as_str(), "rsa-sha2-256");
    assert_eq!(sig.data.as_slice(), raw.as_slice());
}

#[test]
fn to_ssh_signature_rsa2048_sha512_flag_labels_sha512() {
    let raw = vec![0xAB; 256];
    let sig = to_ssh_signature(PivAlgorithm::Rsa2048, &raw, RSA_SHA2_512).ok().unwrap();
    assert_eq!(sig.algorithm.as_str(), "rsa-sha2-512");
    assert_eq!(sig.data.as_slice(), raw.as_slice());
}

#[test]
fn to_ssh_signature_rsa2048_sha256_flag_labels_sha256() {
    let raw = vec![0x01; 256];
    let sig = to_ssh_signature(PivAlgorithm::Rsa2048, &raw, RSA_SHA2_256).ok().unwrap();
    assert_eq!(sig.algorithm.as_str(), "rsa-sha2-256");
}

#[test]
fn to_ssh_signature_rsa1024_sha256_default() {
    let raw = vec![0x01; 128];
    let sig = to_ssh_signature(PivAlgorithm::Rsa1024, &raw, 0).ok().unwrap();
    assert_eq!(sig.algorithm.as_str(), "rsa-sha2-256");
}

#[test]
fn to_ssh_signature_rsa2048_sha512_wins_when_both_flags_set() {
    let raw = vec![0xAB; 256];
    let sig = to_ssh_signature(
        PivAlgorithm::Rsa2048,
        &raw,
        RSA_SHA2_256 | RSA_SHA2_512,
    )
    .ok()
    .unwrap();
    assert_eq!(sig.algorithm.as_str(), "rsa-sha2-512");
}

#[test]
fn to_ssh_signature_rsa2048_unknown_flags_default_to_sha256() {
    let raw = vec![0xAB; 256];
    let sig = to_ssh_signature(PivAlgorithm::Rsa2048, &raw, 1 << 31).ok().unwrap();
    assert_eq!(sig.algorithm.as_str(), "rsa-sha2-256");
}

#[test]
fn rsa_digest_prefix_sha256_matches_rfc_8017() {
    let expected: [u8; 19] = [
        0x30, 0x31, 0x30, 0x0d, 0x06, 0x09, 0x60, 0x86, 0x48, 0x01, 0x65, 0x03, 0x04, 0x02,
        0x01, 0x05, 0x00, 0x04, 0x20,
    ];
    assert_eq!(RSA_DIGEST_PREFIX_SHA256, expected);
}

#[test]
fn rsa_digest_prefix_sha512_matches_rfc_8017() {
    let expected: [u8; 19] = [
        0x30, 0x51, 0x30, 0x0d, 0x06, 0x09, 0x60, 0x86, 0x48, 0x01, 0x65, 0x03, 0x04, 0x02,
        0x03, 0x05, 0x00, 0x04, 0x40,
    ];
    assert_eq!(RSA_DIGEST_PREFIX_SHA512, expected);
}
