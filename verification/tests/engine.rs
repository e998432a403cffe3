use grass_crypt::engine::{decrypting, encrypting, parse_mode, ModeName};
use grass_crypt::CipherError;

fn key_a() -> Vec<u8> {
    let mut k = Vec::new();
    for i in 0..32u8 {
        k.push(i);
    }
    k
}

fn key_b() -> Vec<u8> {
    let mut k = Vec::new();
    for i in 0..32u8 {
        k.push(0xA0 ^ i);
    }
    k
}

fn sample(len: usize) -> Vec<u8> {
    let mut p = Vec::new();
    for i in 0..len {
        p.push((i * 7 + 3) as u8);
    }
    p
}

fn round_trip(mode: &str, len: usize) {
    let pt = sample(len);
    let ct = encrypting(pt.clone(), key_a(), mode).unwrap();
    if mode == "ECB" || mode == "CBC" {
        assert_eq!(ct.len() % 16, 0);
        assert!(ct.len() > pt.len());
    } else {
        assert_eq!(ct.len(), pt.len());
    }
    let back = decrypting(ct, key_a(), mode).unwrap();
    assert_eq!(back, pt);
}

#[test]
fn round_trip_ecb() {
    round_trip("ECB", 0);
    round_trip("ECB", 1);
    round_trip("ECB", 16);
    round_trip("ECB", 32);
    round_trip("ECB", 33);
}

#[test]
fn round_trip_cbc() {
    round_trip("CBC", 0);
    round_trip("CBC", 1);
    round_trip("CBC", 16);
    round_trip("CBC", 48);
    round_trip("CBC", 17);
}

#[test]
fn round_trip_cfb() {
    round_trip("CFB", 1);
    round_trip("CFB", 5);
    round_trip("CFB", 16);
    round_trip("CFB", 17);
    round_trip("CFB", 40);
}

#[test]
fn round_trip_ofb() {
    round_trip("OFB", 1);
    round_trip("OFB", 16);
    round_trip("OFB", 33);
}

#[test]
fn round_trip_ctr() {
    round_trip("CTR", 1);
    round_trip("CTR", 16);
    round_trip("CTR", 33);
    round_trip("CTR", 64);
}

#[test]
fn ecb_identical_blocks_give_identical_ciphertext_blocks() {
    let mut pt = vec![0x5Au8; 16];
    pt.extend_from_slice(&[0x5Au8; 16]);
    let ct = encrypting(pt, key_a(), "ECB").unwrap();
    assert_eq!(ct.len(), 48);
    assert_eq!(ct[0..16], ct[16..32]);
}

#[test]
fn cbc_identical_blocks_give_distinct_ciphertext_blocks() {
    let mut pt = vec![0x5Au8; 16];
    pt.extend_from_slice(&[0x5Au8; 16]);
    let ct = encrypting(pt, key_a(), "CBC").unwrap();
    assert_eq!(ct.len(), 48);
    assert_ne!(ct[0..16], ct[16..32]);
}

#[test]
fn cfb_identical_blocks_give_distinct_ciphertext_blocks() {
    let mut pt = vec![0x5Au8; 16];
    pt.extend_from_slice(&[0x5Au8; 16]);
    let ct = encrypting(pt, key_a(), "CFB").unwrap();
    assert_eq!(ct.len(), 32);
    assert_ne!(ct[0..16], ct[16..32]);
}

#[test]
fn key_of_31_bytes_is_rejected() {
    let key = vec![0u8; 31];
    assert_eq!(
        encrypting(sample(4), key.clone(), "ECB"),
        Err(CipherError::InvalidKeyLength)
    );
    assert_eq!(
        decrypting(sample(16), key, "CBC"),
        Err(CipherError::InvalidKeyLength)
    );
}

#[test]
fn unknown_mode_is_rejected() {
    assert_eq!(
        encrypting(sample(4), key_a(), "XYZ"),
        Err(CipherError::InvalidMode)
    );
    assert_eq!(
        encrypting(sample(4), key_a(), "ecb"),
        Err(CipherError::InvalidMode)
    );
    assert_eq!(
        decrypting(sample(16), key_a(), ""),
        Err(CipherError::InvalidMode)
    );
}

#[test]
fn bad_key_is_reported_before_bad_mode() {
    let key = vec![0u8; 31];
    assert_eq!(
        encrypting(sample(4), key, "XYZ"),
        Err(CipherError::InvalidKeyLength)
    );
}

#[test]
fn cbc_unaligned_ciphertext_is_rejected() {
    assert_eq!(
        decrypting(sample(15), key_a(), "CBC"),
        Err(CipherError::DataNotAligned)
    );
    assert_eq!(
        decrypting(sample(17), key_a(), "ECB"),
        Err(CipherError::DataNotAligned)
    );
}

#[test]
fn empty_ciphertext_is_too_short_for_block_modes() {
    assert_eq!(
        decrypting(Vec::new(), key_a(), "CBC"),
        Err(CipherError::DataTooShort)
    );
    assert_eq!(
        decrypting(Vec::new(), key_a(), "ECB"),
        Err(CipherError::DataTooShort)
    );
}

#[test]
fn empty_input_is_too_short_for_stream_modes() {
    assert_eq!(
        encrypting(Vec::new(), key_a(), "CTR"),
        Err(CipherError::DataTooShort)
    );
    assert_eq!(
        encrypting(Vec::new(), key_a(), "OFB"),
        Err(CipherError::DataTooShort)
    );
    assert_eq!(
        decrypting(Vec::new(), key_a(), "CFB"),
        Err(CipherError::DataTooShort)
    );
}

#[test]
fn wrong_key_fails_the_padding_check() {
    let pt = sample(20);
    let ct = encrypting(pt, key_a(), "CBC").unwrap();
    let r = decrypting(ct, key_b(), "CBC");
    assert_eq!(r, Err(CipherError::InvalidPadding));
}

#[test]
fn scenario_zero_key_ecb_round_trip() {
    let key = vec![0u8; 32];
    let pt = vec![0x41u8; 16];
    let ct = encrypting(pt.clone(), key.clone(), "ECB").unwrap();
    let back = decrypting(ct, key, "ECB").unwrap();
    assert_eq!(back, pt);
}

#[test]
fn scenario_ctr_five_bytes_keeps_length() {
    let pt = sample(5);
    let ct = encrypting(pt.clone(), key_a(), "CTR").unwrap();
    assert_eq!(ct.len(), 5);
    assert_ne!(ct, pt);
}

#[test]
fn scenario_cbc_truncated_ciphertext_not_aligned() {
    let pt = sample(20);
    let mut ct = encrypting(pt, key_a(), "CBC").unwrap();
    ct.truncate(15);
    assert_eq!(decrypting(ct, key_a(), "CBC"), Err(CipherError::DataNotAligned));
}

#[test]
fn scenario_ofb_fixed_iv_is_deterministic() {
    let pt = sample(37);
    let c1 = encrypting(pt.clone(), key_a(), "OFB").unwrap();
    let c2 = encrypting(pt, key_a(), "OFB").unwrap();
    assert_eq!(c1, c2);
}

#[test]
fn kuznyechik_reference_vector_through_ecb() {
    let key: Vec<u8> = vec![
        0x88, 0x99, 0xAA, 0xBB, 0xCC, 0xDD, 0xEE, 0xFF, 0x00, 0x11, 0x22, 0x33, 0x44, 0x55, 0x66,
        0x77, 0xFE, 0xDC, 0xBA, 0x98, 0x76, 0x54, 0x32, 0x10, 0x01, 0x23, 0x45, 0x67, 0x89, 0xAB,
        0xCD, 0xEF,
    ];
    let pt: Vec<u8> = vec![
        0x11, 0x22, 0x33, 0x44, 0x55, 0x66, 0x77, 0x00, 0xFF, 0xEE, 0xDD, 0xCC, 0xBB, 0xAA, 0x99,
        0x88,
    ];
    let expected: Vec<u8> = vec![
        0x7F, 0x67, 0x9D, 0x90, 0xBE, 0xBC, 0x24, 0x30, 0x5A, 0x46, 0x8D, 0x42, 0xB9, 0xD4, 0xED,
        0xCD,
    ];
    let ct = encrypting(pt.clone(), key.clone(), "ECB").unwrap();
    assert_eq!(ct.len(), 32);
    assert_eq!(&ct[0..16], expected.as_slice());
    let back = decrypting(ct, key, "ECB").unwrap();
    assert_eq!(back, pt);
}

#[test]
fn parse_mode_matches_exactly() {
    assert_eq!(parse_mode("ECB"), Some(ModeName::Ecb));
    assert_eq!(parse_mode("CBC"), Some(ModeName::Cbc));
    assert_eq!(parse_mode("CFB"), Some(ModeName::Cfb));
    assert_eq!(parse_mode("OFB"), Some(ModeName::Ofb));
    assert_eq!(parse_mode("CTR"), Some(ModeName::Ctr));
    assert_eq!(parse_mode("ECb"), None);
    assert_eq!(parse_mode("ECBX"), None);
    assert_eq!(parse_mode(""), None);
}
