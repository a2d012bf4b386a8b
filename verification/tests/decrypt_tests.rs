use aes::cipher::block_padding::NoPadding;
use aes::cipher::{BlockEncryptMut, KeyIvInit};
use hmac::Mac;
use wx_dump::{
    check_hmac, decrypt_db_bytes, decrypt_wal_bytes, get_check_sum, KeyMaterial, WalByteOrder,
    WxErrorKind,
};

fn kdf(password: &[u8], salt: &[u8], rounds: u32) -> [u8; 32] {
    let mut out = [0u8; 32];
    pbkdf2::pbkdf2::<hmac::Hmac<sha1::Sha1>>(password, salt, rounds, &mut out).unwrap();
    out
}

fn mac_salt_of(salt: &[u8; 16]) -> [u8; 16] {
    let mut out = [0u8; 16];
    for i in 0..16 {
        out[i] = salt[i] ^ 0x3a;
    }
    out
}

fn hmac_tag(key: &[u8], parts: &[&[u8]]) -> Vec<u8> {
    let mut mac = hmac::Hmac::<sha1::Sha1>::new_from_slice(key).unwrap();
    for p in parts {
        mac.update(p);
    }
    mac.finalize().into_bytes().to_vec()
}

fn encrypt_cbc(key: &[u8; 32], iv: &[u8; 16], body: &[u8]) -> Vec<u8> {
    let enc = cbc::Encryptor::<aes::Aes256>::new_from_slices(key, iv).unwrap();
    let mut out = vec![0u8; body.len()];
    enc.encrypt_padded_b2b_mut::<NoPadding>(body, &mut out).unwrap();
    out
}

/// Builds an encrypted database image and the plaintext it must decrypt to.
fn build_db(raw_key: &[u8; 32], salt: &[u8; 16], bodies: &[Vec<u8>]) -> (Vec<u8>, Vec<u8>) {
    let cipher_key = kdf(raw_key, salt, 64000);
    let ms = mac_salt_of(salt);
    let mac_key = kdf(&cipher_key, &ms, 2);
    let mut enc_file = Vec::new();
    let mut plain_file = Vec::new();
    for (i, body) in bodies.iter().enumerate() {
        let index = (i + 1) as u32;
        let mut iv = [0u8; 16];
        for (k, b) in iv.iter_mut().enumerate() {
            *b = (index as u8).wrapping_mul(31).wrapping_add(k as u8);
        }
        let ct = encrypt_cbc(&cipher_key, &iv, body);
        let tag = hmac_tag(&mac_key, &[&ct, &iv, &index.to_le_bytes()]);
        let pad = [0u8; 12];
        if index == 1 {
            assert_eq!(body.len(), 4096 - 16 - 48);
            enc_file.extend_from_slice(salt);
            plain_file.extend_from_slice(b"SQLite format 3\x00");
        } else {
            assert_eq!(body.len(), 4096 - 48);
        }
        enc_file.extend_from_slice(&ct);
        enc_file.extend_from_slice(&iv);
        enc_file.extend_from_slice(&tag[..20]);
        enc_file.extend_from_slice(&pad);
        plain_file.extend_from_slice(body);
        plain_file.extend_from_slice(&iv);
        plain_file.extend_from_slice(&tag[..20]);
        plain_file.extend_from_slice(&pad);
    }
    (enc_file, plain_file)
}

fn fixture_key() -> [u8; 32] {
    let mut key = [0u8; 32];
    for (i, b) in key.iter_mut().enumerate() {
        *b = (i as u8).wrapping_mul(7).wrapping_add(3);
    }
    key
}

fn fixture_salt() -> [u8; 16] {
    let mut salt = [0u8; 16];
    for (i, b) in salt.iter_mut().enumerate() {
        *b = (i as u8).wrapping_mul(11).wrapping_add(1);
    }
    salt
}

fn body_bytes(len: usize, seed: u8) -> Vec<u8> {
    (0..len).map(|i| (i as u8).wrapping_mul(13).wrapping_add(seed)).collect()
}

#[test]
fn round_trip_two_pages() {
    let key = fixture_key();
    let salt = fixture_salt();
    let bodies = vec![body_bytes(4032, 5), body_bytes(4048, 9)];
    let (enc, plain) = build_db(&key, &salt, &bodies);
    assert_eq!(enc.len(), 8192);
    let out = decrypt_db_bytes(&enc, &key, true, "fixture.db").unwrap();
    assert_eq!(out, plain);
    assert_eq!(&out[0..16], b"SQLite format 3\x00");
}

#[test]
fn header_invariant_without_page_checks() {
    let key = fixture_key();
    let salt = fixture_salt();
    let bodies = vec![body_bytes(4032, 77)];
    let (enc, _) = build_db(&key, &salt, &bodies);
    let out = decrypt_db_bytes(&enc, &key, false, "fixture.db").unwrap();
    assert_eq!(&out[0..16], b"SQLite format 3\x00");
    assert_eq!(out.len(), enc.len());
}

#[test]
fn misshapen_file_is_rejected() {
    let key = fixture_key();
    let e = decrypt_db_bytes(&[0u8; 100], &key, false, "short.db").unwrap_err();
    assert!(matches!(e.kind, WxErrorKind::Malformed { .. }));
    let e = decrypt_db_bytes(&[0u8; 5000], &key, false, "ragged.db").unwrap_err();
    assert!(matches!(e.kind, WxErrorKind::Malformed { .. }));
}

fn key_sensitivity_bits(bit_lo: usize, bit_hi: usize) {
    let key = fixture_key();
    let salt = fixture_salt();
    let bodies = vec![body_bytes(4032, 21)];
    let (enc, _) = build_db(&key, &salt, &bodies);
    for bit in bit_lo..bit_hi {
        let mut bad = key;
        bad[bit / 8] ^= 1 << (bit % 8);
        let e = decrypt_db_bytes(&enc, &bad, true, "fixture.db").unwrap_err();
        match e.kind {
            WxErrorKind::InvalidKey { key: k, path } => {
                assert_eq!(k, bad.to_vec());
                assert_eq!(path, "fixture.db");
            },
            other => panic!("expected an invalid-key error, got {:?}", other),
        }
    }
}

#[test]
fn key_sensitivity_bits_000_015() {
    key_sensitivity_bits(0, 16);
}

#[test]
fn key_sensitivity_bits_016_031() {
    key_sensitivity_bits(16, 32);
}

#[test]
fn key_sensitivity_bits_032_047() {
    key_sensitivity_bits(32, 48);
}

#[test]
fn key_sensitivity_bits_048_063() {
    key_sensitivity_bits(48, 64);
}

#[test]
fn key_sensitivity_bits_064_079() {
    key_sensitivity_bits(64, 80);
}

#[test]
fn key_sensitivity_bits_080_095() {
    key_sensitivity_bits(80, 96);
}

#[test]
fn key_sensitivity_bits_096_111() {
    key_sensitivity_bits(96, 112);
}

#[test]
fn key_sensitivity_bits_112_127() {
    key_sensitivity_bits(112, 128);
}

#[test]
fn key_sensitivity_bits_128_143() {
    key_sensitivity_bits(128, 144);
}

#[test]
fn key_sensitivity_bits_144_159() {
    key_sensitivity_bits(144, 160);
}

#[test]
fn key_sensitivity_bits_160_175() {
    key_sensitivity_bits(160, 176);
}

#[test]
fn key_sensitivity_bits_176_191() {
    key_sensitivity_bits(176, 192);
}

#[test]
fn key_sensitivity_bits_192_207() {
    key_sensitivity_bits(192, 208);
}

#[test]
fn key_sensitivity_bits_208_223() {
    key_sensitivity_bits(208, 224);
}

#[test]
fn key_sensitivity_bits_224_239() {
    key_sensitivity_bits(224, 240);
}

#[test]
fn key_sensitivity_bits_240_255() {
    key_sensitivity_bits(240, 256);
}

#[test]
fn corrupt_later_page_aborts_with_invalid_key() {
    // with per-page checks on, a tampered page after the first also rejects
    // the whole file as an invalid-key error
    let key = fixture_key();
    let salt = fixture_salt();
    let bodies = vec![body_bytes(4032, 5), body_bytes(4048, 9)];
    let (mut enc, _) = build_db(&key, &salt, &bodies);
    enc[4096 + 4070] ^= 1; // inside page 2's stored tag
    let e = decrypt_db_bytes(&enc, &key, true, "fixture.db").unwrap_err();
    match e.kind {
        WxErrorKind::InvalidKey { key: k, path } => {
            assert_eq!(k, key.to_vec());
            assert_eq!(path, "fixture.db");
        },
        other => panic!("expected an invalid-key error, got {:?}", other),
    }
    // without the per-page checks the same image decrypts
    assert!(decrypt_db_bytes(&enc, &key, false, "fixture.db").is_ok());
}

#[test]
fn page_index_is_authenticated() {
    let key = fixture_key();
    let salt = fixture_salt();
    let cipher_key = kdf(&key, &salt, 64000);
    let ms = mac_salt_of(&salt);
    let mac_key = kdf(&cipher_key, &ms, 2);
    // a full 4096-byte page whose tag was computed for page index 2
    let body = body_bytes(4048, 42);
    let iv = [0x55u8; 16];
    let ct = encrypt_cbc(&cipher_key, &iv, &body);
    let tag = hmac_tag(&mac_key, &[&ct, &iv, &2u32.to_le_bytes()]);
    let mut page = Vec::new();
    page.extend_from_slice(&ct);
    page.extend_from_slice(&iv);
    page.extend_from_slice(&tag[..20]);
    page.extend_from_slice(&[0u8; 12]);
    assert!(check_hmac(&page, &cipher_key, &ms, 2, 32));
    assert!(!check_hmac(&page, &cipher_key, &ms, 1, 32));
    assert!(!check_hmac(&page, &cipher_key, &ms, 3, 32));
}

fn fixture_key_material() -> KeyMaterial {
    let key = fixture_key();
    let salt = fixture_salt();
    KeyMaterial::derive(&key, &salt)
}

#[test]
fn empty_wal_is_no_work() {
    let km = fixture_key_material();
    let out = decrypt_wal_bytes(&[], &km, false).unwrap();
    assert!(out.is_none());
}

#[test]
fn wal_bad_marker_is_rejected() {
    let km = fixture_key_material();
    let mut wal = vec![0u8; 32 + 4120];
    wal[3] = 0x99;
    let e = decrypt_wal_bytes(&wal, &km, false).unwrap_err();
    assert!(matches!(e.kind, WxErrorKind::Malformed { .. }));
}

#[test]
fn wal_ragged_size_is_rejected() {
    let km = fixture_key_material();
    let mut wal = vec![0u8; 40];
    wal[3] = 0x82;
    let e = decrypt_wal_bytes(&wal, &km, false).unwrap_err();
    assert!(matches!(e.kind, WxErrorKind::Malformed { .. }));
}

fn wal_header(marker: u8) -> Vec<u8> {
    let mut h = vec![0u8; 32];
    h[0] = 0x37;
    h[1] = 0x7f;
    h[2] = 0x06;
    h[3] = marker;
    for i in 4..32 {
        h[i] = (i as u8).wrapping_mul(5).wrapping_add(1);
    }
    h
}

fn wal_frame_payload(seed: u8) -> Vec<u8> {
    body_bytes(4096, seed)
}

#[test]
fn mismatched_frame_keeps_its_header() {
    // Scenario: the frame's embedded checksum pair does not match the
    // recomputed pre-decryption chain, so the original 24-byte frame header
    // is copied through unchanged.
    let km = fixture_key_material();
    let mut wal = wal_header(0x82);
    let mut frame_head = vec![0u8; 24];
    frame_head[3] = 2; // page number 2, big-endian
    for i in 8..16 {
        frame_head[i] = i as u8;
    }
    // deliberately wrong checksum words
    frame_head[16..20].copy_from_slice(&0xdead_beefu32.to_be_bytes());
    frame_head[20..24].copy_from_slice(&0x0bad_f00du32.to_be_bytes());
    wal.extend_from_slice(&frame_head);
    wal.extend_from_slice(&wal_frame_payload(60));
    let out = decrypt_wal_bytes(&wal, &km, false).unwrap().unwrap();
    assert_eq!(out.len(), wal.len());
    assert_eq!(&out[0..32], &wal[0..32]);
    assert_eq!(&out[32..56], &wal[32..56]);
    // the payload was decrypted, not copied
    assert_ne!(&out[56..], &wal[56..]);
}

#[test]
fn matched_frame_gets_recomputed_checksums() {
    let km = fixture_key_material();
    let mut wal = wal_header(0x82);
    let order = WalByteOrder::LittleEndian;
    let seed = get_check_sum(0, 0, &wal[0..24], order);
    let mut frame_head = vec![0u8; 24];
    frame_head[3] = 2;
    for i in 4..16 {
        frame_head[i] = (i as u8).wrapping_mul(3);
    }
    let payload = wal_frame_payload(61);
    let pre_a = get_check_sum(seed.0, seed.1, &frame_head[0..8], order);
    let pre = get_check_sum(pre_a.0, pre_a.1, &payload, order);
    frame_head[16..20].copy_from_slice(&pre.0.to_be_bytes());
    frame_head[20..24].copy_from_slice(&pre.1.to_be_bytes());
    wal.extend_from_slice(&frame_head);
    wal.extend_from_slice(&payload);
    let out = decrypt_wal_bytes(&wal, &km, false).unwrap().unwrap();
    assert_eq!(out.len(), wal.len());
    assert_eq!(&out[0..32], &wal[0..32]);
    assert_eq!(&out[32..48], &wal[32..48]);
    // the on-disk checksum is re-derived over the decrypted payload
    let post_a = get_check_sum(seed.0, seed.1, &out[32..40], order);
    let post = get_check_sum(post_a.0, post_a.1, &out[56..], order);
    assert_eq!(&out[48..52], &post.0.to_be_bytes());
    assert_eq!(&out[52..56], &post.1.to_be_bytes());
}

#[test]
fn checksum_known_values() {
    let bytes = [1u8, 0, 0, 0, 2, 0, 0, 0];
    assert_eq!(get_check_sum(0, 0, &bytes, WalByteOrder::LittleEndian), (1, 3));
    assert_eq!(
        get_check_sum(0, 0, &bytes, WalByteOrder::BigEndian),
        (0x0100_0000, 0x0300_0000)
    );
}

#[test]
fn checksum_is_deterministic_and_splits() {
    let bytes: Vec<u8> = (0u8..64).map(|b| b.wrapping_mul(37).wrapping_add(5)).collect();
    for order in [WalByteOrder::LittleEndian, WalByteOrder::BigEndian] {
        let once = get_check_sum(11, 22, &bytes, order);
        let again = get_check_sum(11, 22, &bytes, order);
        assert_eq!(once, again);
        for cut in [8usize, 24, 40, 56] {
            let mid = get_check_sum(11, 22, &bytes[..cut], order);
            let split = get_check_sum(mid.0, mid.1, &bytes[cut..], order);
            assert_eq!(once, split);
        }
    }
}

#[test]
fn checksum_byte_order_matters() {
    // a non-palindromic block reads differently in the two byte orders
    let bytes = [1u8, 2, 3, 4, 5, 6, 7, 8];
    let le = get_check_sum(0, 0, &bytes, WalByteOrder::LittleEndian);
    let be = get_check_sum(0, 0, &bytes, WalByteOrder::BigEndian);
    assert_ne!(le, be);
}
