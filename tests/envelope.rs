use lockit::compression::{compress_data, decompress_data};
use lockit::crypto::{decrypt_data, derive_key, encrypt_data, encrypt_data_with, HEADER_LEN, TAG_LEN};
use lockit::error::LockitError;
use lockit::pipe::{decrypt_data_via_pipe, encrypt_data_via_pipe};

#[test]
fn envelope_round_trip() {
    let data = b"some plaintext bytes".to_vec();
    let sealed = encrypt_data(&data, "passphrase").unwrap();
    assert_eq!(decrypt_data(&sealed, "passphrase").unwrap(), data);
}

#[test]
fn envelope_round_trip_empty() {
    let sealed = encrypt_data(&[], "pw").unwrap();
    assert_eq!(sealed.len(), HEADER_LEN + TAG_LEN);
    assert_eq!(decrypt_data(&sealed, "pw").unwrap(), Vec::<u8>::new());
}

#[test]
fn envelope_layout() {
    let data = vec![7u8; 100];
    let sealed = encrypt_data(&data, "pw").unwrap();
    assert_eq!(sealed.len(), 28 + 100 + 16);
    assert_ne!(&sealed[28..128], &data[..]);
}

#[test]
fn envelope_with_given_salt_and_nonce() {
    let salt = [1u8; 16];
    let nonce = [2u8; 12];
    let a = encrypt_data_with(b"abc", "pw", &salt, &nonce).unwrap();
    let b = encrypt_data_with(b"abc", "pw", &salt, &nonce).unwrap();
    assert_eq!(a, b);
    assert_eq!(&a[0..16], &salt[..]);
    assert_eq!(&a[16..28], &nonce[..]);
    assert_eq!(a.len(), 28 + 3 + 16);
    assert_eq!(decrypt_data(&a, "pw").unwrap(), b"abc".to_vec());
    let c = encrypt_data_with(b"abc", "other", &salt, &nonce).unwrap();
    assert_ne!(a, c);
}

#[test]
fn wrong_passphrase_is_refused() {
    let sealed = encrypt_data(b"top secret", "right").unwrap();
    assert_eq!(decrypt_data(&sealed, "wrong"), Err(LockitError::Authentication));
}

#[test]
fn corrupted_envelope_is_refused() {
    let mut sealed = encrypt_data(b"top secret", "pw").unwrap();
    let last = sealed.len() - 1;
    sealed[last] ^= 1;
    assert_eq!(decrypt_data(&sealed, "pw"), Err(LockitError::Authentication));
    let mut sealed = encrypt_data(b"top secret", "pw").unwrap();
    sealed[3] ^= 0x80;
    assert_eq!(decrypt_data(&sealed, "pw"), Err(LockitError::Authentication));
}

#[test]
fn truncated_envelope_is_refused() {
    assert_eq!(decrypt_data(&[0u8; 27], "pw"), Err(LockitError::Authentication));
    assert_eq!(decrypt_data(&[], "pw"), Err(LockitError::Authentication));
    assert_eq!(decrypt_data(&[0u8; 40], "pw"), Err(LockitError::Authentication));
    let sealed = encrypt_data(b"hello", "pw").unwrap();
    assert_eq!(decrypt_data(&sealed[..sealed.len() - 1], "pw"), Err(LockitError::Authentication));
}

#[test]
fn ciphertext_is_fresh_each_time() {
    let a = encrypt_data(b"same", "pw").unwrap();
    let b = encrypt_data(b"same", "pw").unwrap();
    assert_ne!(a, b);
    assert_ne!(&a[0..16], &b[0..16]);
    assert_eq!(decrypt_data(&a, "pw").unwrap(), b"same".to_vec());
    assert_eq!(decrypt_data(&b, "pw").unwrap(), b"same".to_vec());
}

#[test]
fn derive_key_matches_hkdf_sha256_vector() {
    // HKDF-SHA256 with 22 bytes of 0x0b, empty salt and empty info: the
    // first 32 bytes of the expected output key material.
    let ikm = "\u{b}".repeat(22);
    let key = derive_key(&ikm, &[]);
    assert_eq!(
        hex::encode(&key),
        "8da4e775a563c18f715f802a063c5a31b8a11f5c5ee1879ec3454e5f3c738d2d"
    );
}

#[test]
fn derive_key_depends_on_salt_and_passphrase() {
    let a = derive_key("pw", &[0u8; 16]);
    assert_eq!(a.len(), 32);
    assert_eq!(a, derive_key("pw", &[0u8; 16]));
    assert_ne!(a, derive_key("pw", &[1u8; 16]));
    assert_ne!(a, derive_key("pw2", &[0u8; 16]));
}

#[test]
fn compression_round_trip() {
    let data = b"abcabcabcabcabcabcabcabcabcabcabcabcabcabc".repeat(50);
    let packed = compress_data(&data).unwrap();
    assert!(packed.len() < data.len());
    assert_ne!(packed, data);
    assert_eq!(decompress_data(&packed).unwrap(), data);
}

#[test]
fn compression_of_empty_buffer() {
    let packed = compress_data(&[]).unwrap();
    assert!(!packed.is_empty());
    assert_eq!(decompress_data(&packed).unwrap(), Vec::<u8>::new());
}

#[test]
fn malformed_compressed_stream_is_refused() {
    assert_eq!(decompress_data(b"definitely not zstd"), Err(LockitError::Compression));
}

#[test]
fn scenario_e_whole_stream_round_trip() {
    let sealed = encrypt_data_via_pipe(b"secret", "pw").unwrap();
    assert_eq!(decrypt_data_via_pipe(&sealed, "pw").unwrap(), b"secret".to_vec());
}

#[test]
fn whole_stream_wrong_passphrase() {
    let sealed = encrypt_data_via_pipe(b"secret", "pw").unwrap();
    assert_eq!(decrypt_data_via_pipe(&sealed, "nope"), Err(LockitError::Authentication));
}

#[test]
fn whole_stream_is_compressed_before_sealing() {
    let data = vec![b'z'; 4096];
    let sealed = encrypt_data_via_pipe(&data, "pw").unwrap();
    assert!(sealed.len() < data.len());
    let inner = decrypt_data(&sealed, "pw").unwrap();
    assert_eq!(decompress_data(&inner).unwrap(), data);
}

#[test]
fn whole_stream_with_bad_compressed_content() {
    let sealed = encrypt_data(b"not a zstd frame", "pw").unwrap();
    assert_eq!(decrypt_data_via_pipe(&sealed, "pw"), Err(LockitError::Compression));
}

#[test]
fn short_envelopes_never_open() {
    for len in 28..44 {
        assert_eq!(decrypt_data(&vec![0u8; len], "pw"), Err(LockitError::Authentication));
    }
}

#[test]
fn plaintext_is_envelope_less_header_and_tag() {
    let sealed = encrypt_data(&[5u8; 77], "pw").unwrap();
    let opened = decrypt_data(&sealed, "pw").unwrap();
    assert_eq!(opened.len() + HEADER_LEN + TAG_LEN, sealed.len());
}

#[test]
fn whole_stream_envelope_length() {
    let input = b"length of a sealed stream".to_vec();
    let sealed = encrypt_data_via_pipe(&input, "pw").unwrap();
    let frame = compress_data(&input).unwrap();
    assert_eq!(sealed.len(), HEADER_LEN + frame.len() + TAG_LEN);
    assert!(sealed.len() >= 44);
}

#[test]
fn whole_stream_short_input_is_refused() {
    assert_eq!(decrypt_data_via_pipe(&[1u8; 43], "pw"), Err(LockitError::Authentication));
    assert_eq!(decrypt_data_via_pipe(&[], "pw"), Err(LockitError::Authentication));
}
