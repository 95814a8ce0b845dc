use ed25519_dalek::{Signer, SigningKey};
use pytron::signature::{
    has_signature_marker, sign_archive_bytes, sign_with_key, verify_archive_bytes, SignError,
    VerifyError,
};
use rand::rngs::OsRng;

const MARKER: [u8; 4] = [0x05, 0x04, 0x07, 0x07];

#[test]
fn test_sign_zip_success() {
    let data = b"dummy-zip-content".to_vec();
    let result = sign_archive_bytes(&data);
    assert!(result.is_ok(), "Expected signing to succeed");
    let signed = result.unwrap();
    let bytes = &signed.bytes;
    assert!(bytes.len() >= 68, "Signed file too small: {} bytes", bytes.len());
    let (body, tail) = bytes.split_at(bytes.len() - 68);
    let (marker_bytes, signature_bytes) = tail.split_at(4);
    assert_eq!(body, &data[..]);
    assert_eq!(marker_bytes, MARKER, "Marker not found at end");
    assert_eq!(signature_bytes.len(), 64, "Signature is not 64 bytes");
    assert_eq!(signed.public_key.len(), 32, "Public key should be 32 bytes");
}

#[test]
fn test_sign_zip_already_signed_error() {
    let mut buf = Vec::with_capacity(200);
    buf.extend_from_slice(&vec![0u8; 100]);
    buf.extend_from_slice(&MARKER);
    buf.extend_from_slice(&vec![0u8; 64]);
    let before = buf.clone();
    let err = match sign_archive_bytes(&buf) {
        Err(e) => e,
        Ok(_) => panic!("should have failed"),
    };
    let msg = err.message();
    assert!(
        msg.contains("already contains the expected signature marker"),
        "Unexpected error message: {}",
        msg
    );
    assert_eq!(buf, before, "File was modified despite error");
}

#[test]
fn test_verify_zip_success() {
    let signed = sign_archive_bytes(b"dummy-zip-content").expect("sign_zip should succeed");
    let result = verify_archive_bytes(&signed.bytes, &signed.public_key);
    assert!(result.is_ok(), "Expected verification to succeed, got {:?}", result);
}

#[test]
fn test_verify_zip_too_small() {
    let err = verify_archive_bytes(&[0u8; 10], &[0u8; 32]).expect_err("Expected error for too-small file");
    assert_eq!(err, VerifyError::TooSmall);
    let msg = err.message();
    assert!(
        msg.contains("File is too small to contain a signature"),
        "Unexpected error message: {}",
        msg
    );
}

#[test]
fn test_verify_zip_invalid_signature() {
    let mut data = b"important-data".to_vec();
    data.extend_from_slice(&MARKER);
    let key_a = SigningKey::generate(&mut OsRng);
    let sig = key_a.sign(&data).to_bytes();
    data.extend_from_slice(&sig);
    let key_b = SigningKey::generate(&mut OsRng);
    let err = verify_archive_bytes(&data, &key_b.verifying_key().to_bytes())
        .expect_err("Expected signature verification failure");
    let msg = err.message();
    assert!(msg.contains("Signature verification failed"), "Unexpected error message: {}", msg);
    // The matching key accepts the same bytes.
    assert_eq!(verify_archive_bytes(&data, &key_a.verifying_key().to_bytes()), Ok(()));
}

#[test]
fn signing_twice_is_refused() {
    let signed = sign_archive_bytes(b"payload").unwrap();
    assert!(has_signature_marker(&signed.bytes));
    assert!(matches!(sign_archive_bytes(&signed.bytes), Err(SignError::AlreadySigned)));
}

#[test]
fn marker_at_exactly_sixty_eight_bytes_counts() {
    let mut buf = MARKER.to_vec();
    buf.extend_from_slice(&[9u8; 64]);
    assert!(has_signature_marker(&buf));
    buf.insert(0, 1);
    assert!(has_signature_marker(&buf));
    assert!(!has_signature_marker(&buf[2..]));
}

#[test]
fn signing_with_a_known_key_matches_the_library() {
    let secret = [7u8; 32];
    let data = b"zip bytes".to_vec();
    let signed = sign_with_key(&data, &secret).unwrap();
    let key = SigningKey::from_bytes(&secret);
    let mut payload = data.clone();
    payload.extend_from_slice(&MARKER);
    let expected = key.sign(&payload).to_bytes();
    assert_eq!(&signed.bytes[..payload.len()], &payload[..]);
    assert_eq!(&signed.bytes[payload.len()..], &expected[..]);
    assert_eq!(signed.public_key, key.verifying_key().to_bytes());
    assert_ne!(signed.public_key, secret);
}

#[test]
fn verification_rejects_tampering_and_bad_keys() {
    let signed = sign_archive_bytes(b"abc").unwrap();
    let mut tampered = signed.bytes.clone();
    tampered[0] ^= 1;
    assert_eq!(verify_archive_bytes(&tampered, &signed.public_key), Err(VerifyError::VerificationFailed));
    assert_eq!(verify_archive_bytes(&signed.bytes, &signed.public_key[..31]), Err(VerifyError::VerificationFailed));
    // The marker is not required: a bare signature over the rest verifies.
    let key = SigningKey::from_bytes(&[3u8; 32]);
    let mut bare = vec![1u8, 2, 3];
    let sig = key.sign(&bare).to_bytes();
    bare.extend_from_slice(&sig);
    assert_eq!(verify_archive_bytes(&bare, &key.verifying_key().to_bytes()), Ok(()));
}
