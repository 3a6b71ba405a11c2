use celestial_bootstrap::hashing::{digest_hex, verify_digest, ExpectedHash, HashAlgorithm, HashingError};
use md5::Digest;

#[test]
fn digest_hex_is_lowercase_two_digits_per_byte() {
    assert_eq!(digest_hex(&[0xde, 0xad, 0xbe, 0xef]), "deadbeef");
    assert_eq!(digest_hex(&[0x00, 0x0f, 0xa0]), "000fa0");
    assert_eq!(digest_hex(&[]), "");
}

#[test]
fn matching_md5_digest_verifies() {
    let expected = ExpectedHash::new(HashAlgorithm::Md5, "900150983cd24fb0d6963f7d28e17f72".to_string());
    let digest = md5::Md5::digest(b"abc").to_vec();
    assert!(verify_digest(&expected, &digest).is_ok());
    assert_eq!(expected.algorithm(), HashAlgorithm::Md5);
}

#[test]
fn mismatch_carries_both_digests() {
    let expected = ExpectedHash::new(HashAlgorithm::Md5, "deadbeef".to_string());
    match verify_digest(&expected, &[0x01, 0x02]) {
        Err(HashingError::HashNotMatch { expected_hash, actual_hash }) => {
            assert_eq!(expected_hash.value(), "deadbeef");
            assert_eq!(expected_hash.algorithm(), HashAlgorithm::Md5);
            assert_eq!(actual_hash, "0102");
        }
        Ok(()) => panic!("expected a mismatch"),
    }
}

#[test]
fn uppercase_expected_digest_does_not_match() {
    let expected = ExpectedHash::new(HashAlgorithm::Md5, "DEADBEEF".to_string());
    assert!(verify_digest(&expected, &[0xde, 0xad, 0xbe, 0xef]).is_err());
}
