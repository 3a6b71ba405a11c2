//! Expected digests and the comparison of a computed digest against them.
use vstd::prelude::*;

verus! {

/// The digest algorithms an expected hash can name.
#[derive(Clone, Copy, Debug, PartialEq, Eq, Structural)]
pub enum HashAlgorithm {
    Md5,
    Sha256,
}

/// An expected digest: the algorithm and the digest as lowercase hex.
#[derive(Debug)]
pub struct ExpectedHash {
    pub algorithm: HashAlgorithm,
    pub value: String,
}

impl Clone for ExpectedHash {
    fn clone(&self) -> (r: Self)
        ensures
            r == *self,
    {
        ExpectedHash { algorithm: self.algorithm, value: self.value.clone() }
    }
}

impl ExpectedHash {
    pub fn new(algorithm: HashAlgorithm, value: String) -> (r: Self)
        ensures
            r.algorithm == algorithm,
            r.value == value,
    {
        ExpectedHash { algorithm, value }
    }

    /// The expected digest as hex text.
    pub fn value(&self) -> (r: &str)
        ensures
            r@ == self.value@,
    {
        self.value.as_str()
    }

    pub fn algorithm(&self) -> (r: HashAlgorithm)
        ensures
            r == self.algorithm,
    {
        self.algorithm
    }
}

/// Why a digest check failed.
#[derive(Debug)]
pub enum HashingError {
    /// The computed digest differs from the expected one.
    HashNotMatch { expected_hash: ExpectedHash, actual_hash: String },
}

/// The lowercase hex digit of a value below 16.
pub open spec fn hex_digit(n: u8) -> char {
    seq!['0', '1', '2', '3', '4', '5', '6', '7', '8', '9', 'a', 'b', 'c', 'd', 'e', 'f'][n as int]
}

/// Lowercase hex text of `bytes`: two digits per byte, high nibble first.
pub open spec fn hex_of(bytes: Seq<u8>) -> Seq<char>
    decreases bytes.len(),
{
    if bytes.len() == 0 {
        Seq::empty()
    } else {
        hex_of(bytes.drop_last()) + seq![hex_digit(bytes.last() / 16), hex_digit(bytes.last() % 16)]
    }
}

/// Relies on hex::encode: it writes each byte as two lowercase hex digits,
/// high nibble first, in the order of the bytes.
#[verifier::external_body]
fn hex_encode(bytes: &[u8]) -> (r: String)
    ensures
        r@ == hex_of(bytes@),
{
    hex::encode(bytes)
}

/// The hex text of a computed digest.
pub fn digest_hex(digest: &[u8]) -> (r: String)
    ensures
        r@ == hex_of(digest@),
{
    hex_encode(digest)
}

/// Whether a computed digest is the one that `expected` names.
pub open spec fn digest_matches(expected: ExpectedHash, digest: Seq<u8>) -> bool {
    expected.value@ == hex_of(digest)
}

/// Compares a computed digest with the expected one; on a mismatch the
/// error carries both the expected hash and the hex of the computed digest.
pub fn verify_digest(expected: &ExpectedHash, digest: &[u8]) -> (r: Result<(), HashingError>)
    ensures
        r is Ok <==> digest_matches(*expected, digest@),
        r matches Err(HashingError::HashNotMatch { expected_hash, actual_hash }) ==> expected_hash
            == *expected && actual_hash@ == hex_of(digest@),
{
    let actual_hash = hex_encode(digest);
    if actual_hash == expected.value {
        Ok(())
    } else {
        Err(HashingError::HashNotMatch { expected_hash: expected.clone(), actual_hash })
    }
}

} // verus!
