//! Keys, signatures and the hashing and encoding primitives the engine relies on.

use vstd::prelude::*;
use sha3::Digest;

verus! {

/// An Ed25519 public key.
#[derive(Clone, Copy, Debug, PartialEq, Eq, PartialOrd, Ord, Hash)]
pub struct PublicKey {
    pub bytes: [u8; 32],
}

/// An Ed25519 signature.
#[derive(Clone, Copy, Debug, PartialEq, Eq, PartialOrd, Ord, Hash)]
pub struct Signature {
    pub bytes: [u8; 64],
}

impl View for PublicKey {
    type V = Seq<u8>;

    open spec fn view(&self) -> Seq<u8> {
        self.bytes@
    }
}

impl View for Signature {
    type V = Seq<u8>;

    open spec fn view(&self) -> Seq<u8> {
        self.bytes@
    }
}

/// The SHA3-256 digest of a byte string.
pub uninterp spec fn spec_sha3_256(data: Seq<u8>) -> Seq<u8>;

/// Whether `sig` is a valid Ed25519 signature of `msg` under the key `pk`.
pub uninterp spec fn spec_sign_verify(msg: Seq<u8>, sig: Seq<u8>, pk: Seq<u8>) -> bool;

/// The lower-case hexadecimal digit for a value below sixteen.
pub open spec fn hex_digit(n: u8) -> char {
    if n < 10 {
        (48 + n) as char
    } else {
        (87 + n) as char
    }
}

/// The lower-case hexadecimal text of a byte string: two digits per byte, high nibble first.
pub open spec fn hex_chars(data: Seq<u8>) -> Seq<char> {
    Seq::new(
        2 * data.len(),
        |i: int|
            if i % 2 == 0 {
                hex_digit(data[i / 2] / 16)
            } else {
                hex_digit(data[i / 2] % 16)
            },
    )
}

/// Calls `sha3::Sha3_256::digest` (the `Digest` trait's one-shot hash). The contract names
/// the digest `spec_sha3_256` of the input and states its length, 32 bytes, which is
/// the output size of SHA3-256.
#[verifier::external_body]
pub(crate) fn sha3_256(data: &[u8]) -> (digest: Vec<u8>)
    ensures
        digest@ == spec_sha3_256(data@),
        digest@.len() == 32,
{
    sha3::Sha3_256::digest(data).to_vec()
}

/// The SHA3-256 digest of a byte string as a string of 32 bytes: the named digest, which
/// every digest that was computed shows to be 32 bytes long. The 32 zero bytes stand in
/// only to give the function a length where nothing was computed.
pub open spec fn digest_of(data: Seq<u8>) -> Seq<u8> {
    if spec_sha3_256(data).len() == 32 {
        spec_sha3_256(data)
    } else {
        Seq::new(32, |i: int| 0u8)
    }
}

/// Computes the SHA3-256 digest of a byte string.
pub fn digest(data: &[u8]) -> (r: Vec<u8>)
    ensures
        r@ == digest_of(data@),
        r@.len() == 32,
{
    sha3_256(data)
}

/// Calls `hex::encode`. The contract states what its documentation says: every byte
/// becomes two lower-case hexadecimal digits, high nibble first.
#[verifier::external_body]
pub(crate) fn hex_encode(data: &[u8]) -> (text: String)
    ensures
        text@ == hex_chars(data@),
{
    hex::encode(data)
}

/// Calls `ed25519_dalek::VerifyingKey::from_bytes` and then `Verifier::verify` on the key
/// it gives, with the signature that `ed25519_dalek::Signature::from_bytes` makes of the
/// 64 bytes. The contract names the verdict `spec_sign_verify`: it depends on message,
/// signature and key alone. Bytes that are no key verify nothing.
#[verifier::external_body]
pub(crate) fn ed25519_verify(msg: &[u8], sig: &Signature, pk: &PublicKey) -> (valid: bool)
    ensures
        valid == spec_sign_verify(msg@, sig@, pk@),
{
    match ed25519_dalek::VerifyingKey::from_bytes(&pk.bytes) {
        Ok(key) => ed25519_dalek::Verifier::verify(
            &key,
            msg,
            &ed25519_dalek::Signature::from_bytes(&sig.bytes),
        ).is_ok(),
        Err(_) => false,
    }
}

} // verus!
