use hmac::{Hmac, Mac};
use sha2::Sha256;
use std::hash::{Hash, Hasher};
use vstd::prelude::*;

verus! {

/// The HMAC-SHA256 tag of `message` under `key`, as the `hmac` and `sha2`
/// crates compute it.
pub uninterp spec fn hmac_sha256_tag(key: Seq<u8>, message: Seq<u8>) -> Seq<u8>;

/// HMAC-SHA256 of `message` under `key`.
///
/// Trusted: calls `Hmac::<Sha256>::new_from_slice`, `Mac::update`,
/// `Mac::finalize` and `into_bytes` of the `hmac` crate. The contract claims
/// that the tag depends on the key and the message alone and is 32 bytes
/// long (the SHA-256 output size); `new_from_slice` never fails for HMAC, as
/// its source hashes over-long keys.
#[verifier::external_body]
pub(crate) fn hmac_sha256(key: &[u8], message: &[u8]) -> (tag: Vec<u8>)
    ensures
        tag@ == hmac_sha256_tag(key@, message@),
        tag@.len() == 32,
{
    let mut mac = <Hmac<Sha256> as Mac>::new_from_slice(key).expect("HMAC takes keys of any length");
    mac.update(message);
    mac.finalize().into_bytes().to_vec()
}

/// The 64-bit hash that std's `DefaultHasher::new()` gives to a string.
pub uninterp spec fn default_str_hash(s: Seq<char>) -> u64;

/// Hashes a string with a freshly created `DefaultHasher`.
///
/// Trusted: calls `DefaultHasher::new`, `str::hash` and `Hasher::finish`.
/// Std documents that every `DefaultHasher::new()` starts from the same
/// state, so the hash depends on the string alone within one build; the
/// contract claims no more than that.
#[verifier::external_body]
pub(crate) fn hash_str(s: &str) -> (h: u64)
    ensures
        h == default_str_hash(s@),
{
    let mut hasher = std::collections::hash_map::DefaultHasher::new();
    s.hash(&mut hasher);
    hasher.finish()
}

} // verus!
