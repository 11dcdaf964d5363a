//! Hash and MAC primitives from the `sha3`, `hmac` and `sha2` crates.

use hmac::Mac;
use sha3::Digest;
use vstd::prelude::*;

verus! {

/// The Keccak-256 digest of a byte string (the hash Ethereum uses for
/// function selectors).
pub uninterp spec fn keccak256_digest(data: Seq<u8>) -> Seq<u8>;

/// The HMAC-SHA256 tag of `msg` under `key`.
pub uninterp spec fn hmac_sha256_tag(key: Seq<u8>, msg: Seq<u8>) -> Seq<u8>;

/// Keccak-256 digest of `data`.
///
/// Calls `sha3::Keccak256::digest`. The contract names the digest and states
/// its length, 32 bytes (the output size of `Keccak256` in sha3 0.10); it says
/// nothing else of the hash.
#[verifier::external_body]
pub(crate) fn keccak256(data: &[u8]) -> (h: Vec<u8>)
    ensures
        h@ == keccak256_digest(data@),
        h@.len() == 32,
{
    sha3::Keccak256::digest(data).to_vec()
}

/// HMAC-SHA256 tag of `msg` under `key`.
///
/// Calls `hmac::Hmac::<sha2::Sha256>::new_from_slice`, `update` and
/// `finalize`. `new_from_slice` accepts keys of every length for `Hmac`
/// (hmac 0.12.1 hashes long keys and pads short ones), so its error arm never
/// runs. The contract names the tag and states its length, 32 bytes, the
/// SHA-256 output size; it says nothing else of the MAC.
#[verifier::external_body]
pub(crate) fn hmac_sha256(key: &[u8], msg: &[u8]) -> (t: Vec<u8>)
    ensures
        t@ == hmac_sha256_tag(key@, msg@),
        t@.len() == 32,
{
    match <hmac::Hmac<sha2::Sha256> as Mac>::new_from_slice(key) {
        Ok(mut mac) => {
            mac.update(msg);
            mac.finalize().into_bytes().to_vec()
        },
        Err(_) => Vec::new(),
    }
}

} // verus!
