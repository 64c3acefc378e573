//! The viewing key with which the contract reads the registry.

use vstd::prelude::*;
use vstd::string::*;

verus! {

/// The base64 text of `bytes`, in the standard alphabet with padding, as
/// `base64::encode` gives it.
pub uninterp spec fn base64_text(bytes: Seq<u8>) -> Seq<char>;

/// The SHA-256 digest of `bytes`, as `secret_toolkit::crypto::sha_256`
/// gives it.
pub uninterp spec fn sha256_digest(bytes: Seq<u8>) -> Seq<u8>;

/// Calls `base64::encode`. The text that comes back depends on the bytes
/// alone; the contract gives it its name and claims nothing else of it.
#[verifier::external_body]
fn encode_base64(bytes: &Vec<u8>) -> (r: String)
    ensures
        r@ == base64_text(bytes@),
{
    base64::encode(bytes)
}

/// Calls `secret_toolkit::crypto::sha_256`. The digest that comes back
/// depends on the bytes alone; the contract gives it its name and claims
/// nothing else of it.
#[verifier::external_body]
fn sha256(bytes: &Vec<u8>) -> (r: Vec<u8>)
    ensures
        r@ == sha256_digest(bytes@),
{
    secret_toolkit::crypto::sha_256(bytes).to_vec()
}

/// The viewing key that belongs to the entropy `entropy`: the base64 text
/// of the digest of the base64 text of the entropy.
pub open spec fn viewing_key_of(entropy: Seq<char>) -> Seq<char> {
    base64_text(sha256_digest(vstd::utf8::encode_utf8(base64_text(vstd::utf8::encode_utf8(entropy)))))
}

/// Derives the viewing key from the entropy that the contract is set up
/// with.
pub fn derive_viewing_key(entropy: &String) -> (r: String)
    ensures
        r@ == viewing_key_of(entropy@),
{
    let seed_text = encode_base64(&entropy.as_str().as_bytes_vec());
    let seed = sha256(&seed_text.as_str().as_bytes_vec());
    encode_base64(&seed)
}

} // verus!
