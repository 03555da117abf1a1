//! Password digests: lowercase hex SHA-256, unsalted.

use crypto::digest::Digest;
use crypto::sha2::Sha256;
use vstd::prelude::*;

verus! {

/// The lowercase hex rendering of the SHA-256 digest of the UTF-8 bytes of `s`.
pub uninterp spec fn sha256_hex(s: Seq<char>) -> Seq<char>;

/// A digest as `hash_password` renders it: 64 lowercase hex digits.
pub open spec fn is_hex_digest(d: Seq<char>) -> bool {
    &&& d.len() == 64
    &&& forall|i: int|
        0 <= i < d.len() ==> ('0' <= #[trigger] d[i] <= '9' || 'a' <= d[i] <= 'f')
}

/// Relies on rust-crypto's `Sha256` through `Digest::input_str` and
/// `Digest::result_str`: the digest depends on the text alone, and
/// `result_str` renders its 32 bytes with rustc-serialize's `ToHex`, two
/// digits of `0123456789abcdef` per byte.
#[verifier::external_body]
fn sha256_hex_str(s: &str) -> (r: String)
    ensures
        r@ == sha256_hex(s@),
        is_hex_digest(r@),
{
    let mut hasher = Sha256::new();
    hasher.input_str(s);
    hasher.result_str()
}

/// Hashes `password` into the digest that the store keeps in its place.
pub fn hash_password(password: &str) -> (r: String)
    ensures
        r@ == sha256_hex(password@),
        is_hex_digest(r@),
{
    sha256_hex_str(password)
}

/// Hashing is deterministic: equal plaintexts give equal digests.
pub proof fn hash_password_deterministic(a: Seq<char>, b: Seq<char>)
    requires
        a == b,
    ensures
        sha256_hex(a) == sha256_hex(b),
{
}

} // verus!
