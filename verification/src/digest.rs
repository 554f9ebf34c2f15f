//! SHA-256 over messages that arrive in pieces.

use sha2::Digest;
use vstd::prelude::*;

use crate::text::{hex, hex_text};

verus! {

/// The hasher of the `sha2` crate.
#[verifier::external_type_specification]
#[verifier::external_body]
pub struct ExSha256(sha2::Sha256);

/// The bytes that `hasher` has been given so far.
pub uninterp spec fn absorbed(hasher: sha2::Sha256) -> Seq<u8>;

/// The SHA-256 digest of `message`.
pub uninterp spec fn sha256_digest(message: Seq<u8>) -> Seq<u8>;

/// `sha2::Sha256::new` makes a hasher that has been given nothing.
#[verifier::external_body]
pub(crate) fn sha256_new() -> (hasher: sha2::Sha256)
    ensures
        absorbed(hasher) == Seq::<u8>::empty(),
{
    sha2::Sha256::new()
}

/// `sha2::Sha256::update` gives the hasher `data` after what it already has.
#[verifier::external_body]
pub(crate) fn sha256_update(hasher: &mut sha2::Sha256, data: &[u8])
    ensures
        absorbed(*final(hasher)) == absorbed(*old(hasher)) + data@,
{
    hasher.update(data);
}

/// `sha2::Sha256::finalize` gives the digest of everything that the hasher was
/// given. The digest depends on nothing else.
#[verifier::external_body]
pub(crate) fn sha256_finalize(hasher: sha2::Sha256) -> (digest: [u8; 32])
    ensures
        digest@ == sha256_digest(absorbed(hasher)),
{
    hasher.finalize().into()
}

/// The SHA-256 digest of `message`.
pub fn sha256(message: &[u8]) -> (digest: [u8; 32])
    ensures
        digest@ == sha256_digest(message@),
{
    let mut hasher = sha256_new();
    sha256_update(&mut hasher, message);
    assert(Seq::<u8>::empty() + message@ =~= message@);
    sha256_finalize(hasher)
}

/// The SHA-256 digest of `message` in lower-case hexadecimal.
pub fn sha256_hex(message: &[u8]) -> (text: String)
    ensures
        text@ == hex(sha256_digest(message@)),
{
    let digest = sha256(message);
    hex_text(digest.as_slice())
}

} // verus!
