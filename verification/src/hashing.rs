//! The content hasher: a streaming 256-bit digest over a file's byte
//! stream, fed chunk by chunk.  The digest is a function of the bytes
//! alone, which is what makes it a content-identity key.

use vstd::prelude::*;
use sha2::Digest;

verus! {

/// The 256-bit digest that the hash function assigns to a byte
/// sequence; two byte sequences are "the same content" exactly when
/// their digests are equal.
pub uninterp spec fn sha256_of(bytes: Seq<u8>) -> Seq<u8>;

/// A streaming digest accumulator.  The bytes fed so far are its
/// abstract contents, named by [`hasher_bytes`].
#[verifier::external_body]
pub struct ContentHasher {
    inner: sha2::Sha256,
}

/// The byte stream a hasher has absorbed so far.
pub uninterp spec fn hasher_bytes(h: ContentHasher) -> Seq<u8>;

/// Relies on `sha2::Sha256::new` (`Digest::new`): a fresh digest over
/// the empty byte stream.
#[verifier::external_body]
pub fn hasher_new() -> (r: ContentHasher)
    ensures
        hasher_bytes(r) == Seq::<u8>::empty(),
{
    ContentHasher { inner: sha2::Sha256::new() }
}

/// Relies on `sha2::Digest::update`: absorbing a chunk appends it to
/// the hashed stream.
#[verifier::external_body]
pub fn hasher_update(h: &mut ContentHasher, chunk: &[u8])
    ensures
        hasher_bytes(*final(h)) == hasher_bytes(*old(h)) + chunk@,
{
    h.inner.update(chunk);
}

/// Relies on `sha2::Digest::finalize`: the 256-bit digest of the
/// absorbed stream, a function of those bytes alone.
#[verifier::external_body]
pub fn hasher_finalize(h: ContentHasher) -> (r: [u8; 32])
    ensures
        r@ == sha256_of(hasher_bytes(h)),
{
    h.inner.finalize().into()
}

/// Hashes one in-memory byte sequence.
pub fn sha256_bytes(data: &Vec<u8>) -> (r: [u8; 32])
    ensures
        r@ == sha256_of(data@),
{
    let mut h = hasher_new();
    hasher_update(&mut h, data.as_slice());
    proof {
        assert(hasher_bytes(h) =~= data@);
    }
    hasher_finalize(h)
}

} // verus!
