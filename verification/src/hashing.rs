//! SHA-256 digests of downloaded files, computed piece by piece as the file is
//! read.
use vstd::prelude::*;
use sha2::Digest;

verus! {

/// A `sha2::Sha256` hasher. `sha2::Sha256` is a type alias of nested generic
/// wrappers that cannot be declared to Verus, so the hasher is held here; nothing
/// of it is visible but what `absorbed` names.
#[verifier::external_body]
pub struct Sha256State {
    inner: sha2::Sha256,
}

/// The SHA-256 digest of a byte string (FIPS 180-4), as `sha2` computes it.
pub uninterp spec fn sha256_of(data: Seq<u8>) -> Seq<u8>;

/// The bytes that a hasher has taken in since it was created.
pub uninterp spec fn absorbed(h: Sha256State) -> Seq<u8>;

/// `sha2::Sha256::new` (`Digest::new`): a hasher that has taken in nothing.
#[verifier::external_body]
fn hasher_new() -> (h: Sha256State)
    ensures
        absorbed(h) == Seq::<u8>::empty(),
{
    Sha256State { inner: sha2::Sha256::new() }
}

/// `Digest::update`: the hasher takes in `data` after what it has taken in.
#[verifier::external_body]
fn hasher_update(h: &mut Sha256State, data: &[u8])
    ensures
        absorbed(*final(h)) == absorbed(*old(h)) + data@,
{
    h.inner.update(data);
}

/// `Digest::finalize`: the digest of everything the hasher has taken in; SHA-256
/// digests are 32 bytes long.
#[verifier::external_body]
fn hasher_finalize(h: Sha256State) -> (r: Vec<u8>)
    ensures
        r@ == sha256_of(absorbed(h)),
        r@.len() == 32,
{
    h.inner.finalize().to_vec()
}

/// The digest of a stream of bytes, given piece by piece.
pub struct ContentDigest {
    hasher: Sha256State,
}

impl ContentDigest {
    /// The bytes given so far.
    pub closed spec fn input(&self) -> Seq<u8> {
        absorbed(self.hasher)
    }

    pub fn new() -> (r: Self)
        ensures
            r.input() == Seq::<u8>::empty(),
    {
        ContentDigest { hasher: hasher_new() }
    }

    /// Gives the next piece.
    pub fn update(&mut self, data: &[u8])
        ensures
            final(self).input() == old(self).input() + data@,
    {
        hasher_update(&mut self.hasher, data);
    }

    /// The digest of all the pieces given.
    pub fn finish(self) -> (r: Vec<u8>)
        ensures
            r@ == sha256_of(self.input()),
            r@.len() == 32,
    {
        hasher_finalize(self.hasher)
    }
}

} // verus!
