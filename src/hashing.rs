//! The hash function of the filter: `fxhash::FxHasher`, fed a key through its
//! `Hash` impl. A digest is fixed by the hasher's state; how feeding a key
//! changes that state depends on the key type's own `Hash` impl, of which
//! nothing is promised.
use fxhash::FxHasher;
use std::hash::Hash;
use std::hash::Hasher;
use vstd::prelude::*;

verus! {

#[verifier::external_type_specification]
#[verifier::external_body]
pub struct ExFxHasher(FxHasher);

/// Relies on `FxHasher::default`: a hasher in its initial state.
#[verifier::external_body]
pub(crate) fn fresh_hasher() -> (r: FxHasher) {
    FxHasher::default()
}

/// Relies on the key type's `Hash::hash`: writes the key into the hasher.
#[verifier::external_body]
pub(crate) fn feed_key<K: Hash>(key: &K, hasher: &mut FxHasher) {
    key.hash(hasher)
}

/// The digest that a hasher in the given state gives.
pub uninterp spec fn digest_of(h: FxHasher) -> u64;

/// Relies on `FxHasher::finish` (`Hasher::finish`): the digest of what the
/// hasher has been fed so far, read from the hasher's state alone; the hasher
/// is left as it was.
#[verifier::external_body]
pub(crate) fn finish_digest(hasher: &FxHasher) -> (r: u64)
    ensures
        r == digest_of(*hasher),
{
    hasher.finish()
}

} // verus!
