//! The fixed-key digest used for inputs and observer maps.
use vstd::prelude::*;

verus! {

/// Relies on ahash's `RandomState::with_seeds(0, 0, 0, 0).hash_one`: a 64-bit
/// digest of the bytes under fixed keys. Its value may differ between builds
/// and platforms, so nothing is stated of it; callers compare digests taken in
/// the same process.
#[verifier::external_body]
pub(crate) fn fixed_seed_hash(bytes: &[u8]) -> (r: u64) {
    ahash::RandomState::with_seeds(0, 0, 0, 0).hash_one(bytes)
}

} // verus!
