//! The random source.
//!
//! Entropy comes from a seedable ChaCha generator owned by the caller and
//! threaded explicitly through every operation that needs it. The generator
//! is opaque to verification: the wrappers below state only what holds of
//! every outcome (the range of the draw), never which value comes out.

use vstd::prelude::*;

verus! {

/// The caller-supplied random generator (`rand_chacha::ChaCha8Rng`), declared
/// so that it can cross verified signatures; its contents stay opaque.
#[verifier::external_type_specification]
#[verifier::external_body]
pub struct ExChaCha8Rng(rand_chacha::ChaCha8Rng);

/// Relies on `rand::Rng::gen_range` over `0..n` (`u64`): the draw lies in the
/// half-open range; it panics only on an empty range, which the precondition
/// rules out.
#[verifier::external_body]
pub(crate) fn rand_below(rng: &mut rand_chacha::ChaCha8Rng, n: u64) -> (r: u64)
    requires
        n > 0,
    ensures
        r < n,
{
    rand::Rng::gen_range(rng, 0..n)
}

/// Relies on `rand::Rng::gen_range` over `0..n` (`u128`): the draw lies in
/// the half-open range; it panics only on an empty range, which the
/// precondition rules out.
#[verifier::external_body]
pub(crate) fn rand_below_wide(rng: &mut rand_chacha::ChaCha8Rng, n: u128) -> (r: u128)
    requires
        n > 0,
    ensures
        r < n,
{
    rand::Rng::gen_range(rng, 0..n)
}

/// Relies on `rand::Rng::gen_range` over `lo..hi` (`i64`): the draw lies in
/// the half-open range; it panics only on an empty range, which the
/// precondition rules out.
#[verifier::external_body]
pub(crate) fn rand_i64_range(rng: &mut rand_chacha::ChaCha8Rng, lo: i64, hi: i64) -> (r: i64)
    requires
        lo < hi,
    ensures
        lo <= r < hi,
{
    rand::Rng::gen_range(rng, lo..hi)
}

} // verus!
