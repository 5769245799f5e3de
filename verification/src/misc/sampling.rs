//! The random draws that the game and the optimizer consume.
//!
//! Every function here hands a request to the `rand` crate. Their contracts
//! are taken on trust from that crate's documentation: they say only what
//! holds of every possible draw.

use rand::rngs::{SmallRng, ThreadRng};
use rand::seq::SliceRandom;
use rand::{Rng, SeedableRng};
use vstd::prelude::*;

verus! {

/// `rand::rngs::SmallRng`, carried as an opaque value.
#[verifier::external_type_specification]
#[verifier::external_body]
pub struct ExSmallRng(rand::rngs::SmallRng);

/// `rand::rngs::ThreadRng`, carried as an opaque value.
#[verifier::external_type_specification]
#[verifier::external_body]
pub struct ExThreadRng(rand::rngs::ThreadRng);

/// `SmallRng::clone`: a copy of the generator. Nothing is claimed of the copy.
pub assume_specification[ <SmallRng as Clone>::clone ](rng: &SmallRng) -> (copy: SmallRng);

/// Calls `SmallRng::from_entropy`: a fresh generator seeded by the operating
/// system. Nothing is claimed of the generator that comes back. The call
/// aborts the process if the system cannot supply a seed.
#[verifier::external_body]
pub(crate) fn entropy_rng() -> (rng: SmallRng) {
    SmallRng::from_entropy()
}

/// Calls `rand::thread_rng`: a handle to the generator of the current thread.
/// Nothing is claimed of the handle. The first call on a thread seeds the
/// generator, and aborts the process if the system cannot supply a seed.
#[verifier::external_body]
pub(crate) fn thread_local_rng() -> (rng: ThreadRng) {
    rand::thread_rng()
}

/// Calls `SliceRandom::choose` on `items`: `None` for an empty slice,
/// otherwise a copy of the element at an index that the generator picked.
#[verifier::external_body]
pub(crate) fn choose_one<T: Copy>(items: &[T], rng: &mut SmallRng) -> (picked: Option<T>)
    ensures
        items@.len() == 0 ==> picked is None,
        items@.len() > 0 ==> picked is Some && items@.contains(picked->0),
{
    items.choose(rng).copied()
}

/// Calls `SliceRandom::choose` on `items` with the thread's generator: `None`
/// for an empty slice, otherwise a copy of the element at an index that the
/// generator picked.
#[verifier::external_body]
pub(crate) fn choose_on_thread<T: Copy>(items: &[T], rng: &mut ThreadRng) -> (picked: Option<T>)
    ensures
        items@.len() == 0 ==> picked is None,
        items@.len() > 0 ==> picked is Some && items@.contains(picked->0),
{
    items.choose(rng).copied()
}

/// Calls `Rng::gen_ratio`: `true` with probability `numerator / denominator`.
/// The crate documents the two certain cases, which are all that is claimed:
/// equal arguments always give `true`, a zero numerator always gives `false`.
/// It panics on a zero denominator or a numerator above the denominator, so
/// both are excluded.
#[verifier::external_body]
pub(crate) fn gen_ratio(rng: &mut SmallRng, numerator: u32, denominator: u32) -> (hit: bool)
    requires
        denominator > 0,
        numerator <= denominator,
    ensures
        numerator == denominator ==> hit,
        numerator == 0 ==> !hit,
{
    rng.gen_ratio(numerator, denominator)
}

/// Calls `Rng::gen_range(0, bound)`: a value of the half-open range
/// `[0, bound)`. The crate panics on an empty range, so `bound` is positive.
#[verifier::external_body]
pub(crate) fn gen_below(rng: &mut SmallRng, bound: u128) -> (draw: u128)
    requires
        bound > 0,
    ensures
        draw < bound,
{
    rng.gen_range(0u128, bound)
}

} // verus!
