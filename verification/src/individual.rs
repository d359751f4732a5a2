//! The capability contract every search subject implements.

use vstd::prelude::*;

verus! {

/// One problem-specific candidate solution under evolution.
///
/// `mutate` applies one stochastic perturbation to the internal state in
/// place; it must be usable repeatedly and must not assume any particular
/// prior state. `calculate_fitness` scores the current state; lower is
/// better. A problem whose natural fitness is a real number maps it to an
/// integer through any order-preserving encoding (for example, a fixed
/// number of decimal digits); the engine only ever compares fitness values.
///
/// The engine makes no assumption about either method: every contract of
/// the engine holds for every value an implementation may return. Reset
/// cycles revert a population to its best-known snapshot, so no
/// baseline-reset capability is required of a candidate.
pub trait Individual: Sized {
    /// Apply one random perturbation to the internal state.
    fn mutate(&mut self);

    /// Score the current state; lower is better.
    fn calculate_fitness(&self) -> u64;
}

} // verus!
