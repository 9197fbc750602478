//! The initial parameters of a layer: random numbers between minus one and
//! one.
//!
//! The numbers lie on a grid of 2^23 equally spaced points that starts at
//! minus one and ends one step below one. A draw picks a point of the grid
//! with the thread's random generator; every point is equally likely.
use vstd::prelude::*;
use rand::distributions::Uniform;
use rand::Rng;
use crate::fixed::{Fixed, UNIT};
use crate::scalar::{count, one, Scalar};

verus! {

/// The number of equal steps into which the initial parameters divide one
/// unit.
pub const STEPS_PER_UNIT: usize = 0x40_0000;

/// The scalar at step `k` of the grid of initial parameters: `k` steps above
/// minus one.
pub open spec fn unit_draw<S: Scalar>(k: nat) -> S {
    count::<S>(k).over_spec(count::<S>(STEPS_PER_UNIT as nat)).minus_spec(one::<S>())
}

/// Whether `x` lies on the grid of initial parameters, which starts at minus
/// one and ends one step below one.
pub open spec fn is_unit_draw<S: Scalar>(x: S) -> bool {
    exists|k: nat| k < 2 * STEPS_PER_UNIT && x == #[trigger] unit_draw::<S>(k)
}

/// Draws a whole number below `bound` from the random generator of the
/// current thread.
///
/// This is `rand::Rng::sample` on `rand::thread_rng()` with the distribution
/// `rand::distributions::Uniform::new(0, bound)`. The contract claims only
/// that the number lies in the half-open range from zero to `bound`: the
/// sampler returns its lower end plus the high word of a product with the
/// width of the range. `Uniform::new` panics on an empty range, which the
/// precondition leaves out. `thread_rng` panics when the operating system
/// cannot seed the generator, whatever the argument.
#[verifier::external_body]
fn random_below(bound: usize) -> (r: usize)
    requires
        bound > 0,
    ensures
        r < bound,
{
    rand::thread_rng().sample(Uniform::new(0, bound))
}

/// The scalar at step `k` of the grid of initial parameters.
pub fn scalar_at_step<S: Scalar>(k: usize) -> (r: S)
    ensures
        r == unit_draw::<S>(k as nat),
{
    S::from_count(k).over(S::from_count(STEPS_PER_UNIT)).minus(S::from_count(1))
}

/// A vector of `size` scalars, each drawn independently from the grid of
/// initial parameters.
pub fn random_vec<S: Scalar>(size: usize) -> (r: Vec<S>)
    ensures
        r@.len() == size,
        forall|i: int| 0 <= i < size ==> is_unit_draw(#[trigger] r@[i]),
{
    let mut r: Vec<S> = Vec::new();
    let mut i: usize = 0;
    while i < size
        invariant
            i <= size,
            r@.len() == i,
            forall|k: int| 0 <= k < i ==> is_unit_draw(#[trigger] r@[k]),
        decreases size - i,
    {
        let step = random_below(2 * STEPS_PER_UNIT);
        let drawn = scalar_at_step::<S>(step);
        assert(is_unit_draw(drawn)) by {
            assert(drawn == unit_draw::<S>(step as nat));
        }
        r.push(drawn);
        i += 1;
    }
    r
}

/// In fixed-point arithmetic the grid of initial parameters is exact: step
/// `k` is the number `k / 2^22 - 1`, so the grid starts at minus one, has 2^23
/// points and ends below one.
pub proof fn fixed_unit_draw_is_exact(k: nat)
    requires
        k < 2 * STEPS_PER_UNIT,
    ensures
        unit_draw::<Fixed>(k).raw == k * 1024 - UNIT,
        -UNIT <= unit_draw::<Fixed>(k).raw < UNIT,
{
    let scaled = k * UNIT;
    let divisor = STEPS_PER_UNIT * UNIT;
    assert(0 <= scaled < 0x80_0000 * 0x1_0000_0000) by (nonlinear_arith)
        requires
            scaled == k * 0x1_0000_0000,
            0 <= k < 0x80_0000,
    ;
    assert(count::<Fixed>(k).raw == scaled);
    assert(divisor == 0x40_0000_0000_0000) by (nonlinear_arith)
        requires
            divisor == 0x40_0000 * 0x1_0000_0000,
    ;
    assert(count::<Fixed>(STEPS_PER_UNIT as nat).raw == divisor);
    assert(scaled * 0x1_0000_0000 == (k * 1024) * 0x40_0000_0000_0000) by (nonlinear_arith)
        requires
            scaled == k * 0x1_0000_0000,
    ;
    assert(((k * 1024) * 0x40_0000_0000_0000) / 0x40_0000_0000_0000 == k * 1024)
        by (nonlinear_arith);
    assert(scaled * UNIT >= 0) by (nonlinear_arith)
        requires
            scaled >= 0,
            UNIT == 0x1_0000_0000,
    ;
    assert(count::<Fixed>(k).over_spec(count::<Fixed>(STEPS_PER_UNIT as nat)).raw == k * 1024);
}

} // verus!
