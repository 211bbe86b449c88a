//! A small Edwards curve, for hashing on a real curve at a size that fits a
//! machine word.
//!
//! The curve is `x^2 + y^2 = 1 + 3 x^2 y^2` over the field of `2^61 - 1`
//! elements. The field is far too small to keep anything secret: the curve
//! is here to run the hash, not to protect anything.
//!
//! What is proved of it is what the hash relies on: the arithmetic stays in
//! the field, the point `(0, 1)` is neutral on both sides, and every base
//! element lies on the curve. That the sum of two points of the curve is a
//! point of the curve, and that sums may be regrouped, are facts of algebra
//! which nothing here proves and nothing here uses.

use vstd::prelude::*;
use vstd::arithmetic::power::lemma1_pow;
use crate::curve::Curve;
use crate::field::{
    add_mod, difference_mod, inv_mod, inverse_mod, mul_mod, pow_mod, power_mod, product_mod,
    sub_mod, sum_mod, MODULUS,
};

verus! {

/// The curve's coefficient `d`.
pub const COEFFICIENT: u64 = 3;

/// Where the digest of a seed starts.
pub const DIGEST_OFFSET: u64 = 1469598103934665603;

/// What the digest of a seed is multiplied by at each step.
pub const DIGEST_MULTIPLIER: u64 = 1099511628211;

/// The power that spreads the abscissas of neighbouring indices over the
/// field.
pub const SPREAD_EXPONENT: u64 = 17;

/// How many abscissas in a row are tried for a point.
pub const ATTEMPTS: u64 = 256;

/// The exponent that takes a square of the field to one of its roots.
pub const ROOT_EXPONENT: u64 = 576460752303423488;

/// A pair of coordinates in the field.
#[derive(Clone, Copy, Debug, PartialEq, Eq)]
pub struct EdwardsPoint {
    /// The abscissa.
    pub x: u64,
    /// The ordinate.
    pub y: u64,
}

/// Whether the pair satisfies the curve's equation.
pub open spec fn on_curve(point: EdwardsPoint) -> bool {
    let xx = product_mod(point.x as int, point.x as int);
    let yy = product_mod(point.y as int, point.y as int);
    sum_mod(xx, yy) == sum_mod(1, product_mod(COEFFICIENT as int, product_mod(xx, yy)))
}

/// The digest of the first `count` bytes of `seed`.
pub open spec fn digest(seed: Seq<u8>, count: nat) -> int
    decreases count,
{
    if count == 0 {
        DIGEST_OFFSET as int
    } else {
        (digest(seed, (count - 1) as nat) * DIGEST_MULTIPLIER + seed[count - 1] + 1) % (
        MODULUS as int)
    }
}

/// The abscissa at which the search for the base element of `index` starts:
/// the seed's digest, stepped once more with the index, and spread.
pub open spec fn first_abscissa(seed: Seq<u8>, index: nat) -> int {
    power_mod(
        (digest(seed, seed.len()) * DIGEST_MULTIPLIER + index) % (MODULUS as int),
        SPREAD_EXPONENT as nat,
    )
}

/// The pair with abscissa `x` whose ordinate is the root candidate of what
/// the curve's equation asks its square to be.
pub open spec fn candidate(x: int) -> EdwardsPoint {
    let xx = product_mod(x, x);
    let numerator = difference_mod(1, xx);
    let denominator = difference_mod(1, product_mod(COEFFICIENT as int, xx));
    let yy = product_mod(numerator, inverse_mod(denominator));
    EdwardsPoint { x: x as u64, y: power_mod(yy, ROOT_EXPONENT as nat) as u64 }
}

/// Whether the pair can serve as a base element: it lies on the curve and
/// on neither axis.
pub open spec fn acceptable(point: EdwardsPoint) -> bool {
    on_curve(point) && point.x != 0 && point.y != 0
}

/// The first acceptable candidate among the `attempts` abscissas from `x`
/// on, and the identity if there is none.
pub open spec fn search(x: int, attempts: nat) -> EdwardsPoint
    decreases attempts,
{
    if attempts == 0 {
        EdwardsPoint { x: 0, y: 1 }
    } else if acceptable(candidate(x)) {
        candidate(x)
    } else {
        search(sum_mod(x, 1), (attempts - 1) as nat)
    }
}

/// The point `(0, 1)` lies on the curve.
pub proof fn lemma_identity_on_curve()
    ensures
        on_curve(EdwardsPoint { x: 0, y: 1 }),
{
    assert(product_mod(0, 0) == 0);
    assert(product_mod(1, 1) == 1);
    assert(product_mod(0, 1) == 0);
    assert(product_mod(COEFFICIENT as int, 0) == 0);
}

/// A candidate has its coordinates in the field.
pub proof fn lemma_candidate_in_field(x: int)
    requires
        0 <= x < MODULUS,
    ensures
        candidate(x).x == x,
        candidate(x).y < MODULUS,
{
}

/// What a search returns has its coordinates in the field and lies on the
/// curve.
pub proof fn lemma_search(x: int, attempts: nat)
    requires
        0 <= x < MODULUS,
    ensures
        search(x, attempts).x < MODULUS,
        search(x, attempts).y < MODULUS,
        on_curve(search(x, attempts)),
    decreases attempts,
{
    if attempts == 0 {
        lemma_identity_on_curve();
    } else if acceptable(candidate(x)) {
        lemma_candidate_in_field(x);
    } else {
        lemma_search(sum_mod(x, 1), (attempts - 1) as nat);
    }
}

impl Curve for EdwardsPoint {
    /// Both coordinates are elements of the field.
    open spec fn valid(self) -> bool {
        self.x < MODULUS && self.y < MODULUS
    }

    /// The point `(0, 1)`.
    open spec fn identity() -> Self {
        EdwardsPoint { x: 0, y: 1 }
    }

    /// The curve's addition law:
    /// `x = (x1 y2 + y1 x2) / (1 + d x1 x2 y1 y2)` and
    /// `y = (y1 y2 - x1 x2) / (1 - d x1 x2 y1 y2)`.
    open spec fn sum(self, other: Self) -> Self {
        let x1x2 = product_mod(self.x as int, other.x as int);
        let y1y2 = product_mod(self.y as int, other.y as int);
        let x1y2 = product_mod(self.x as int, other.y as int);
        let y1x2 = product_mod(self.y as int, other.x as int);
        let cross = product_mod(COEFFICIENT as int, product_mod(x1x2, y1y2));
        EdwardsPoint {
            x: product_mod(sum_mod(x1y2, y1x2), inverse_mod(sum_mod(1, cross))) as u64,
            y: product_mod(difference_mod(y1y2, x1x2), inverse_mod(difference_mod(1, cross)))
                as u64,
        }
    }

    /// The first acceptable point at or after the abscissa that the seed's
    /// digest and the index give.
    open spec fn generator_at(seed: Seq<u8>, index: nat) -> Self {
        search(first_abscissa(seed, index), ATTEMPTS as nat)
    }

    proof fn identity_is_valid() {
    }

    proof fn sum_is_valid(a: Self, b: Self) {
    }

    proof fn generator_is_valid(seed: Seq<u8>, index: nat) {
        lemma_search(first_abscissa(seed, index), ATTEMPTS as nat);
    }

    proof fn identity_is_neutral(a: Self) {
        let x = a.x as int;
        let y = a.y as int;
        assert(inverse_mod(1) == 1) by {
            lemma1_pow((MODULUS - 2) as nat);
        }
        // Every product with an abscissa of zero vanishes, and with it the
        // term that the two denominators add to one and take from it.
        assert(product_mod(x, 0) == 0 && product_mod(0, x) == 0);
        assert(product_mod(y, 0) == 0 && product_mod(0, y) == 0);
        assert(product_mod(COEFFICIENT as int, product_mod(0, y)) == 0);
        assert(sum_mod(1, 0) == 1 && difference_mod(1, 0) == 1);
        // What is left of the numerators is the other point's coordinates.
        assert(product_mod(x, 1) == x && product_mod(1, x) == x);
        assert(product_mod(y, 1) == y && product_mod(1, y) == y);
        assert(sum_mod(x, 0) == x && sum_mod(0, x) == x);
        assert(difference_mod(y, 0) == y);
        let right = a.sum(Self::identity());
        assert(right.x == a.x && right.y == a.y);
        let left = Self::identity().sum(a);
        assert(left.x == a.x && left.y == a.y);
    }

    fn zero() -> (element: Self) {
        EdwardsPoint { x: 0, y: 1 }
    }

    fn add(&self, other: &Self) -> (element: Self) {
        let x1x2 = mul_mod(self.x, other.x);
        let y1y2 = mul_mod(self.y, other.y);
        let x1y2 = mul_mod(self.x, other.y);
        let y1x2 = mul_mod(self.y, other.x);
        let cross = mul_mod(COEFFICIENT, mul_mod(x1x2, y1y2));
        EdwardsPoint {
            x: mul_mod(add_mod(x1y2, y1x2), inv_mod(add_mod(1, cross))),
            y: mul_mod(sub_mod(y1y2, x1x2), inv_mod(sub_mod(1, cross))),
        }
    }

    fn generator(seed: &[u8], index: usize) -> (element: Self) {
        let mut x = EdwardsPoint::first_abscissa(seed, index);
        let mut left: u64 = ATTEMPTS;
        while left > 0
            invariant
                x < MODULUS,
                search(x as int, left as nat) == search(
                    first_abscissa(seed@, index as nat),
                    ATTEMPTS as nat,
                ),
            decreases left,
        {
            let point = EdwardsPoint::candidate(x);
            if point.is_on_curve() && point.x != 0 && point.y != 0 {
                return point;
            }
            x = add_mod(x, 1);
            left = left - 1;
        }
        EdwardsPoint { x: 0, y: 1 }
    }
}

impl EdwardsPoint {
    /// Whether the pair satisfies the curve's equation.
    pub fn is_on_curve(&self) -> (holds: bool)
        requires
            self.valid(),
        ensures
            holds == on_curve(*self),
    {
        let xx = mul_mod(self.x, self.x);
        let yy = mul_mod(self.y, self.y);
        add_mod(xx, yy) == add_mod(1, mul_mod(COEFFICIENT, mul_mod(xx, yy)))
    }

    /// Returns the abscissa at which the search for the base element of
    /// `index` starts.
    pub fn first_abscissa(seed: &[u8], index: usize) -> (x: u64)
        ensures
            x == first_abscissa(seed@, index as nat),
            x < MODULUS,
    {
        let modulus = MODULUS as u128;
        let multiplier = DIGEST_MULTIPLIER as u128;
        let mut state: u128 = DIGEST_OFFSET as u128;
        let mut i: usize = 0;
        while i < seed.len()
            invariant
                i <= seed@.len(),
                state == digest(seed@, i as nat),
                state < MODULUS,
                modulus == MODULUS,
                multiplier == DIGEST_MULTIPLIER,
            decreases seed@.len() - i,
        {
            assert(state * multiplier < 0x1_0000_0000_0000_0000_0000_0000_0000) by (nonlinear_arith)
                requires
                    state < 0x2000_0000_0000_0000,
                    multiplier < 0x1_0000_0000_0000,
            ;
            state = (state * multiplier + seed[i] as u128 + 1) % modulus;
            i = i + 1;
        }
        assert(state * multiplier < 0x1_0000_0000_0000_0000_0000_0000_0000) by (nonlinear_arith)
            requires
                state < 0x2000_0000_0000_0000,
                multiplier < 0x1_0000_0000_0000,
        ;
        let mixed = ((state * multiplier + index as u128) % modulus) as u64;
        pow_mod(mixed, SPREAD_EXPONENT)
    }

    /// Returns the pair with abscissa `x` whose ordinate is the root
    /// candidate of what the curve's equation asks its square to be.
    pub fn candidate(x: u64) -> (point: EdwardsPoint)
        requires
            x < MODULUS,
        ensures
            point == candidate(x as int),
            point.valid(),
    {
        let xx = mul_mod(x, x);
        let numerator = sub_mod(1, xx);
        let denominator = sub_mod(1, mul_mod(COEFFICIENT, xx));
        let yy = mul_mod(numerator, inv_mod(denominator));
        EdwardsPoint { x, y: pow_mod(yy, ROOT_EXPONENT) }
    }
}

/// Every base element lies on the curve.
pub proof fn lemma_generator_on_curve(seed: Seq<u8>, index: nat)
    ensures
        on_curve(EdwardsPoint::generator_at(seed, index)),
{
    lemma_search(first_abscissa(seed, index), ATTEMPTS as nat);
}

} // verus!
