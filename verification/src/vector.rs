//! Points, displacements and directions in the plane.

use crate::fixed::{isqrt, root, saturate, Fixed};
use vstd::prelude::*;

verus! {

/// A point or a displacement in the plane.
#[derive(Clone, Copy, PartialEq, Eq, Debug, Structural)]
pub struct Vec2 {
    pub x: Fixed,
    pub y: Fixed,
}

/// A direction, given by the cosine and the sine of its angle.
///
/// The engine has no trigonometry of its own: whoever drives it supplies
/// the heading that belongs to an angle.
#[derive(Clone, Copy, PartialEq, Eq, Debug, Structural)]
pub struct Heading {
    pub cos: Fixed,
    pub sin: Fixed,
}

fn square_of_difference(a: i64, b: i64) -> (r: u128)
    ensures
        r == (a - b) * (a - b),
{
    let gap: i128 = a as i128 - b as i128;
    let size: u128 = if gap < 0 {
        (-gap) as u128
    } else {
        gap as u128
    };
    assert(size * size == (a - b) * (a - b)) by (nonlinear_arith)
        requires
            size == a - b || size == -(a - b),
    ;
    assert(size * size <= 0xffff_ffff_ffff_ffff_ffff_ffff_ffff_ffff) by (nonlinear_arith)
        requires
            size <= 0xffff_ffff_ffff_ffff,
    ;
    size * size
}

impl Vec2 {
    /// What `zero` returns.
    pub open spec fn spec_zero() -> Vec2 {
        Vec2 { x: Fixed::zero(), y: Fixed::zero() }
    }

    /// What `plus` returns.
    pub open spec fn spec_plus(self, rhs: Vec2) -> Vec2 {
        Vec2 { x: self.x.plus(rhs.x), y: self.y.plus(rhs.y) }
    }

    /// What `scaled` returns.
    pub open spec fn spec_scaled(self, factor: Fixed) -> Vec2 {
        Vec2 { x: self.x.times(factor), y: self.y.times(factor) }
    }

    /// The squared length in raw units, as an unbounded integer.
    pub open spec fn norm_squared(self) -> int {
        self.x.raw * self.x.raw + self.y.raw * self.y.raw
    }

    /// What `length` returns: the integer square root of the squared length,
    /// held to the range of `i64`.
    pub open spec fn spec_length(self) -> Fixed {
        Fixed { raw: saturate(root(self.norm_squared())) }
    }

    /// The squared distance to `other` in raw units, as an unbounded integer.
    pub open spec fn distance_squared(self, other: Vec2) -> int {
        (self.x.raw - other.x.raw) * (self.x.raw - other.x.raw) + (self.y.raw - other.y.raw) * (
        self.y.raw - other.y.raw)
    }

    /// The squared distance to `other`, capped at the largest `u128`.
    pub open spec fn spec_distance_key(self, other: Vec2) -> u128 {
        if self.distance_squared(other) > u128::MAX {
            u128::MAX
        } else {
            self.distance_squared(other) as u128
        }
    }

    /// Whether `other` lies within `reach` raw units of `self`. A negative
    /// reach contains nothing.
    pub open spec fn spec_within(self, other: Vec2, reach: int) -> bool {
        reach >= 0 && self.distance_squared(other) <= reach * reach
    }

    /// A squared distance is never negative, and is the same in both directions.
    pub proof fn lemma_distance_squared_symmetric(self, other: Vec2)
        ensures
            self.distance_squared(other) >= 0,
            self.distance_squared(other) == other.distance_squared(self),
            self.distance_squared(self) == 0,
    {
        let across = self.x.raw - other.x.raw;
        let up = self.y.raw - other.y.raw;
        assert(across * across >= 0 && across * across == (-across) * (-across))
            by (nonlinear_arith);
        assert(up * up >= 0 && up * up == (-up) * (-up)) by (nonlinear_arith);
    }

    /// The origin, and the zero displacement.
    #[verifier::when_used_as_spec(spec_zero)]
    pub fn zero() -> (r: Vec2)
        ensures
            r == Vec2::spec_zero(),
    {
        Vec2 { x: Fixed::zero(), y: Fixed::zero() }
    }

    /// The sum, coordinate by coordinate.
    #[verifier::when_used_as_spec(spec_plus)]
    pub fn plus(self, rhs: Vec2) -> (r: Vec2)
        ensures
            r == self.spec_plus(rhs),
    {
        Vec2 { x: self.x.plus(rhs.x), y: self.y.plus(rhs.y) }
    }

    /// Both coordinates multiplied by `factor`.
    #[verifier::when_used_as_spec(spec_scaled)]
    pub fn scaled(self, factor: Fixed) -> (r: Vec2)
        ensures
            r == self.spec_scaled(factor),
    {
        Vec2 { x: self.x.times(factor), y: self.y.times(factor) }
    }

    /// The Euclidean length, rounded down to the nearest millionth.
    #[verifier::when_used_as_spec(spec_length)]
    pub fn length(self) -> (r: Fixed)
        ensures
            r == self.spec_length(),
    {
        let across: u128 = square_of_difference(self.x.raw, 0);
        let up: u128 = square_of_difference(self.y.raw, 0);
        assert(across <= 0x4000_0000_0000_0000_0000_0000_0000_0000) by (nonlinear_arith)
            requires
                across == self.x.raw * self.x.raw,
                -0x8000_0000_0000_0000 <= self.x.raw <= 0x7fff_ffff_ffff_ffff,
        ;
        assert(up <= 0x4000_0000_0000_0000_0000_0000_0000_0000) by (nonlinear_arith)
            requires
                up == self.y.raw * self.y.raw,
                -0x8000_0000_0000_0000 <= self.y.raw <= 0x7fff_ffff_ffff_ffff,
        ;
        let side: u64 = isqrt(across + up);
        if side > i64::MAX as u64 {
            Fixed { raw: i64::MAX }
        } else {
            Fixed { raw: side as i64 }
        }
    }

    /// The squared distance to `other`, capped at the largest `u128`.
    #[verifier::when_used_as_spec(spec_distance_key)]
    pub fn distance_key(self, other: Vec2) -> (r: u128)
        ensures
            r == self.spec_distance_key(other),
    {
        let across: u128 = square_of_difference(self.x.raw, other.x.raw);
        let up: u128 = square_of_difference(self.y.raw, other.y.raw);
        match across.checked_add(up) {
            Some(total) => total,
            None => u128::MAX,
        }
    }

    /// Whether `other` lies within `reach` raw units of `self`.
    pub(crate) fn within(self, other: Vec2, reach: i128) -> (r: bool)
        requires
            reach <= 0xffff_ffff_ffff_ffff,
        ensures
            r == self.spec_within(other, reach as int),
    {
        if reach < 0 {
            false
        } else {
            let span: u128 = reach as u128;
            assert(span * span < 0xffff_ffff_ffff_ffff_ffff_ffff_ffff_ffff && span * span == reach
                * reach) by (nonlinear_arith)
                requires
                    span <= 0xffff_ffff_ffff_ffff,
                    span == reach,
            ;
            proof {
                self.lemma_distance_squared_symmetric(other);
            }
            self.distance_key(other) <= span * span
        }
    }
}

impl Heading {
    /// What `along` returns.
    pub open spec fn spec_along(self, length: Fixed) -> Vec2 {
        Vec2 { x: self.cos.times(length), y: self.sin.times(length) }
    }

    /// The displacement of the given length in this direction.
    #[verifier::when_used_as_spec(spec_along)]
    pub fn along(self, length: Fixed) -> (r: Vec2)
        ensures
            r == self.spec_along(length),
    {
        Vec2 { x: self.cos.times(length), y: self.sin.times(length) }
    }
}

} // verus!
