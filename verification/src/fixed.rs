//! Fixed-point scalars: the arithmetic every quantity of the simulation uses.

use vstd::prelude::*;

verus! {

/// Raw units per whole unit: a `Fixed` counts millionths.
pub const SCALE: i64 = 1_000_000;

/// The nearest value of `i64` to `v`.
pub open spec fn saturate(v: int) -> i64 {
    if v < i64::MIN {
        i64::MIN
    } else if v > i64::MAX {
        i64::MAX
    } else {
        v as i64
    }
}

/// `p / d` rounded toward zero, for a positive `d`.
pub open spec fn quotient(p: int, d: int) -> int
    recommends
        d > 0,
{
    if p >= 0 {
        p / d
    } else {
        -((-p) / d)
    }
}

/// A scalar in millionths of a unit. Every operation is total: a result
/// outside the range of `i64` is replaced by the nearest bound.
#[derive(Clone, Copy, PartialEq, Eq, Debug, Structural)]
pub struct Fixed {
    pub raw: i64,
}

fn narrow(v: i128) -> (r: i64)
    ensures
        r == saturate(v as int),
{
    if v < i64::MIN as i128 {
        i64::MIN
    } else if v > i64::MAX as i128 {
        i64::MAX
    } else {
        v as i64
    }
}

impl Fixed {
    /// What `zero` returns.
    pub open spec fn spec_zero() -> Fixed {
        Fixed { raw: 0 }
    }

    /// What `from_int` returns.
    pub open spec fn spec_from_int(n: i32) -> Fixed {
        Fixed { raw: (n * SCALE) as i64 }
    }

    /// What `plus` returns: the sum, held to the range of `i64`.
    pub open spec fn spec_plus(self, rhs: Fixed) -> Fixed {
        Fixed { raw: saturate(self.raw + rhs.raw) }
    }

    /// What `minus` returns: the difference, held to the range of `i64`.
    pub open spec fn spec_minus(self, rhs: Fixed) -> Fixed {
        Fixed { raw: saturate(self.raw - rhs.raw) }
    }

    /// What `magnitude` returns: the absolute value, held to the range of `i64`.
    pub open spec fn spec_magnitude(self) -> Fixed {
        Fixed { raw: saturate(if self.raw < 0 { -self.raw } else { self.raw as int }) }
    }

    /// What `times` returns: the product in millionths, rounded toward zero
    /// and held to the range of `i64`.
    pub open spec fn spec_times(self, rhs: Fixed) -> Fixed {
        Fixed { raw: saturate(quotient(self.raw * rhs.raw, SCALE as int)) }
    }

    /// The scalar 0.
    #[verifier::when_used_as_spec(spec_zero)]
    pub fn zero() -> (r: Fixed)
        ensures
            r == Fixed::spec_zero(),
    {
        Fixed { raw: 0 }
    }

    /// The whole number `n` as a scalar.
    #[verifier::when_used_as_spec(spec_from_int)]
    pub fn from_int(n: i32) -> (r: Fixed)
        ensures
            r == Fixed::spec_from_int(n),
            r.raw == n * SCALE,
    {
        let wide: i64 = n as i64;
        Fixed { raw: wide * SCALE }
    }

    /// `self + rhs`, saturating.
    #[verifier::when_used_as_spec(spec_plus)]
    pub fn plus(self, rhs: Fixed) -> (r: Fixed)
        ensures
            r == self.spec_plus(rhs),
    {
        let wide: i128 = self.raw as i128 + rhs.raw as i128;
        Fixed { raw: narrow(wide) }
    }

    /// `self - rhs`, saturating.
    #[verifier::when_used_as_spec(spec_minus)]
    pub fn minus(self, rhs: Fixed) -> (r: Fixed)
        ensures
            r == self.spec_minus(rhs),
    {
        let wide: i128 = self.raw as i128 - rhs.raw as i128;
        Fixed { raw: narrow(wide) }
    }

    /// `|self|`, saturating (the magnitude of the lowest value is the highest).
    #[verifier::when_used_as_spec(spec_magnitude)]
    pub fn magnitude(self) -> (r: Fixed)
        ensures
            r == self.spec_magnitude(),
    {
        let wide: i128 = if self.raw < 0 {
            -(self.raw as i128)
        } else {
            self.raw as i128
        };
        Fixed { raw: narrow(wide) }
    }

    /// `self * rhs`, rounded toward zero to the nearest millionth, saturating.
    #[verifier::when_used_as_spec(spec_times)]
    pub fn times(self, rhs: Fixed) -> (r: Fixed)
        ensures
            r == self.spec_times(rhs),
    {
        assert(-0x4000_0000_0000_0000_0000_0000_0000_0000 <= self.raw * rhs.raw
            <= 0x4000_0000_0000_0000_0000_0000_0000_0000) by (nonlinear_arith)
            requires
                -0x8000_0000_0000_0000 <= self.raw <= 0x7fff_ffff_ffff_ffff,
                -0x8000_0000_0000_0000 <= rhs.raw <= 0x7fff_ffff_ffff_ffff,
        ;
        let product: i128 = (self.raw as i128) * (rhs.raw as i128);
        let scaled: i128 = product / (SCALE as i128);
        Fixed { raw: narrow(scaled) }
    }
}

/// `r` is the integer square root of `n`: the largest `r` with `r * r <= n`.
pub open spec fn is_root(n: int, r: int) -> bool {
    0 <= r && r * r <= n < (r + 1) * (r + 1)
}

/// The integer square root of a non-negative `n`.
pub closed spec fn root(n: int) -> int {
    choose|r: int| is_root(n, r)
}

/// Every non-negative integer has an integer square root.
pub proof fn lemma_root_exists(n: int)
    requires
        n >= 0,
    ensures
        is_root(n, root(n)),
    decreases n,
{
    if n == 0 {
        assert(is_root(0, 0));
    } else {
        lemma_root_exists(n - 1);
        let r = root(n - 1);
        if n < (r + 1) * (r + 1) {
            assert(is_root(n, r));
        } else {
            assert((r + 1) * (r + 1) <= n < (r + 2) * (r + 2)) by (nonlinear_arith)
                requires
                    0 <= r,
                    r * r <= n - 1 < (r + 1) * (r + 1),
                    n >= (r + 1) * (r + 1),
            ;
            assert(is_root(n, r + 1));
        }
    }
}

/// The integer square root is unique.
pub proof fn lemma_root_unique(n: int, a: int, b: int)
    requires
        is_root(n, a),
        is_root(n, b),
    ensures
        a == b,
{
    if a < b {
        assert((a + 1) * (a + 1) <= b * b) by (nonlinear_arith)
            requires
                0 <= a,
                a + 1 <= b,
        ;
    } else if b < a {
        assert((b + 1) * (b + 1) <= a * a) by (nonlinear_arith)
            requires
                0 <= b,
                b + 1 <= a,
        ;
    }
}

/// The integer square root of `n`.
pub fn isqrt(n: u128) -> (r: u64)
    ensures
        r == root(n as int),
        is_root(n as int, r as int),
{
    let mut low: u128 = 0;
    let mut high: u128 = 0x1_0000_0000_0000_0000;
    assert(n < high * high) by (nonlinear_arith)
        requires
            n <= 0xffff_ffff_ffff_ffff_ffff_ffff_ffff_ffff,
            high == 0x1_0000_0000_0000_0000,
    ;
    while high - low > 1
        invariant
            low < high <= 0x1_0000_0000_0000_0000,
            low * low <= n < high * high,
        decreases high - low,
    {
        let middle: u128 = low + (high - low) / 2;
        assert(middle * middle <= 0xffff_ffff_ffff_ffff_ffff_ffff_ffff_ffff) by (nonlinear_arith)
            requires
                middle <= 0xffff_ffff_ffff_ffff,
        ;
        if middle * middle <= n {
            low = middle;
        } else {
            high = middle;
        }
    }
    proof {
        assert(is_root(n as int, low as int));
        lemma_root_exists(n as int);
        lemma_root_unique(n as int, low as int, root(n as int));
    }
    low as u64
}

} // verus!
