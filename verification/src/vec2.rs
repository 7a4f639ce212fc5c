//! Points and directions of the plane, in fixed-point coordinates.

use vstd::prelude::*;
use crate::fixed::{fx_mul, is_floor_sqrt, isqrt, lemma_isqrt_is_floor, mul_div, quotient, sat_add, sat_sub, ONE};

verus! {

/// Squared length at or below which a vector has no usable direction:
/// the square of one hundredth of a unit.
pub const EPSILON_SQUARED: u128 = 100_000_000;

/// How far below `ONE` the length of a normalised vector may fall.
pub const UNIT_SLACK_BELOW: i64 = 2;

/// How far above `ONE` the length of a normalised vector may rise.
pub const UNIT_SLACK_ABOVE: i64 = 100;

/// A point or a displacement. Its arithmetic saturates in each coordinate.
#[derive(Clone, Copy, Debug, PartialEq, Eq, Structural)]
pub struct Vec2 {
    pub x: i64,
    pub y: i64,
}

/// The square of the distance between two points. Two points at opposite
/// corners of the plane are farther apart than 128 bits can say, so the
/// value is kept as `low`, plus 2^128 where `carry` is set.
#[derive(Clone, Copy, Debug, PartialEq, Eq, Structural)]
pub struct SquaredDistance {
    pub low: u128,
    pub carry: bool,
}

impl View for SquaredDistance {
    type V = int;

    open spec fn view(&self) -> int {
        if self.carry {
            self.low + 0x1_0000_0000_0000_0000_0000_0000_0000_0000
        } else {
            self.low as int
        }
    }
}

impl SquaredDistance {
    /// Whether this distance is strictly the shorter one.
    pub fn less_than(self, other: SquaredDistance) -> (r: bool)
        ensures
            r == (self@ < other@),
    {
        if self.carry == other.carry {
            self.low < other.low
        } else {
            other.carry
        }
    }

    /// Whether this distance is at most `bound`.
    pub fn at_most(self, bound: u128) -> (r: bool)
        ensures
            r == (self@ <= bound),
    {
        !self.carry && self.low <= bound
    }
}

impl Vec2 {
    /// The sum, each coordinate saturated.
    pub open spec fn spec_plus(self, other: Vec2) -> Vec2 {
        Vec2 { x: sat_add(self.x, other.x), y: sat_add(self.y, other.y) }
    }

    /// The difference, each coordinate saturated.
    pub open spec fn spec_minus(self, other: Vec2) -> Vec2 {
        Vec2 { x: sat_sub(self.x, other.x), y: sat_sub(self.y, other.y) }
    }

    /// The vector times a fixed-point factor, each coordinate rounded toward
    /// zero and saturated.
    pub open spec fn spec_scaled(self, factor: i64) -> Vec2 {
        Vec2 { x: fx_mul(self.x, factor), y: fx_mul(self.y, factor) }
    }

    /// The square of the Euclidean length, in squared millionths.
    pub open spec fn norm_squared(self) -> int {
        self.x * self.x + self.y * self.y
    }

    /// The square of the Euclidean distance to `other`, in squared
    /// millionths.
    pub open spec fn dist_squared(self, other: Vec2) -> int {
        (self.x - other.x) * (self.x - other.x) + (self.y - other.y) * (self.y - other.y)
    }

    /// Whether `other` lies in the closed disc of the given radius round
    /// `self`.
    pub open spec fn spec_within(self, other: Vec2, radius: i64) -> bool {
        radius >= 0 && self.dist_squared(other) <= radius * radius
    }

    /// Whether the vector is too short to carry a direction.
    pub open spec fn spec_is_degenerate(self) -> bool {
        self.norm_squared() <= EPSILON_SQUARED
    }

    /// The vector scaled to length `ONE`: each coordinate times `ONE` over
    /// the integer part of the length, rounded toward zero. The zero vector
    /// is its own result.
    pub open spec fn spec_normalize(self) -> Vec2 {
        let len = isqrt(self.norm_squared() as u128);
        if len == 0 {
            self
        } else {
            Vec2 { x: mul_div(self.x, ONE, len), y: mul_div(self.y, ONE, len) }
        }
    }

    /// Whether the length is `ONE` up to the rounding of `normalize`.
    pub open spec fn is_unit(self) -> bool {
        (ONE - UNIT_SLACK_BELOW) * (ONE - UNIT_SLACK_BELOW) <= self.norm_squared() <= (ONE
            + UNIT_SLACK_ABOVE) * (ONE + UNIT_SLACK_ABOVE)
    }

    /// The vector with the given coordinates.
    pub fn new(x: i64, y: i64) -> (r: Vec2)
        ensures
            r == (Vec2 { x, y }),
    {
        Vec2 { x, y }
    }

    /// Coordinate-wise saturating sum.
    #[verifier::when_used_as_spec(spec_plus)]
    pub fn plus(self, other: Vec2) -> (r: Vec2)
        ensures
            r == self.spec_plus(other),
    {
        Vec2 { x: sat_add(self.x, other.x), y: sat_add(self.y, other.y) }
    }

    /// Coordinate-wise saturating difference.
    #[verifier::when_used_as_spec(spec_minus)]
    pub fn minus(self, other: Vec2) -> (r: Vec2)
        ensures
            r == self.spec_minus(other),
    {
        Vec2 { x: sat_sub(self.x, other.x), y: sat_sub(self.y, other.y) }
    }

    /// Multiplies both coordinates by a fixed-point factor.
    #[verifier::when_used_as_spec(spec_scaled)]
    pub fn scaled(self, factor: i64) -> (r: Vec2)
        ensures
            r == self.spec_scaled(factor),
    {
        Vec2 { x: fx_mul(self.x, factor), y: fx_mul(self.y, factor) }
    }

    /// The square of the Euclidean length.
    pub fn length_squared(self) -> (r: u128)
        ensures
            r == self.norm_squared(),
    {
        proof {
            lemma_square_fits(self.x);
            lemma_square_fits(self.y);
        }
        let wx: i128 = self.x as i128;
        let wy: i128 = self.y as i128;
        let sx: u128 = (wx * wx) as u128;
        let sy: u128 = (wy * wy) as u128;
        sx + sy
    }

    /// The square of the Euclidean distance to `other`, exact for every pair
    /// of points.
    pub fn distance_squared(self, other: Vec2) -> (r: SquaredDistance)
        ensures
            r@ == self.dist_squared(other),
    {
        let sx: u128 = square_of_gap(self.x, other.x);
        let sy: u128 = square_of_gap(self.y, other.y);
        if sx > u128::MAX - sy {
            SquaredDistance { low: sx - (u128::MAX - sy) - 1, carry: true }
        } else {
            SquaredDistance { low: sx + sy, carry: false }
        }
    }

    /// Whether `other` lies in the closed disc of the given radius round `self`.
    /// A negative radius holds nothing.
    #[verifier::when_used_as_spec(spec_within)]
    pub fn within(self, other: Vec2, radius: i64) -> (r: bool)
        ensures
            r == self.spec_within(other, radius),
    {
        if radius < 0 {
            return false;
        }
        proof {
            lemma_square_fits(radius);
        }
        let reach: u128 = radius as u128;
        self.distance_squared(other).at_most(reach * reach)
    }

    /// Whether the vector is too short to carry a direction.
    #[verifier::when_used_as_spec(spec_is_degenerate)]
    pub fn is_degenerate(self) -> (r: bool)
        ensures
            r == self.spec_is_degenerate(),
    {
        self.length_squared() <= EPSILON_SQUARED
    }

    /// The vector of length `ONE` (up to rounding) that points the same way.
    /// The zero vector is returned unchanged.
    #[verifier::when_used_as_spec(spec_normalize)]
    pub fn normalize(self) -> (r: Vec2)
        ensures
            r == self.spec_normalize(),
    {
        let len: u64 = isqrt(self.length_squared());
        if len == 0 {
            self
        } else {
            Vec2 { x: mul_div(self.x, ONE, len), y: mul_div(self.y, ONE, len) }
        }
    }
}

/// The square of the difference of two coordinates.
pub fn square_of_gap(a: i64, b: i64) -> (r: u128)
    ensures
        r == (a - b) * (a - b),
{
    let gap: i128 = a as i128 - b as i128;
    let size: u128 = if gap >= 0 {
        gap as u128
    } else {
        (-gap) as u128
    };
    assert(size * size == (a - b) * (a - b) && size * size <= 0xffff_ffff_ffff_ffff_ffff_ffff_ffff_ffff)
        by (nonlinear_arith)
        requires
            size == a - b || size == -(a - b),
            0 <= size <= 0xffff_ffff_ffff_ffff,
    ;
    size * size
}

/// The square of a 64-bit value is at most 2^126.
pub proof fn lemma_square_fits(a: i64)
    ensures
        0 <= a * a <= 0x4000_0000_0000_0000_0000_0000_0000_0000,
{
    assert(0 <= a * a <= 0x4000_0000_0000_0000_0000_0000_0000_0000) by (nonlinear_arith)
        requires
            -0x8000_0000_0000_0000 <= a <= 0x7fff_ffff_ffff_ffff,
    ;
}

/// Squaring keeps the order of non-negative integers.
proof fn lemma_square_le(x: int, y: int)
    requires
        0 <= x <= y,
    ensures
        x * x <= y * y,
{
    assert(x * x <= y * y) by (nonlinear_arith)
        requires
            0 <= x <= y,
    ;
}

/// The square of a product is the product of the squares.
proof fn lemma_square_of_product(x: int, y: int)
    ensures
        (x * y) * (x * y) == (x * x) * (y * y),
{
    assert((x * y) * (x * y) == (x * x) * (y * y)) by (nonlinear_arith);
}

/// Squaring keeps the strict order of non-negative integers.
proof fn lemma_square_lt(x: int, y: int)
    requires
        0 <= x < y,
    ensures
        x * x < y * y,
{
    assert(x * x < y * y) by (nonlinear_arith)
        requires
            0 <= x < y,
    ;
}

/// The magnitude of a truncated quotient is the floor of the quotient of
/// the magnitudes.
proof fn lemma_quotient_magnitude(v: int, s: int, l: int) -> (p: int)
    requires
        s > 0,
        l > 0,
    ensures
        p == (if v >= 0 { v } else { -v }) * s / l,
        0 <= p,
        p * l <= (if v >= 0 { v } else { -v }) * s < (p + 1) * l,
        quotient(v * s, l) == if v >= 0 { p } else { -p },
{
    let a = if v >= 0 { v } else { -v };
    let n = a * s;
    assert(n >= 0) by (nonlinear_arith)
        requires
            n == a * s,
            a >= 0,
            s > 0,
    ;
    let p = n / l;
    assert(0 <= p && p * l <= n < (p + 1) * l) by (nonlinear_arith)
        requires
            p == n / l,
            n >= 0,
            l > 0,
    ;
    if v >= 0 {
        assert(v * s == n);
    } else {
        assert(v * s == -n) by (nonlinear_arith)
            requires
                n == a * s,
                a == -v,
        ;
        if n == 0 {
            assert(p == 0);
        }
    }
    p
}

/// The arithmetic behind the length of a normalised vector: the floors
/// `p` and `q` of `a * s / l` and `b * s / l`, for `l` the floor of the
/// length of `(a, b)`, make a vector whose length is close to `s`.
proof fn lemma_unit_bounds(a: int, b: int, l: int, p: int, q: int, s: int)
    requires
        0 <= a,
        0 <= b,
        0 <= p,
        0 <= q,
        2 <= s <= 100 * l,
        l * l <= a * a + b * b < (l + 1) * (l + 1),
        p * l <= a * s < (p + 1) * l,
        q * l <= b * s < (q + 1) * l,
    ensures
        (s - 2) * (s - 2) <= p * p + q * q <= (s + 100) * (s + 100),
{
    let n = a * a + b * b;
    let r = p * p + q * q;
    assert(0 <= p * l && 0 <= q * l && 0 <= a * s && 0 <= b * s) by (nonlinear_arith)
        requires
            0 <= a,
            0 <= b,
            0 <= p,
            0 <= q,
            0 < l,
            0 < s,
    ;
    let ll = l * l;
    let ss = s * s;
    assert(ll > 0 && ss > 0) by (nonlinear_arith)
        requires
            ll == l * l,
            ss == s * s,
            l > 0,
            s > 0,
    ;
    lemma_square_of_product(p, l);
    lemma_square_of_product(q, l);
    lemma_square_of_product(a, s);
    lemma_square_of_product(b, s);
    lemma_square_of_product(p + 1, l);
    lemma_square_of_product(q + 1, l);
    lemma_square_of_product(l + 1, s);
    lemma_square_of_product(l, s + 100);
    // Above.
    lemma_square_le(p * l, a * s);
    lemma_square_le(q * l, b * s);
    assert(r * ll == (p * p) * ll + (q * q) * ll) by (nonlinear_arith)
        requires
            r == p * p + q * q,
    ;
    assert(n * ss == (a * a) * ss + (b * b) * ss) by (nonlinear_arith)
        requires
            n == a * a + b * b,
    ;
    assert(r * ll <= n * ss);
    let up = (l + 1) * (l + 1);
    assert(n * ss < up * ss) by (nonlinear_arith)
        requires
            n < up,
            ss > 0,
    ;
    assert(0 <= (l + 1) * s <= l * (s + 100)) by (nonlinear_arith)
        requires
            0 < s <= 100 * l,
            0 < l,
    ;
    lemma_square_le((l + 1) * s, l * (s + 100));
    let cap = (s + 100) * (s + 100);
    assert(r * ll < ll * cap);
    assert(r < cap) by (nonlinear_arith)
        requires
            r * ll < ll * cap,
            ll > 0,
    ;
    // Below.
    lemma_square_lt(a * s, (p + 1) * l);
    lemma_square_lt(b * s, (q + 1) * l);
    let t = (p + 1) * (p + 1) + (q + 1) * (q + 1);
    assert(t * ll == ((p + 1) * (p + 1)) * ll + ((q + 1) * (q + 1)) * ll) by (nonlinear_arith)
        requires
            t == (p + 1) * (p + 1) + (q + 1) * (q + 1),
    ;
    assert(n * ss < t * ll);
    assert(ll * ss <= n * ss) by (nonlinear_arith)
        requires
            ll <= n,
            ss > 0,
    ;
    assert(ss < t) by (nonlinear_arith)
        requires
            ll * ss < t * ll,
            ll > 0,
    ;
    if r < (s - 2) * (s - 2) {
        let w = p + q;
        assert(w * w <= 2 * r) by (nonlinear_arith)
            requires
                w == p + q,
                r == p * p + q * q,
        ;
        if 2 * w > 3 * (s - 2) {
            lemma_square_lt(3 * (s - 2), 2 * w);
            assert(false) by (nonlinear_arith)
                requires
                    (3 * (s - 2)) * (3 * (s - 2)) < (2 * w) * (2 * w),
                    w * w <= 2 * r,
                    r < (s - 2) * (s - 2),
            ;
        }
        assert(t == r + 2 * w + 2) by (nonlinear_arith)
            requires
                t == (p + 1) * (p + 1) + (q + 1) * (q + 1),
                r == p * p + q * q,
                w == p + q,
        ;
        assert((s - 2) * (s - 2) + 3 * (s - 2) + 2 == s * s - s) by (nonlinear_arith);
        assert(false);
    }
}

/// A vector that is not degenerate normalises to a unit vector.
pub proof fn lemma_normalize_is_unit(v: Vec2)
    requires
        !v.spec_is_degenerate(),
    ensures
        v.spec_normalize().is_unit(),
{
    lemma_square_fits(v.x);
    lemma_square_fits(v.y);
    let n = v.norm_squared();
    let root = isqrt(n as u128);
    let l = root as int;
    assert(is_floor_sqrt(l, n)) by {
        lemma_isqrt_is_floor(n as u128);
    }
    if l < 10_000 {
        lemma_square_le(l + 1, 10_000);
        assert(false);
    }
    let s = ONE as int;
    let a: int = if v.x >= 0 { v.x as int } else { -v.x };
    let b: int = if v.y >= 0 { v.y as int } else { -v.y };
    let p = lemma_quotient_magnitude(v.x as int, s, l);
    let q = lemma_quotient_magnitude(v.y as int, s, l);
    assert(a * a == v.x * v.x && b * b == v.y * v.y) by (nonlinear_arith)
        requires
            a == v.x || a == -v.x,
            b == v.y || b == -v.y,
    ;
    lemma_unit_bounds(a, b, l, p, q, s);
    assert(p <= s + 100 && q <= s + 100) by {
        assert(p * p >= 0 && q * q >= 0) by (nonlinear_arith);
        if p > s + 100 {
            lemma_square_lt(s + 100, p);
        }
        if q > s + 100 {
            lemma_square_lt(s + 100, q);
        }
    }
    let u = v.spec_normalize();
    assert(u.x == (if v.x >= 0 { p } else { -p }));
    assert(u.y == (if v.y >= 0 { q } else { -q }));
    assert(u.x * u.x == p * p && u.y * u.y == q * q) by (nonlinear_arith)
        requires
            u.x == p || u.x == -p,
            u.y == q || u.y == -q,
    ;
}

} // verus!
