//! Fixed-point planar geometry.
//!
//! Coordinates, lengths and velocities are milli-units: one thousandth of a
//! world unit. Scaling is done with truncating integer division (toward
//! zero), written here through `spec_tdiv` so that contracts state the exact
//! value every operation returns.

use vstd::prelude::*;

verus! {

/// Truncating division for a nonnegative divisor: rounds toward zero, as
/// machine division of signed integers does.
pub open spec fn spec_tdiv(a: int, b: int) -> int
    recommends
        b > 0,
{
    if a >= 0 {
        a / b
    } else {
        -((-a) / b)
    }
}

/// `a` clamped into `[lo, hi]`.
pub open spec fn spec_clamp(a: int, lo: int, hi: int) -> int
    recommends
        lo <= hi,
{
    if a < lo {
        lo
    } else if a > hi {
        hi
    } else {
        a
    }
}

/// A position, velocity or impulse in milli-units.
#[derive(Clone, Copy, PartialEq, Eq, Structural, Debug)]
pub struct Vec2 {
    pub x: i64,
    pub y: i64,
}

impl Vec2 {
    /// Both coordinates within `[-bound, bound]`.
    pub open spec fn bounded(self, bound: int) -> bool {
        -bound <= self.x <= bound && -bound <= self.y <= bound
    }

    pub open spec fn is_zero(self) -> bool {
        self.x == 0 && self.y == 0
    }

    pub fn zero() -> (r: Vec2)
        ensures
            r.x == 0,
            r.y == 0,
    {
        Vec2 { x: 0, y: 0 }
    }

    pub fn new(x: i64, y: i64) -> (r: Vec2)
        ensures
            r.x == x,
            r.y == y,
    {
        Vec2 { x, y }
    }

    /// Squared Euclidean length, exactly.
    pub fn length_squared(&self) -> (r: u64)
        requires
            self.bounded(100_000_000),
        ensures
            r == self.x * self.x + self.y * self.y,
    {
        proof {
            lemma_square_bound(self.x as int, 100_000_000);
            lemma_square_bound(self.y as int, 100_000_000);
        }
        let xx: u64 = (self.x * self.x) as u64;
        let yy: u64 = (self.y * self.y) as u64;
        xx + yy
    }

    pub fn add(self, other: Vec2) -> (r: Vec2)
        requires
            self.x + other.x <= i64::MAX,
            self.x + other.x >= i64::MIN,
            self.y + other.y <= i64::MAX,
            self.y + other.y >= i64::MIN,
        ensures
            r.x == self.x + other.x,
            r.y == self.y + other.y,
            r == spec_add_vec(self, other),
    {
        Vec2 { x: self.x + other.x, y: self.y + other.y }
    }

    pub fn sub(self, other: Vec2) -> (r: Vec2)
        requires
            self.x - other.x <= i64::MAX,
            self.x - other.x >= i64::MIN,
            self.y - other.y <= i64::MAX,
            self.y - other.y >= i64::MIN,
        ensures
            r.x == self.x - other.x,
            r.y == self.y - other.y,
    {
        Vec2 { x: self.x - other.x, y: self.y - other.y }
    }

    /// Squared distance between two points, exactly.
    pub fn distance_squared(&self, other: &Vec2) -> (r: u64)
        requires
            self.bounded(50_000_000),
            other.bounded(50_000_000),
        ensures
            r == (self.x - other.x) * (self.x - other.x)
                + (self.y - other.y) * (self.y - other.y),
            r == spec_dist_sq(*self, *other),
    {
        let d = self.sub(*other);
        assert(d.bounded(100_000_000));
        d.length_squared()
    }

    /// Both coordinates clamped into the square `[-half, half]`.
    pub fn clamp_to_bounds(self, half: i64) -> (r: Vec2)
        requires
            half >= 0,
        ensures
            r.x == spec_clamp(self.x as int, -half as int, half as int),
            r.y == spec_clamp(self.y as int, -half as int, half as int),
            r == spec_clamp_vec(self, half),
            r.bounded(half as int),
    {
        Vec2 { x: clamp_i64(self.x, -half, half), y: clamp_i64(self.y, -half, half) }
    }

    /// Multiplies by `num / den`, truncating toward zero, coordinate-wise.
    pub fn scale_div(self, num: i64, den: i64) -> (r: Vec2)
        requires
            num >= 0,
            den > 0,
            self.bounded(1_000_000_000),
            num <= 8_000_000_000,
        ensures
            r.x == spec_tdiv(self.x * num, den as int),
            r.y == spec_tdiv(self.y * num, den as int),
            r == spec_scale_vec(self, num, den),
            num <= den ==> (
                (self.x >= 0 ==> 0 <= r.x <= self.x) && (self.x < 0 ==> self.x <= r.x <= 0)
                && (self.y >= 0 ==> 0 <= r.y <= self.y) && (self.y < 0 ==> self.y <= r.y
                    <= 0)
            ),
    {
        proof {
            if num <= den {
                lemma_scale_shrinks(self.x as int, num as int, den as int);
                lemma_scale_shrinks(self.y as int, num as int, den as int);
            }
        }
        Vec2 { x: mul_div(self.x, num, den), y: mul_div(self.y, num, den) }
    }

    /// Euclidean length, rounded down to the nearest milli-unit.
    pub fn length(&self) -> (r: u64)
        requires
            self.bounded(100_000_000),
        ensures
            r * r <= self.x * self.x + self.y * self.y,
            self.x * self.x + self.y * self.y < (r + 1) * (r + 1),
            r <= 150_000_000,
            r == spec_len(*self),
    {
        let sq = self.length_squared();
        let r = isqrt(sq);
        proof {
            lemma_square_bound(self.x as int, 100_000_000);
            lemma_square_bound(self.y as int, 100_000_000);
            assert((150_000_001) * (150_000_001) > sq) by (nonlinear_arith)
                requires
                    sq <= 2 * 100_000_000 * 100_000_000,
            ;
            lemma_isqrt_unique_bound(r as int, sq as int, 150_000_000);
        }
        r
    }

    /// Rescales the vector to length `target` (in milli-units), rounding each
    /// coordinate toward zero; the zero vector stays zero. The result never
    /// exceeds `target` in either coordinate.
    pub fn normalize_to(self, target: i64) -> (r: Vec2)
        requires
            0 <= target <= 8_000_000_000,
            self.bounded(100_000_000),
        ensures
            self.is_zero() ==> r.is_zero(),
            !self.is_zero() ==> {
                let len = spec_len(self);
                r.x == spec_tdiv(self.x * target, len) && r.y == spec_tdiv(
                    self.y * target,
                    len,
                )
            },
            r == spec_normalize_to(self, target),
            r.bounded(target as int),
    {
        let len = self.length();
        if len == 0 {
            proof {
                lemma_square_bound(self.x as int, 100_000_000);
                lemma_square_bound(self.y as int, 100_000_000);
                assert(self.x * self.x >= 0 && self.y * self.y >= 0);
                if !self.is_zero() {
                    assert(self.x * self.x + self.y * self.y >= 1) by (nonlinear_arith)
                        requires
                            !(self.x == 0 && self.y == 0),
                    ;
                    assert((len + 1) * (len + 1) == 1) by (nonlinear_arith)
                        requires
                            len == 0,
                    ;
                    assert(false);
                }
            }
            return Vec2 { x: 0, y: 0 };
        }
        proof {
            lemma_len_dominates(self);
            if self.is_zero() {
                assert(self.x * self.x + self.y * self.y == 0) by (nonlinear_arith)
                    requires
                        self.x == 0,
                        self.y == 0,
                ;
                assert(len == 0) by (nonlinear_arith)
                    requires
                        len * len <= 0,
                ;
            }
        }
        let r = Vec2 {
            x: mul_div(self.x, target, len as i64),
            y: mul_div(self.y, target, len as i64),
        };
        proof {
            lemma_scaled_coordinate_bounded(self.x as int, target as int, len as int);
            lemma_scaled_coordinate_bounded(self.y as int, target as int, len as int);
        }
        r
    }
}

/// What `clamp_length` returns: the vector itself while its length is
/// within `max_len`, else the vector rescaled to `max_len`.
pub open spec fn spec_clamp_length(v: Vec2, max_len: i64) -> Vec2 {
    if v.x * v.x + v.y * v.y <= max_len * max_len {
        v
    } else {
        spec_normalize_to(v, max_len)
    }
}

/// The rounded-down length of a vector, defined through the integer square
/// root of the squared length.
pub open spec fn spec_len(v: Vec2) -> int {
    spec_isqrt((v.x * v.x + v.y * v.y) as nat) as int
}

/// What `normalize_to` returns: the vector rescaled to `target`, rounding
/// toward zero, with the zero vector fixed.
pub open spec fn spec_normalize_to(v: Vec2, target: i64) -> Vec2 {
    if v.is_zero() {
        Vec2 { x: 0, y: 0 }
    } else {
        Vec2 {
            x: spec_tdiv(v.x * target, spec_len(v)) as i64,
            y: spec_tdiv(v.y * target, spec_len(v)) as i64,
        }
    }
}

/// What `lerp_milli` returns.
pub open spec fn spec_lerp(a: i64, b: i64, k: i64) -> i64 {
    (a + spec_tdiv((b - a) * k, 1000)) as i64
}

/// Coordinate-wise interpolation, as `lerp_vec` computes it.
pub open spec fn spec_lerp_vec(a: Vec2, b: Vec2, k: i64) -> Vec2 {
    Vec2 { x: spec_lerp(a.x, b.x, k), y: spec_lerp(a.y, b.y, k) }
}

/// What `Vec2::scale_div` returns.
pub open spec fn spec_scale_vec(v: Vec2, num: i64, den: i64) -> Vec2 {
    Vec2 {
        x: spec_tdiv(v.x * num, den as int) as i64,
        y: spec_tdiv(v.y * num, den as int) as i64,
    }
}

/// Coordinate-wise clamp into the square `[-half, half]`.
pub open spec fn spec_clamp_vec(v: Vec2, half: i64) -> Vec2 {
    Vec2 {
        x: spec_clamp(v.x as int, -half as int, half as int) as i64,
        y: spec_clamp(v.y as int, -half as int, half as int) as i64,
    }
}

/// Coordinate-wise sum.
pub open spec fn spec_add_vec(a: Vec2, b: Vec2) -> Vec2 {
    Vec2 { x: (a.x + b.x) as i64, y: (a.y + b.y) as i64 }
}

/// The coordinate-wise difference of two vectors.
pub open spec fn spec_sub_vec(a: Vec2, b: Vec2) -> Vec2 {
    Vec2 { x: (a.x - b.x) as i64, y: (a.y - b.y) as i64 }
}

/// Squared distance between two points.
pub open spec fn spec_dist_sq(a: Vec2, b: Vec2) -> int {
    (a.x - b.x) * (a.x - b.x) + (a.y - b.y) * (a.y - b.y)
}

/// The integer square root: the largest `r` with `r * r <= n`.
pub open spec fn spec_isqrt(n: nat) -> nat {
    choose|r: nat| #[trigger] (r * r) <= n < (r + 1) * (r + 1)
}

/// The integer square root exists and is what `choose` picks.
pub proof fn lemma_isqrt_exists(n: nat)
    ensures
        spec_isqrt(n) * spec_isqrt(n) <= n,
        n < (spec_isqrt(n) + 1) * (spec_isqrt(n) + 1),
    decreases n,
{
    if n == 0 {
        assert(0 * 0 <= 0 < (0 + 1) * (0 + 1)) by (nonlinear_arith);
        assert(exists|r: nat| #[trigger] (r * r) <= n < (r + 1) * (r + 1)) by {
            assert(0 * (0 as nat) <= n < (0 + 1) * ((0 + 1) as nat));
        }
    } else {
        lemma_isqrt_exists((n - 1) as nat);
        let p = spec_isqrt((n - 1) as nat);
        if (p + 1) * (p + 1) <= n {
            assert(n - 1 < (p + 1) * (p + 1));
            assert(n < (p + 1 + 1) * (p + 1 + 1)) by (nonlinear_arith)
                requires
                    n <= (p + 1) * (p + 1),
            ;
            assert(exists|r: nat| #[trigger] (r * r) <= n < (r + 1) * (r + 1)) by {
                assert((p + 1) * (p + 1) <= n < (p + 1 + 1) * (p + 1 + 1));
            }
        } else {
            assert(exists|r: nat| #[trigger] (r * r) <= n < (r + 1) * (r + 1)) by {
                assert(p * p <= n < (p + 1) * (p + 1));
            }
        }
    }
}

/// Any `r` in the square-root window equals `spec_isqrt`, and inherits an
/// upper bound from one on `n`.
pub proof fn lemma_isqrt_unique_bound(r: int, n: int, cap: int)
    requires
        0 <= r,
        0 <= n,
        r * r <= n,
        n < (r + 1) * (r + 1),
        n < (cap + 1) * (cap + 1),
        0 <= cap,
    ensures
        r == spec_isqrt(n as nat),
        r <= cap,
{
    lemma_isqrt_exists(n as nat);
    let s = spec_isqrt(n as nat);
    if r < s {
        assert((r + 1) * (r + 1) <= s * s) by (nonlinear_arith)
            requires
                0 <= r,
                r + 1 <= s,
        ;
    }
    if s < r {
        assert((s + 1) * (s + 1) <= r * r) by (nonlinear_arith)
            requires
                0 <= s,
                s + 1 <= r,
        ;
    }
    if r > cap {
        assert((cap + 1) * (cap + 1) <= r * r) by (nonlinear_arith)
            requires
                0 <= cap,
                cap + 1 <= r,
        ;
    }
}

/// A coordinate never exceeds the vector's rounded-down length.
pub proof fn lemma_len_dominates(v: Vec2)
    ensures
        spec_len(v) >= 0,
        -spec_len(v) <= v.x <= spec_len(v) || spec_len(v) == 0,
        -spec_len(v) <= v.y <= spec_len(v) || spec_len(v) == 0,
{
    let n = (v.x * v.x + v.y * v.y) as nat;
    assert(v.x * v.x >= 0 && v.y * v.y >= 0) by (nonlinear_arith);
    lemma_isqrt_exists(n);
    let l = spec_isqrt(n) as int;
    if v.x > l || v.x < -l {
        assert((l + 1) * (l + 1) <= v.x * v.x) by (nonlinear_arith)
            requires
                0 <= l,
                v.x > l || v.x < -l,
        ;
    }
    if v.y > l || v.y < -l {
        assert((l + 1) * (l + 1) <= v.y * v.y) by (nonlinear_arith)
            requires
                0 <= l,
                v.y > l || v.y < -l,
        ;
    }
}

/// Scaling a coordinate by `target / len` keeps it within `target` when the
/// coordinate is within `len`.
pub proof fn lemma_scaled_coordinate_bounded(a: int, target: int, len: int)
    requires
        len > 0,
        target >= 0,
        -len <= a <= len,
    ensures
        -target <= spec_tdiv(a * target, len) <= target,
{
    assert(len * target == target * len) by (nonlinear_arith);
    if a >= 0 {
        assert(a * target <= len * target) by (nonlinear_arith)
            requires
                0 <= a <= len,
                target >= 0,
        ;
        assert(a * target >= 0) by (nonlinear_arith)
            requires
                a >= 0,
                target >= 0,
        ;
        vstd::arithmetic::div_mod::lemma_div_is_ordered(a * target, len * target, len);
        vstd::arithmetic::div_mod::lemma_div_by_multiple(target, len);
        vstd::arithmetic::div_mod::lemma_div_is_ordered(0, a * target, len);
    } else {
        let m = -a;
        assert(m * target <= len * target) by (nonlinear_arith)
            requires
                0 <= m <= len,
                target >= 0,
        ;
        assert(m * target >= 0) by (nonlinear_arith)
            requires
                m >= 0,
                target >= 0,
        ;
        vstd::arithmetic::div_mod::lemma_div_is_ordered(m * target, len * target, len);
        vstd::arithmetic::div_mod::lemma_div_by_multiple(target, len);
        vstd::arithmetic::div_mod::lemma_div_is_ordered(0, m * target, len);
        assert(m * target == -(a * target)) by (nonlinear_arith)
            requires
                m == -a,
        ;
        assert(a * target <= 0) by (nonlinear_arith)
            requires
                a <= 0,
                target >= 0,
        ;
        if a * target >= 0 {
            assert(a * target == 0);
            vstd::arithmetic::div_mod::lemma_div_basics(len);
        } else {
            assert(spec_tdiv(a * target, len) == -((m * target) / len));
        }
    }
}

/// A bound on the input carries through scaling by `num / den`.
pub proof fn lemma_scale_bound_general(a: int, num: int, den: int, bound: int)
    requires
        den > 0,
        num >= 0,
        bound >= 0,
        -bound <= a <= bound,
    ensures
        -(bound * num / den) <= spec_tdiv(a * num, den) <= bound * num / den,
{
    assert(bound * num >= 0) by (nonlinear_arith)
        requires
            bound >= 0,
            num >= 0,
    ;
    vstd::arithmetic::div_mod::lemma_div_is_ordered(0, bound * num, den);
    if a >= 0 {
        assert(0 <= a * num <= bound * num) by (nonlinear_arith)
            requires
                0 <= a <= bound,
                num >= 0,
        ;
        vstd::arithmetic::div_mod::lemma_div_is_ordered(0, a * num, den);
        vstd::arithmetic::div_mod::lemma_div_is_ordered(a * num, bound * num, den);
    } else {
        let m = -a;
        assert(0 <= m * num <= bound * num) by (nonlinear_arith)
            requires
                0 <= m <= bound,
                num >= 0,
        ;
        assert(m * num == -(a * num)) by (nonlinear_arith)
            requires
                m == -a,
        ;
        vstd::arithmetic::div_mod::lemma_div_is_ordered(0, m * num, den);
        vstd::arithmetic::div_mod::lemma_div_is_ordered(m * num, bound * num, den);
        if a * num >= 0 {
            assert(a * num == 0);
            vstd::arithmetic::div_mod::lemma_div_basics(den);
        }
    }
}

/// Scaling by `num / den` with `num <= den` moves a value toward zero.
pub proof fn lemma_scale_shrinks(a: int, num: int, den: int)
    requires
        den > 0,
        0 <= num <= den,
    ensures
        a >= 0 ==> 0 <= spec_tdiv(a * num, den) <= a,
        a < 0 ==> a <= spec_tdiv(a * num, den) <= 0,
{
    if a >= 0 {
        assert(0 <= a * num <= a * den) by (nonlinear_arith)
            requires
                a >= 0,
                0 <= num <= den,
        ;
        vstd::arithmetic::div_mod::lemma_div_is_ordered(0, a * num, den);
        vstd::arithmetic::div_mod::lemma_div_is_ordered(a * num, a * den, den);
        vstd::arithmetic::div_mod::lemma_div_by_multiple(a, den);
        assert(a * den == den * a) by (nonlinear_arith);
    } else {
        let m = -a;
        assert(0 <= m * num <= m * den) by (nonlinear_arith)
            requires
                m >= 0,
                0 <= num <= den,
        ;
        assert(m * num == -(a * num)) by (nonlinear_arith)
            requires
                m == -a,
        ;
        vstd::arithmetic::div_mod::lemma_div_is_ordered(0, m * num, den);
        vstd::arithmetic::div_mod::lemma_div_is_ordered(m * num, m * den, den);
        vstd::arithmetic::div_mod::lemma_div_by_multiple(m, den);
        assert(m * den == den * m) by (nonlinear_arith);
        if a * num >= 0 {
            assert(a * num == 0);
            vstd::arithmetic::div_mod::lemma_div_basics(den);
        }
    }
}

/// The square of a bounded value is bounded by the square of the bound.
pub proof fn lemma_square_bound(a: int, bound: int)
    requires
        -bound <= a <= bound,
        bound >= 0,
    ensures
        0 <= a * a <= bound * bound,
{
    assert(0 <= a * a <= bound * bound) by (nonlinear_arith)
        requires
            -bound <= a <= bound,
            bound >= 0,
    ;
}

/// `v` clamped into `[lo, hi]`.
pub fn clamp_i64(v: i64, lo: i64, hi: i64) -> (r: i64)
    requires
        lo <= hi,
    ensures
        r == spec_clamp(v as int, lo as int, hi as int),
{
    if v < lo {
        lo
    } else if v > hi {
        hi
    } else {
        v
    }
}

/// `(a * num) / den` with truncation toward zero, as the contracts state it
/// through `spec_tdiv`.
pub fn mul_div(a: i64, num: i64, den: i64) -> (r: i64)
    requires
        num >= 0,
        den > 0,
        a >= -1_000_000_000,
        a <= 1_000_000_000,
        num <= 8_000_000_000,
    ensures
        r == spec_tdiv(a * num, den as int),
{
    if a >= 0 {
        proof {
            assert(a * num <= 1_000_000_000 * 8_000_000_000) by (nonlinear_arith)
                requires
                    0 <= a <= 1_000_000_000,
                    0 <= num <= 8_000_000_000,
            ;
            assert(a * num >= 0) by (nonlinear_arith)
                requires
                    a >= 0,
                    num >= 0,
            ;
            vstd::arithmetic::div_mod::lemma_div_is_ordered(0, a * num, den as int);
            vstd::arithmetic::div_mod::lemma_div_is_ordered(
                a * num,
                1_000_000_000int * 8_000_000_000int,
                den as int,
            );
        }
        (a * num) / den
    } else {
        let m = -a;
        proof {
            assert(m * num <= 1_000_000_000 * 8_000_000_000) by (nonlinear_arith)
                requires
                    0 <= m <= 1_000_000_000,
                    0 <= num <= 8_000_000_000,
            ;
            assert(m * num >= 0) by (nonlinear_arith)
                requires
                    m >= 0,
                    num >= 0,
            ;
            vstd::arithmetic::div_mod::lemma_div_is_ordered(0, m * num, den as int);
            vstd::arithmetic::div_mod::lemma_div_is_ordered(
                m * num,
                1_000_000_000int * 8_000_000_000int,
                den as int,
            );
            assert(a * num == -(m * num)) by (nonlinear_arith)
                requires
                    m == -a,
            ;
        }
        -((m * num) / den)
    }
}

/// Linear interpolation from `a` toward `b` by `k` thousandths, truncating
/// toward zero; `k == 0` keeps `a`, `k == 1000` lands within a milli-unit
/// of `b`. Stays within any bound that holds for both ends.
pub fn lerp_milli(a: i64, b: i64, k: i64) -> (r: i64)
    requires
        0 <= k <= 1000,
        -100_000_000 <= a <= 100_000_000,
        -100_000_000 <= b <= 100_000_000,
    ensures
        r == a + spec_tdiv((b - a) * k, 1000),
        r == spec_lerp(a, b, k),
        a <= b ==> a <= r <= b,
        b <= a ==> b <= r <= a,
{
    let diff: i64 = b - a;
    let step: i64 = mul_div(diff, k, 1000);
    proof {
        if diff >= 0 {
            assert(diff * k <= diff * 1000) by (nonlinear_arith)
                requires
                    diff >= 0,
                    k <= 1000,
            ;
            assert(diff * k >= 0) by (nonlinear_arith)
                requires
                    diff >= 0,
                    k >= 0,
            ;
            vstd::arithmetic::div_mod::lemma_div_is_ordered(diff * k, diff * 1000, 1000);
            vstd::arithmetic::div_mod::lemma_div_by_multiple(diff as int, 1000);
            vstd::arithmetic::div_mod::lemma_div_is_ordered(0, diff * k, 1000);
        } else {
            let m = -diff;
            assert(m * k == -(diff * k)) by (nonlinear_arith)
                requires
                    m == -diff,
            ;
            assert(m * k <= m * 1000) by (nonlinear_arith)
                requires
                    m >= 0,
                    k <= 1000,
            ;
            assert(m * k >= 0) by (nonlinear_arith)
                requires
                    m >= 0,
                    k >= 0,
            ;
            vstd::arithmetic::div_mod::lemma_div_is_ordered(m * k, m * 1000, 1000);
            vstd::arithmetic::div_mod::lemma_div_by_multiple(m as int, 1000);
            vstd::arithmetic::div_mod::lemma_div_is_ordered(0, m * k, 1000);
        }
    }
    a + step
}

impl Vec2 {
    /// Caps the vector's length at `max_len` milli-units: a vector within
    /// the cap passes through unchanged, a longer one is rescaled to the
    /// cap. Either way no coordinate exceeds the cap.
    pub fn clamp_length(self, max_len: i64) -> (r: Vec2)
        requires
            0 <= max_len <= 8_000_000,
            self.bounded(100_000_000),
        ensures
            r == spec_clamp_length(self, max_len),
            r.bounded(max_len as int),
    {
        let len_sq = self.length_squared();
        proof {
            assert(0 <= max_len * max_len <= 8_000_000 * 8_000_000int)
                by (nonlinear_arith)
                requires
                    0 <= max_len <= 8_000_000,
            ;
        }
        if len_sq <= (max_len * max_len) as u64 {
            proof {
                lemma_square_bound(self.x as int, 100_000_000);
                lemma_square_bound(self.y as int, 100_000_000);
                assert(-max_len <= self.x <= max_len) by (nonlinear_arith)
                    requires
                        self.x * self.x <= max_len * max_len,
                        max_len >= 0,
                ;
                assert(-max_len <= self.y <= max_len) by (nonlinear_arith)
                    requires
                        self.y * self.y <= max_len * max_len,
                        max_len >= 0,
                ;
            }
            self
        } else {
            self.normalize_to(max_len)
        }
    }
}

/// Coordinate-wise interpolation from `a` toward `b` by `k` thousandths.
/// Each coordinate stays between its two ends.
pub fn lerp_vec(a: Vec2, b: Vec2, k: i64) -> (r: Vec2)
    requires
        0 <= k <= 1000,
        a.bounded(100_000_000),
        b.bounded(100_000_000),
    ensures
        r == spec_lerp_vec(a, b, k),
        a.x <= b.x ==> a.x <= r.x <= b.x,
        b.x <= a.x ==> b.x <= r.x <= a.x,
        a.y <= b.y ==> a.y <= r.y <= b.y,
        b.y <= a.y ==> b.y <= r.y <= a.y,
{
    Vec2 { x: lerp_milli(a.x, b.x, k), y: lerp_milli(a.y, b.y, k) }
}

/// The integer square root of `n`, by bisection.
pub fn isqrt(n: u64) -> (r: u64)
    ensures
        r * r <= n,
        n < (r + 1) * (r + 1),
{
    let mut lo: u64 = 0;
    let mut hi: u64 = 0x1_0000_0000;
    proof {
        assert((0x1_0000_0000 as int) * (0x1_0000_0000 as int) > u64::MAX as int);
    }
    while lo + 1 < hi
        invariant
            lo < hi,
            hi <= 0x1_0000_0000,
            lo * lo <= n,
            n < hi * hi,
        decreases hi - lo,
    {
        let mid: u64 = lo + (hi - lo) / 2;
        proof {
            assert(mid * mid <= 0xffff_ffff * 0xffff_ffff) by (nonlinear_arith)
                requires
                    mid <= 0xffff_ffff,
            ;
        }
        if mid * mid <= n {
            lo = mid;
        } else {
            hi = mid;
        }
    }
    lo
}

} // verus!
