//! Fixed-point plane vectors for movement input.
//!
//! Coordinates are integers in thousandths of a unit, so one unit of speed is
//! `UNIT == 1000`. Working in integers keeps normalization and clamping exact
//! and lets their arithmetic be verified.

use vstd::prelude::*;
use vstd::arithmetic::div_mod::{lemma_fundamental_div_mod, lemma_div_is_ordered, lemma_div_multiples_vanish, lemma_mod_bound};

verus! {

/// One unit of movement, in thousandths.
pub const UNIT: i32 = 1000;

/// Component length of a diagonal unit vector: the integer part of
/// `UNIT / sqrt(2)`.
pub const DIAG: i32 = 707;

/// A two-dimensional movement vector with fixed-point coordinates in
/// thousandths of a unit.
#[derive(Clone, Copy, Debug, PartialEq, Eq, Structural)]
pub struct Vec2Fixed {
    pub x: i32,
    pub y: i32,
}

impl Vec2Fixed {
    /// The zero vector.
    pub open spec fn spec_zero() -> Vec2Fixed {
        Vec2Fixed { x: 0, y: 0 }
    }

    pub fn zero() -> (r: Vec2Fixed)
        ensures
            r == Self::spec_zero(),
    {
        Vec2Fixed { x: 0, y: 0 }
    }

    /// The squared magnitude, as a mathematical integer.
    pub open spec fn spec_mag2(self) -> int {
        self.x * self.x + self.y * self.y
    }

    /// The squared magnitude. Fits in `u64` for any `i32` coordinates.
    pub fn mag2(&self) -> (r: u64)
        ensures
            r == self.spec_mag2(),
    {
        let x = self.x as i64;
        let y = self.y as i64;
        proof {
            assert(x * x <= 0x4000_0000_0000_0000 && x * x >= 0) by (nonlinear_arith)
                requires -0x8000_0000 <= x <= 0x7fff_ffff;
            assert(y * y <= 0x4000_0000_0000_0000 && y * y >= 0) by (nonlinear_arith)
                requires -0x8000_0000 <= y <= 0x7fff_ffff;
        }
        let xx = (x * x) as u64;
        let yy = (y * y) as u64;
        xx + yy
    }
}

/// The integer square root: the largest `r` with `r * r <= n`.
pub open spec fn spec_isqrt(n: nat) -> nat
    decreases n,
{
    if n == 0 {
        0
    } else {
        let r = spec_isqrt((n - 1) as nat);
        if (r + 1) * (r + 1) <= n {
            r + 1
        } else {
            r
        }
    }
}

/// `spec_isqrt(n)` is the integer square root of `n`.
pub proof fn lemma_isqrt_bounds(n: nat)
    ensures
        spec_isqrt(n) * spec_isqrt(n) <= n,
        n < (spec_isqrt(n) + 1) * (spec_isqrt(n) + 1),
    decreases n,
{
    if n == 0 {
        assert(spec_isqrt(n) == 0);
        assert((spec_isqrt(n) + 1) * (spec_isqrt(n) + 1) == 1) by (nonlinear_arith)
            requires spec_isqrt(n) == 0;
    } else {
        lemma_isqrt_bounds((n - 1) as nat);
        let r = spec_isqrt((n - 1) as nat);
        if (r + 1) * (r + 1) <= n {
            assert(spec_isqrt(n) == r + 1);
            assert(n < (r + 2) * (r + 2)) by (nonlinear_arith)
                requires n - 1 < (r + 1) * (r + 1) && r >= 0;
        } else {
            assert(spec_isqrt(n) == r);
        }
    }
}

/// The bounds `r * r <= n < (r + 1) * (r + 1)` pin the integer square root down.
pub proof fn lemma_isqrt_unique(n: nat, r: nat)
    requires
        r * r <= n,
        n < (r + 1) * (r + 1),
    ensures
        r == spec_isqrt(n),
{
    lemma_isqrt_bounds(n);
    let s = spec_isqrt(n);
    if r < s {
        assert((r + 1) * (r + 1) <= s * s) by (nonlinear_arith)
            requires r + 1 <= s && r >= 0;
    }
    if s < r {
        assert((s + 1) * (s + 1) <= r * r) by (nonlinear_arith)
            requires s + 1 <= r && s >= 0;
    }
}

/// The integer square root, by linear search from zero.
pub fn isqrt(n: u64) -> (r: u64)
    requires
        n <= 0xffff_ffff,
    ensures
        r == spec_isqrt(n as nat),
        r * r <= n < (r + 1) * (r + 1),
{
    let mut r: u64 = 0;
    while (r + 1) * (r + 1) <= n
        invariant
            n <= 0xffff_ffff,
            r * r <= n,
            r <= 0xffff,
            (r + 1) * (r + 1) <= 0x1_0000_0000,
        decreases n - r * r,
    {
        proof {
            assert((r + 1) * (r + 1) > r * r) by (nonlinear_arith)
                requires r >= 0;
            assert(r + 1 <= 0xffff) by (nonlinear_arith)
                requires (r + 1) * (r + 1) <= 0xffff_ffff && r >= 0;
            assert((r + 2) * (r + 2) <= 0x1_0000_0000) by (nonlinear_arith)
                requires r + 1 <= 0xffff;
        }
        r = r + 1;
    }
    proof {
        lemma_isqrt_unique(n as nat, r as nat);
    }
    r
}

/// The integer square root rounded upward: the least `m` with `n <= m * m`.
pub open spec fn spec_isqrt_up(n: nat) -> nat {
    let r = spec_isqrt(n);
    if r * r < n {
        r + 1
    } else {
        r
    }
}

/// The absolute value of `v`, as an unsigned integer.
pub open spec fn spec_abs(v: int) -> int {
    if v >= 0 {
        v
    } else {
        -v
    }
}

fn abs_i32(v: i32) -> (r: u64)
    ensures
        r == spec_abs(v as int),
{
    if v >= 0 {
        v as u64
    } else {
        (-(v as i64)) as u64
    }
}

/// `c * UNIT / m`, rounded toward zero.
pub open spec fn spec_scale_down(c: int, m: int) -> int {
    if c >= 0 {
        (c * (UNIT as int)) / m
    } else {
        -((-c * (UNIT as int)) / m)
    }
}

impl Vec2Fixed {
    /// The result of clamping to unit length: when the squared magnitude
    /// exceeds `UNIT * UNIT`, each coordinate is scaled down by the magnitude
    /// (rounded upward), otherwise the vector is unchanged.
    pub open spec fn spec_clamp(self) -> Vec2Fixed {
        if self.spec_mag2() <= UNIT * UNIT {
            self
        } else {
            let m = spec_isqrt_up(self.spec_mag2() as nat) as int;
            Vec2Fixed {
                x: spec_scale_down(self.x as int, m) as i32,
                y: spec_scale_down(self.y as int, m) as i32,
            }
        }
    }

    /// Clamp the vector to unit length. A vector whose magnitude is already
    /// at most one unit is returned unchanged, not renormalized.
    pub fn clamp_to_unit(&self) -> (r: Vec2Fixed)
        requires
            self.spec_mag2() <= 0xffff_ffff,
        ensures
            r == self.spec_clamp(),
            r.spec_mag2() <= UNIT * UNIT,
            self.spec_mag2() <= UNIT * UNIT ==> r == *self,
    {
        let s = self.mag2();
        if s <= 1_000_000 {
            return *self;
        }
        let m0 = isqrt(s);
        proof {
            assert(m0 * m0 <= 0xffff_ffff);
            assert(m0 <= 0xffff) by (nonlinear_arith)
                requires m0 * m0 <= 0xffff_ffff && m0 >= 0;
        }
        let m = if m0 * m0 < s {
            m0 + 1
        } else {
            m0
        };
        proof {
            assert(m == spec_isqrt_up(s as nat));
            assert(s <= m * m) by (nonlinear_arith)
                requires m0 * m0 < s ==> m == m0 + 1 && s <= (m0 + 1) * (m0 + 1),
                    m0 * m0 >= s ==> m == m0;
        }
        let ax = abs_i32(self.x);
        let ay = abs_i32(self.y);
        proof {
            lemma_abs_le_sqrt(self.x as int, self.y as int, m as int);
            lemma_abs_le_sqrt(self.y as int, self.x as int, m as int);
            assert(ax * 1000 <= m * 1000 && ay * 1000 <= m * 1000) by (nonlinear_arith)
                requires ax <= m && ay <= m && m >= 0;
            lemma_div_is_ordered((ax * 1000) as int, (m * 1000) as int, m as int);
            lemma_div_is_ordered((ay * 1000) as int, (m * 1000) as int, m as int);
            lemma_div_multiples_vanish(1000, m as int);
        }
        let qx = (ax * 1000) / m;
        let qy = (ay * 1000) / m;
        proof {
            lemma_fundamental_div_mod((ax * 1000) as int, m as int);
            lemma_fundamental_div_mod((ay * 1000) as int, m as int);
            lemma_mod_bound((ax * 1000) as int, m as int);
            lemma_mod_bound((ay * 1000) as int, m as int);
            assert(qx * m <= ax * 1000 && qy * m <= ay * 1000) by (nonlinear_arith)
                requires ax * 1000 == m * ((ax * 1000) as int / (m as int)) + (ax * 1000) as int % (m as int)
                    && ay * 1000 == m * ((ay * 1000) as int / (m as int)) + (ay * 1000) as int % (m as int)
                    && (ax * 1000) as int % (m as int) >= 0
                    && (ay * 1000) as int % (m as int) >= 0
                    && qx == (ax * 1000) as int / (m as int)
                    && qy == (ay * 1000) as int / (m as int);
            assert(ax * ax == self.x * self.x && ay * ay == self.y * self.y) by (nonlinear_arith)
                requires (ax == self.x || ax == -(self.x as int))
                    && (ay == self.y || ay == -(self.y as int));
            lemma_scaled_sum_bound(ax as int, ay as int, m as int, qx as int, qy as int);
        }
        let rx: i32 = if self.x >= 0 {
            qx as i32
        } else {
            -(qx as i32)
        };
        let ry: i32 = if self.y >= 0 {
            qy as i32
        } else {
            -(qy as i32)
        };
        let r = Vec2Fixed { x: rx, y: ry };
        proof {
            assert(r.spec_mag2() == qx * qx + qy * qy) by (nonlinear_arith)
                requires (r.x == qx || r.x == -qx) && (r.y == qy || r.y == -qy);
        }
        r
    }
}

impl Vec2Fixed {
    /// Whether the magnitude exceeds a threshold given in thousandths of a
    /// unit, decided on squared magnitudes.
    pub fn exceeds(&self, threshold: u32) -> (r: bool)
        ensures
            r == (self.spec_mag2() > threshold * threshold),
    {
        let t = threshold as u64;
        proof {
            assert(t * t <= 0xffff_fffe_0000_0001) by (nonlinear_arith)
                requires t <= 0xffff_ffff;
        }
        self.mag2() > t * t
    }
}

/// The movement vector for one reading of a scheme's four direction keys: the
/// signed sum of unit contributions per axis, normalized to unit length when
/// non-zero. A diagonal has both components at `DIAG`, the nearest fixed-point
/// value to a diagonal unit vector's coordinates.
pub open spec fn spec_keyboard_vec(up: bool, down: bool, left: bool, right: bool) -> Vec2Fixed {
    let dx = (if right { 1int } else { 0int }) - (if left { 1int } else { 0int });
    let dy = (if up { 1int } else { 0int }) - (if down { 1int } else { 0int });
    if dx == 0 && dy == 0 {
        Vec2Fixed::spec_zero()
    } else if dx == 0 {
        Vec2Fixed { x: 0, y: (dy * UNIT) as i32 }
    } else if dy == 0 {
        Vec2Fixed { x: (dx * UNIT) as i32, y: 0 }
    } else {
        Vec2Fixed { x: (dx * DIAG) as i32, y: (dy * DIAG) as i32 }
    }
}

/// Build the movement vector for one reading of a scheme's direction keys.
pub fn keyboard_vec(up: bool, down: bool, left: bool, right: bool) -> (r: Vec2Fixed)
    ensures
        r == spec_keyboard_vec(up, down, left, right),
{
    let dx: i32 = (if right { 1 } else { 0 }) - (if left { 1 } else { 0 });
    let dy: i32 = (if up { 1 } else { 0 }) - (if down { 1 } else { 0 });
    if dx == 0 && dy == 0 {
        Vec2Fixed { x: 0, y: 0 }
    } else if dx == 0 {
        Vec2Fixed { x: 0, y: dy * UNIT }
    } else if dy == 0 {
        Vec2Fixed { x: dx * UNIT, y: 0 }
    } else {
        Vec2Fixed { x: dx * DIAG, y: dy * DIAG }
    }
}

/// A keyboard movement vector is zero exactly when the pressed keys cancel
/// out, and is otherwise normalized: its squared magnitude is `UNIT * UNIT`
/// on an axis and `2 * DIAG * DIAG` on a diagonal, each within rounding of
/// one squared unit.
pub proof fn lemma_keyboard_vec_normalized(up: bool, down: bool, left: bool, right: bool)
    ensures
        (spec_keyboard_vec(up, down, left, right) == Vec2Fixed::spec_zero()) <==> (up == down
            && left == right),
        spec_keyboard_vec(up, down, left, right) != Vec2Fixed::spec_zero()
            ==> spec_keyboard_vec(up, down, left, right).spec_mag2() == UNIT * UNIT
            || spec_keyboard_vec(up, down, left, right).spec_mag2() == 2 * (DIAG * DIAG),
        spec_keyboard_vec(up, down, left, right) != Vec2Fixed::spec_zero() ==> UNIT * UNIT - 302
            <= spec_keyboard_vec(up, down, left, right).spec_mag2() <= UNIT * UNIT,
{
    let v = spec_keyboard_vec(up, down, left, right);
    let dx = (if right { 1int } else { 0int }) - (if left { 1int } else { 0int });
    let dy = (if up { 1int } else { 0int }) - (if down { 1int } else { 0int });
    if dx == 0 && dy == 0 {
        assert(v == Vec2Fixed::spec_zero());
    } else if dx == 0 {
        assert(v.spec_mag2() == UNIT * UNIT) by (nonlinear_arith)
            requires v.x == 0 && (v.y == 1000 || v.y == -1000);
        assert(v != Vec2Fixed::spec_zero());
    } else if dy == 0 {
        assert(v.spec_mag2() == UNIT * UNIT) by (nonlinear_arith)
            requires v.y == 0 && (v.x == 1000 || v.x == -1000);
        assert(v != Vec2Fixed::spec_zero());
    } else {
        assert(v.spec_mag2() == 2 * (DIAG * DIAG)) by (nonlinear_arith)
            requires (v.x == 707 || v.x == -707) && (v.y == 707 || v.y == -707);
        assert(v != Vec2Fixed::spec_zero());
        assert(2 * (DIAG * DIAG) == 999_698) by (nonlinear_arith);
    }
}

/// A coordinate's absolute value is at most any upper square root of the
/// squared magnitude.
proof fn lemma_abs_le_sqrt(x: int, y: int, m: int)
    requires
        x * x + y * y <= m * m,
        m >= 0,
    ensures
        spec_abs(x) <= m,
{
    assert(spec_abs(x) <= m) by (nonlinear_arith)
        requires x * x + y * y <= m * m && m >= 0;
}

/// Scaling both coordinates down by an upper square root of the squared
/// magnitude brings the squared magnitude within one squared unit.
proof fn lemma_scaled_sum_bound(ax: int, ay: int, m: int, qx: int, qy: int)
    requires
        m > 0,
        ax >= 0,
        ay >= 0,
        qx >= 0,
        qy >= 0,
        ax * ax + ay * ay <= m * m,
        qx * m <= ax * 1000,
        qy * m <= ay * 1000,
    ensures
        qx * qx + qy * qy <= 1_000_000,
{
    assert(qx * qx * (m * m) <= ax * ax * 1_000_000) by (nonlinear_arith)
        requires qx * m <= ax * 1000 && qx >= 0 && m > 0 && ax >= 0;
    assert(qy * qy * (m * m) <= ay * ay * 1_000_000) by (nonlinear_arith)
        requires qy * m <= ay * 1000 && qy >= 0 && m > 0 && ay >= 0;
    assert((qx * qx + qy * qy) * (m * m) <= (ax * ax + ay * ay) * 1_000_000) by (nonlinear_arith)
        requires qx * qx * (m * m) <= ax * ax * 1_000_000
            && qy * qy * (m * m) <= ay * ay * 1_000_000;
    assert((ax * ax + ay * ay) * 1_000_000 <= (m * m) * 1_000_000) by (nonlinear_arith)
        requires ax * ax + ay * ay <= m * m;
    assert(m * m > 0) by (nonlinear_arith)
        requires m > 0;
    assert(qx * qx + qy * qy <= 1_000_000) by (nonlinear_arith)
        requires (qx * qx + qy * qy) * (m * m) <= (m * m) * 1_000_000 && m * m > 0;
}

} // verus!
