//! Two-dimensional fixed-point vectors and small rotations.
use vstd::prelude::*;
use crate::fixed::{abs, div_trunc, isqrt, is_isqrt, lemma_tdiv_nonzero_bound, sqrt_floor, tdiv};

verus! {

/// Scale of the sine and cosine held by a [`Deflection`]: `TRIG_ONE` stands for 1.
pub const TRIG_ONE: i64 = 1_000_000;

/// Largest deflection angle, in micro-radians, that [`Deflection::from_angle`] accepts.
pub const MAX_DEFLECTION_ANGLE: i64 = 500_000;

/// A vector with integer components.
#[derive(Clone, Copy, Debug, PartialEq, Eq, Structural)]
pub struct Vec2 {
    pub x: i64,
    pub y: i64,
}

pub open spec fn fits_i64(a: int) -> bool {
    i64::MIN <= a <= i64::MAX
}

impl Vec2 {
    pub fn new(x: i64, y: i64) -> (r: Vec2)
        ensures
            r.x == x,
            r.y == y,
    {
        Vec2 { x, y }
    }

    /// Componentwise sum.
    pub fn add(self, rhs: Vec2) -> (r: Vec2)
        requires
            fits_i64(self.x + rhs.x),
            fits_i64(self.y + rhs.y),
        ensures
            r.x == self.x + rhs.x,
            r.y == self.y + rhs.y,
    {
        Vec2 { x: self.x + rhs.x, y: self.y + rhs.y }
    }

    /// Componentwise difference.
    pub fn sub(self, rhs: Vec2) -> (r: Vec2)
        requires
            fits_i64(self.x - rhs.x),
            fits_i64(self.y - rhs.y),
        ensures
            r.x == self.x - rhs.x,
            r.y == self.y - rhs.y,
    {
        Vec2 { x: self.x - rhs.x, y: self.y - rhs.y }
    }

    /// Componentwise product.
    pub fn mul(self, rhs: Vec2) -> (r: Vec2)
        requires
            fits_i64(self.x * rhs.x),
            fits_i64(self.y * rhs.y),
        ensures
            r.x == self.x * rhs.x,
            r.y == self.y * rhs.y,
    {
        Vec2 { x: self.x * rhs.x, y: self.y * rhs.y }
    }

    /// Product with a scalar.
    pub fn scale(self, k: i64) -> (r: Vec2)
        requires
            fits_i64(self.x * k),
            fits_i64(self.y * k),
        ensures
            r.x == self.x * k,
            r.y == self.y * k,
    {
        Vec2 { x: self.x * k, y: self.y * k }
    }

    /// Quotient by a non-zero scalar, each component rounded toward zero.
    pub fn div(self, k: i64) -> (r: Vec2)
        requires
            k != 0,
            k == -1 ==> self.x != i64::MIN && self.y != i64::MIN,
        ensures
            r.x == tdiv(self.x as int, k as int),
            r.y == tdiv(self.y as int, k as int),
    {
        proof {
            lemma_tdiv_nonzero_bound(self.x as int, k as int);
            lemma_tdiv_nonzero_bound(self.y as int, k as int);
            if k != -1 && k != 1 {
                assert(abs(self.x as int) / abs(k as int) <= abs(self.x as int) / 2) by (nonlinear_arith)
                    requires
                        abs(k as int) >= 2,
                        abs(self.x as int) >= 0,
                ;
                assert(abs(self.y as int) / abs(k as int) <= abs(self.y as int) / 2) by (nonlinear_arith)
                    requires
                        abs(k as int) >= 2,
                        abs(self.y as int) >= 0,
                ;
            }
        }
        let x = div_trunc(self.x as i128, k as i128);
        let y = div_trunc(self.y as i128, k as i128);
        Vec2 { x: x as i64, y: y as i64 }
    }

    pub fn add_assign(&mut self, rhs: Vec2)
        requires
            fits_i64(old(self).x + rhs.x),
            fits_i64(old(self).y + rhs.y),
        ensures
            final(self).x == old(self).x + rhs.x,
            final(self).y == old(self).y + rhs.y,
    {
        *self = self.add(rhs);
    }

    pub fn sub_assign(&mut self, rhs: Vec2)
        requires
            fits_i64(old(self).x - rhs.x),
            fits_i64(old(self).y - rhs.y),
        ensures
            final(self).x == old(self).x - rhs.x,
            final(self).y == old(self).y - rhs.y,
    {
        *self = self.sub(rhs);
    }

    pub fn mul_assign(&mut self, rhs: Vec2)
        requires
            fits_i64(old(self).x * rhs.x),
            fits_i64(old(self).y * rhs.y),
        ensures
            final(self).x == old(self).x * rhs.x,
            final(self).y == old(self).y * rhs.y,
    {
        *self = self.mul(rhs);
    }

    /// Rotates the vector by the angle whose cosine and sine `d` holds.
    pub fn rotate_degrees(&mut self, d: Deflection)
        requires
            d.wf(),
            abs(old(self).x as int) + abs(old(self).y as int) <= i64::MAX,
        ensures
            final(self).x == rotated_x(*old(self), d),
            final(self).y == rotated_y(*old(self), d),
            abs(final(self).x as int) <= abs(old(self).x as int) + abs(old(self).y as int),
            abs(final(self).y as int) <= abs(old(self).x as int) + abs(old(self).y as int),
    {
        let v = *self;
        proof {
            lemma_rotation_bound(v, d);
        }
        let x = div_trunc(
            (v.x as i128) * (d.cos as i128) - (v.y as i128) * (d.sin as i128),
            TRIG_ONE as i128,
        );
        let y = div_trunc(
            (v.x as i128) * (d.sin as i128) + (v.y as i128) * (d.cos as i128),
            TRIG_ONE as i128,
        );
        *self = Vec2 { x: x as i64, y: y as i64 };
    }
}

/// A rotation through a small angle, held as its cosine and sine scaled by `TRIG_ONE`.
#[derive(Clone, Copy, Debug, PartialEq, Eq, Structural)]
pub struct Deflection {
    pub cos: i64,
    pub sin: i64,
}

impl Deflection {
    /// A rotation: the sine lies in `[-TRIG_ONE, TRIG_ONE]` and the cosine is the
    /// non-negative integer square root of `TRIG_ONE^2 - sine^2`.
    pub open spec fn wf(self) -> bool {
        &&& -TRIG_ONE <= self.sin <= TRIG_ONE
        &&& 0 <= self.cos <= TRIG_ONE
        &&& is_isqrt(TRIG_ONE * TRIG_ONE - self.sin * self.sin, self.cos as int)
    }

    /// The rotation through `angle` micro-radians.
    pub fn from_angle(angle: i64) -> (r: Deflection)
        requires
            -MAX_DEFLECTION_ANGLE <= angle <= MAX_DEFLECTION_ANGLE,
        ensures
            r.wf(),
            r == deflection_of(angle as int),
    {
        let a: i64 = if angle < 0 {
            -angle
        } else {
            angle
        };
        proof {
            lemma_sine_terms(a as int);
        }
        let a2: i64 = a * a / TRIG_ONE;
        let a3: i64 = a2 * a / TRIG_ONE;
        let a5: i64 = a3 * a2 / TRIG_ONE;
        let s: i64 = a - a3 / 6 + a5 / 120;
        let sin: i64 = if angle < 0 {
            -s
        } else {
            s
        };
        assert(0 <= s * s <= 360_000_000_000) by (nonlinear_arith)
            requires
                0 <= s <= 600_000,
        ;
        let sq: i64 = s * s;
        assert(sin * sin == sq) by (nonlinear_arith)
            requires
                sin == s || sin == -s,
                sq == s * s,
        ;
        let rem: u64 = (1_000_000_000_000 - sq) as u64;
        let cos = isqrt(rem);
        proof {
            assert(cos <= 1_000_000) by (nonlinear_arith)
                requires
                    cos * cos <= rem,
                    rem <= 1_000_000_000_000,
                    cos >= 0,
            ;
        }
        Deflection { cos: cos as i64, sin }
    }
}

/// Truncated series `a - a^3/6 + a^5/120` for the sine of `a` micro-radians, `a >= 0`,
/// scaled by `TRIG_ONE`.
pub open spec fn sine_series(a: int) -> int {
    let a2 = a * a / TRIG_ONE as int;
    let a3 = a2 * a / TRIG_ONE as int;
    let a5 = a3 * a2 / TRIG_ONE as int;
    a - a3 / 6 + a5 / 120
}

/// Fixed-point sine of `angle` micro-radians; odd in `angle`.
pub open spec fn sine_of(angle: int) -> int {
    if angle < 0 {
        -sine_series(-angle)
    } else {
        sine_series(angle)
    }
}

/// The rotation through `angle` micro-radians: its sine is `sine_of(angle)` and its
/// cosine the non-negative integer square root of `TRIG_ONE^2 - sine^2`.
pub open spec fn deflection_of(angle: int) -> Deflection {
    let sin = sine_of(angle);
    Deflection { cos: sqrt_floor(TRIG_ONE * TRIG_ONE - sin * sin) as i64, sin: sin as i64 }
}

/// `v` rotated by `d`, each component rounded toward zero.
pub open spec fn rotate_pair(v: (int, int), d: Deflection) -> (int, int) {
    (
        tdiv(v.0 * d.cos - v.1 * d.sin, TRIG_ONE as int),
        tdiv(v.0 * d.sin + v.1 * d.cos, TRIG_ONE as int),
    )
}

pub open spec fn rotated_x(v: Vec2, d: Deflection) -> int {
    rotate_pair((v.x as int, v.y as int), d).0
}

pub open spec fn rotated_y(v: Vec2, d: Deflection) -> int {
    rotate_pair((v.x as int, v.y as int), d).1
}

proof fn lemma_sine_terms(a: int)
    requires
        0 <= a <= MAX_DEFLECTION_ANGLE,
    ensures
        0 <= a * a / TRIG_ONE as int <= 250_000,
        0 <= (a * a / TRIG_ONE as int) * a / TRIG_ONE as int <= 125_000,
        0 <= ((a * a / TRIG_ONE as int) * a / TRIG_ONE as int) * (a * a / TRIG_ONE as int)
            / TRIG_ONE as int <= 31_250,
        0 <= sine_series(a) <= 600_000,
{
    let a2 = a * a / 1_000_000;
    assert(0 <= a * a <= 250_000_000_000) by (nonlinear_arith)
        requires
            0 <= a <= 500_000,
    ;
    assert(0 <= a2 <= 250_000);
    assert(0 <= a2 * a <= 125_000_000_000) by (nonlinear_arith)
        requires
            0 <= a2 <= 250_000,
            0 <= a <= 500_000,
    ;
    let a3 = a2 * a / 1_000_000;
    assert(0 <= a3 <= 125_000);
    assert(a3 <= a) by (nonlinear_arith)
        requires
            a3 == a2 * a / 1_000_000,
            0 <= a2 <= 250_000,
            0 <= a,
    ;
    assert(0 <= a3 * a2 <= 31_250_000_000) by (nonlinear_arith)
        requires
            0 <= a2 <= 250_000,
            0 <= a3 <= 125_000,
    ;
    let a5 = a3 * a2 / 1_000_000;
    assert(0 <= a5 <= 31_250);
}

proof fn lemma_rotation_bound(v: Vec2, d: Deflection)
    requires
        d.wf(),
    ensures
        abs(v.x * d.cos) <= abs(v.x as int) * TRIG_ONE,
        abs(v.y * d.sin) <= abs(v.y as int) * TRIG_ONE,
        abs(v.x * d.sin) <= abs(v.x as int) * TRIG_ONE,
        abs(v.y * d.cos) <= abs(v.y as int) * TRIG_ONE,
        abs(v.x * d.cos - v.y * d.sin) <= (abs(v.x as int) + abs(v.y as int)) * TRIG_ONE,
        abs(v.x * d.sin + v.y * d.cos) <= (abs(v.x as int) + abs(v.y as int)) * TRIG_ONE,
        abs(rotated_x(v, d)) <= abs(v.x as int) + abs(v.y as int),
        abs(rotated_y(v, d)) <= abs(v.x as int) + abs(v.y as int),
{
    let ax = abs(v.x as int);
    let ay = abs(v.y as int);
    assert(abs(v.x * d.cos) <= ax * TRIG_ONE) by (nonlinear_arith)
        requires
            ax == abs(v.x as int),
            -1_000_000 <= d.cos <= 1_000_000,
    ;
    assert(abs(v.y * d.sin) <= ay * TRIG_ONE) by (nonlinear_arith)
        requires
            ay == abs(v.y as int),
            -1_000_000 <= d.sin <= 1_000_000,
    ;
    assert(abs(v.x * d.sin) <= ax * TRIG_ONE) by (nonlinear_arith)
        requires
            ax == abs(v.x as int),
            -1_000_000 <= d.sin <= 1_000_000,
    ;
    assert(abs(v.y * d.cos) <= ay * TRIG_ONE) by (nonlinear_arith)
        requires
            ay == abs(v.y as int),
            -1_000_000 <= d.cos <= 1_000_000,
    ;
    let n1 = v.x * d.cos - v.y * d.sin;
    let n2 = v.x * d.sin + v.y * d.cos;
    crate::fixed::lemma_tdiv_bound(n1, TRIG_ONE as int);
    crate::fixed::lemma_tdiv_bound(n2, TRIG_ONE as int);
    assert(abs(n1) / 1_000_000 <= ax + ay) by (nonlinear_arith)
        requires
            abs(n1) <= (ax + ay) * 1_000_000,
            abs(n1) >= 0,
    ;
    assert(abs(n2) / 1_000_000 <= ax + ay) by (nonlinear_arith)
        requires
            abs(n2) <= (ax + ay) * 1_000_000,
            abs(n2) >= 0,
    ;
}

} // verus!
