//! 2D vector types: real-valued (fixed-point) vectors for positions and
//! forces, and integer vectors for grid-resolution coordinates.

use vstd::prelude::*;

use crate::fixed::{
    fx_add, fx_div, fx_div_v, fx_mul, fx_mul_v, fx_sub, isqrt_u128, lemma_fx_square_nonneg,
    lemma_isqrt_bounds, sat64, spec_isqrt, FX_ONE,
};

verus! {

/// A free-form position or force vector over fixed-point scalars
/// (fixed-point units, see [`crate::fixed`]).
#[derive(Clone, Copy)]
pub struct Point {
    pub x: i64,
    pub y: i64,
}

/// The squared magnitude of `p` in fixed-point arithmetic.
pub open spec fn spec_mag_sq(p: Point) -> int {
    sat64(fx_mul_v(p.x as int, p.x as int) + fx_mul_v(p.y as int, p.y as int))
}

/// The magnitude of `p`: the integer square root of `mag_sq` rescaled into
/// fixed-point units.
pub open spec fn spec_mag(p: Point) -> int {
    spec_isqrt((spec_mag_sq(p) * (FX_ONE as int)) as nat) as int
}

/// Clamps an unbounded integer into the range of `i32`.
pub open spec fn sat32(v: int) -> int {
    if v > i32::MAX {
        i32::MAX as int
    } else if v < i32::MIN {
        i32::MIN as int
    } else {
        v
    }
}

/// `v / FX_ONE` rounded to the nearest integer, halves away from zero.
pub open spec fn spec_round_unit(v: int) -> int {
    if v >= 0 {
        (v + FX_ONE / 2) / (FX_ONE as int)
    } else {
        -(((-v) + FX_ONE / 2) / (FX_ONE as int))
    }
}

impl Point {
    /// The vector with the given components.
    pub fn new(x: i64, y: i64) -> (r: Point)
        ensures
            r.x == x,
            r.y == y,
    {
        Point { x, y }
    }

    /// The difference `other - self`, componentwise and saturating.
    pub fn sub(&self, other: &Point) -> (r: Point)
        ensures
            r.x as int == sat64(other.x - self.x),
            r.y as int == sat64(other.y - self.y),
    {
        Point::new(fx_sub(other.x, self.x), fx_sub(other.y, self.y))
    }

    /// The sum `other + self`, componentwise and saturating.
    pub fn add(&self, other: &Point) -> (r: Point)
        ensures
            r.x as int == sat64(other.x + self.x),
            r.y as int == sat64(other.y + self.y),
    {
        Point::new(fx_add(other.x, self.x), fx_add(other.y, self.y))
    }

    /// The componentwise fixed-point product of the two vectors.
    pub fn mul(&self, other: &Point) -> (r: Point)
        ensures
            r.x as int == fx_mul_v(self.x as int, other.x as int),
            r.y as int == fx_mul_v(self.y as int, other.y as int),
    {
        Point { x: fx_mul(self.x, other.x), y: fx_mul(self.y, other.y) }
    }

    /// Adds `other` onto `self`, componentwise and saturating.
    pub fn add_inplace(&mut self, other: &Point)
        ensures
            final(self).x as int == sat64(old(self).x + other.x),
            final(self).y as int == sat64(old(self).y + other.y),
    {
        self.x = fx_add(self.x, other.x);
        self.y = fx_add(self.y, other.y);
    }

    /// The vector scaled by the fixed-point factor `scale`.
    pub fn scale(&self, scale: i64) -> (r: Point)
        ensures
            r.x as int == fx_mul_v(self.x as int, scale as int),
            r.y as int == fx_mul_v(self.y as int, scale as int),
    {
        Point { x: fx_mul(self.x, scale), y: fx_mul(self.y, scale) }
    }

    /// The vector divided by the fixed-point factor `scale`.
    pub fn scale_down(&self, scale: i64) -> (r: Point)
        requires
            scale != 0,
        ensures
            r.x as int == fx_div_v(self.x as int, scale as int),
            r.y as int == fx_div_v(self.y as int, scale as int),
    {
        Point { x: fx_div(self.x, scale), y: fx_div(self.y, scale) }
    }

    /// The squared magnitude, in fixed-point arithmetic.
    pub fn mag_sq(&self) -> (r: i64)
        ensures
            r as int == spec_mag_sq(*self),
            r >= 0,
    {
        proof {
            lemma_fx_square_nonneg(self.x as int);
            lemma_fx_square_nonneg(self.y as int);
        }
        fx_add(fx_mul(self.x, self.x), fx_mul(self.y, self.y))
    }

    /// The magnitude, in fixed-point units.
    pub fn mag(&self) -> (r: i64)
        ensures
            r as int == spec_mag(*self),
            r >= 0,
    {
        let ms = self.mag_sq();
        let prod: u128 = (ms as u128) * (FX_ONE as u128);
        proof {
            assert((ms as int) * (FX_ONE as int) < 0x100000000000000000000000000int)
                by (nonlinear_arith)
                requires
                    0 <= (ms as int) < 0x8000000000000000,
                    (FX_ONE as int) == 1000000000000,
            ;
        }
        let r = isqrt_u128(prod);
        proof {
            lemma_isqrt_bounds(prod as nat);
            assert(r as int <= 0x7fffffffffffffff) by (nonlinear_arith)
                requires
                    (r as int) * (r as int) < 0x100000000000000000000000000int,
                    r as int >= 0,
            ;
        }
        r as i64
    }

    /// The unit vector in the direction of `self`, or `None` for the
    /// zero-magnitude vector: normalizing it would divide by zero, so that
    /// domain error is reported explicitly instead.
    pub fn as_unit(&self) -> (r: Option<Point>)
        ensures
            (r is None) <==> spec_mag_sq(*self) == 0,
            r matches Some(u) ==> {
                &&& u.x as int == fx_div_v(self.x as int, spec_mag(*self))
                &&& u.y as int == fx_div_v(self.y as int, spec_mag(*self))
            },
    {
        let m = self.mag();
        proof {
            lemma_fx_square_nonneg(self.x as int);
            lemma_fx_square_nonneg(self.y as int);
            let msq = spec_mag_sq(*self);
            assert(msq >= 0);
            let n = (msq * (FX_ONE as int)) as nat;
            let s = spec_isqrt(n);
            lemma_isqrt_bounds(n);
            if msq == 0 {
                assert(msq * (FX_ONE as int) == 0) by (nonlinear_arith)
                    requires
                        msq == 0,
                ;
                assert(s == 0);
            } else {
                assert(msq * (FX_ONE as int) >= 1000000000000) by (nonlinear_arith)
                    requires
                        msq >= 1,
                        (FX_ONE as int) == 1000000000000,
                ;
                assert(n >= 1);
                if s == 0 {
                    assert(n < 1) by (nonlinear_arith)
                        requires
                            s == 0,
                            n < (s + 1) * (s + 1),
                    ;
                }
                assert(s >= 1);
            }
        }
        if m == 0 {
            None
        } else {
            Some(self.scale_down(m))
        }
    }

    /// The nearest integer grid coordinate, halves rounding away from zero
    /// and the result clamped into `i32` range.
    pub fn round(&self) -> (r: IntPoint)
        ensures
            r.i as int == sat32(spec_round_unit(self.x as int)),
            r.j as int == sat32(spec_round_unit(self.y as int)),
    {
        IntPoint { i: round_coord(self.x), j: round_coord(self.y) }
    }
}

/// Rounds one fixed-point coordinate to the nearest integer, halves away
/// from zero, clamped into `i32` range.
fn round_coord(v: i64) -> (r: i32)
    ensures
        r as int == sat32(spec_round_unit(v as int)),
{
    if v >= 0 {
        let q: u64 = ((v as u64) + 500000000000) / 1000000000000;
        if q > i32::MAX as u64 {
            i32::MAX
        } else {
            q as i32
        }
    } else {
        let m: u64 = (-(v as i128)) as u64;
        let q: u64 = (m + 500000000000) / 1000000000000;
        if q >= 2147483648u64 {
            i32::MIN
        } else {
            -(q as i32)
        }
    }
}

/// A grid-resolution coordinate vector.
#[derive(Clone, Copy)]
pub struct IntPoint {
    pub i: i32,
    pub j: i32,
}

impl IntPoint {
    /// The difference `other - self`, componentwise.
    pub fn sub(&self, other: &IntPoint) -> (r: IntPoint)
        requires
            i32::MIN <= other.i - self.i <= i32::MAX,
            i32::MIN <= other.j - self.j <= i32::MAX,
        ensures
            r.i == other.i - self.i,
            r.j == other.j - self.j,
    {
        IntPoint { i: other.i - self.i, j: other.j - self.j }
    }

    /// The sum `other + self`, componentwise.
    pub fn add(&self, other: &IntPoint) -> (r: IntPoint)
        requires
            i32::MIN <= other.i + self.i <= i32::MAX,
            i32::MIN <= other.j + self.j <= i32::MAX,
        ensures
            r.i == other.i + self.i,
            r.j == other.j + self.j,
    {
        IntPoint { i: other.i + self.i, j: other.j + self.j }
    }

    /// Adds `other` onto `self`, componentwise.
    pub fn add_inplace(&mut self, other: &IntPoint)
        requires
            i32::MIN <= old(self).i + other.i <= i32::MAX,
            i32::MIN <= old(self).j + other.j <= i32::MAX,
        ensures
            final(self).i == old(self).i + other.i,
            final(self).j == old(self).j + other.j,
    {
        self.i = self.i + other.i;
        self.j = self.j + other.j;
    }

    /// The componentwise product of the two vectors.
    pub fn mul(&self, other: &IntPoint) -> (r: IntPoint)
        requires
            i32::MIN <= other.i * self.i <= i32::MAX,
            i32::MIN <= other.j * self.j <= i32::MAX,
        ensures
            r.i == other.i * self.i,
            r.j == other.j * self.j,
    {
        IntPoint { i: other.i * self.i, j: other.j * self.j }
    }

    /// The squared magnitude `i*i + j*j`.
    pub fn mag_sq(&self) -> (r: i32)
        requires
            self.i * self.i + self.j * self.j <= i32::MAX,
        ensures
            r == self.i * self.i + self.j * self.j,
    {
        proof {
            assert((self.i as int) * (self.i as int) >= 0 && (self.j as int) * (self.j as int)
                >= 0) by (nonlinear_arith);
        }
        self.i * self.i + self.j * self.j
    }
}

} // verus!
