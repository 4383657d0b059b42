//! Three-component vectors of fixed-point scalars.
use vstd::prelude::*;

use crate::fixed::{
    floor_sqrt, fx_add, fx_div, fx_mul, fx_rescale, fx_sqrt, fx_sub, is_scalar,
    lemma_floor_sqrt_exists, lemma_magnitude_square, lemma_quot_bounds, lemma_square_above,
    lemma_square_below, lemma_unit_component, magnitude, quot, saturate, spec_add, spec_div,
    spec_mul, spec_sqrt, spec_sub, MAX_RAW, ONE,
};

verus! {

#[derive(Clone, Copy, PartialEq, Eq, Structural, Debug)]
pub struct Vector3 {
    pub x: i64,
    pub y: i64,
    pub z: i64,
}

impl Vector3 {
    /// Every component is within the saturation bounds.
    pub open spec fn wf(self) -> bool {
        is_scalar(self.x as int) && is_scalar(self.y as int) && is_scalar(self.z as int)
    }

    pub open spec fn spec_splat(v: int) -> Vector3 {
        Vector3 { x: v as i64, y: v as i64, z: v as i64 }
    }

    pub open spec fn spec_add(self, o: Vector3) -> Vector3 {
        Vector3 {
            x: spec_add(self.x as int, o.x as int) as i64,
            y: spec_add(self.y as int, o.y as int) as i64,
            z: spec_add(self.z as int, o.z as int) as i64,
        }
    }

    pub open spec fn spec_sub(self, o: Vector3) -> Vector3 {
        Vector3 {
            x: spec_sub(self.x as int, o.x as int) as i64,
            y: spec_sub(self.y as int, o.y as int) as i64,
            z: spec_sub(self.z as int, o.z as int) as i64,
        }
    }

    pub open spec fn spec_mul(self, o: Vector3) -> Vector3 {
        Vector3 {
            x: spec_mul(self.x as int, o.x as int) as i64,
            y: spec_mul(self.y as int, o.y as int) as i64,
            z: spec_mul(self.z as int, o.z as int) as i64,
        }
    }

    pub open spec fn spec_div(self, o: Vector3) -> Vector3 {
        Vector3 {
            x: spec_div(self.x as int, o.x as int) as i64,
            y: spec_div(self.y as int, o.y as int) as i64,
            z: spec_div(self.z as int, o.z as int) as i64,
        }
    }

    pub open spec fn spec_neg(self) -> Vector3 {
        Vector3 { x: -self.x as i64, y: -self.y as i64, z: -self.z as i64 }
    }

    /// `self` scaled by the scalar `t`.
    pub open spec fn spec_scale(self, t: int) -> Vector3 {
        self.spec_mul(Vector3::spec_splat(t))
    }

    /// Sum of the componentwise products, rounded once.
    pub open spec fn spec_dot(self, o: Vector3) -> int {
        saturate(quot(self.x * o.x + self.y * o.y + self.z * o.z, ONE as int))
    }

    pub open spec fn spec_length_sqr(self) -> int {
        self.spec_dot(self)
    }

    pub open spec fn spec_length(self) -> int {
        spec_sqrt(self.spec_length_sqr())
    }

    /// `self` divided by its length, or the zero vector where that length is zero.
    pub open spec fn spec_normalized(self) -> Vector3 {
        let len = self.spec_length();
        if len == 0 {
            Vector3 { x: 0, y: 0, z: 0 }
        } else {
            self.spec_div(Vector3::spec_splat(len))
        }
    }

    /// `self * (1 - t) + o * t`.
    pub open spec fn spec_lerp(self, o: Vector3, t: int) -> Vector3 {
        self.spec_scale(spec_sub(ONE as int, t)).spec_add(o.spec_scale(t))
    }

    /// `self - normal * dot(self, normal) * 2`.
    pub open spec fn spec_reflect(self, normal: Vector3) -> Vector3 {
        self.spec_sub(normal.spec_scale(self.spec_dot(normal)).spec_scale(2 * ONE))
    }

    pub fn zero() -> (r: Vector3)
        ensures
            r == (Vector3 { x: 0, y: 0, z: 0 }),
    {
        Vector3 { x: 0, y: 0, z: 0 }
    }

    pub fn one() -> (r: Vector3)
        ensures
            r == (Vector3 { x: ONE, y: ONE, z: ONE }),
    {
        Vector3 { x: ONE, y: ONE, z: ONE }
    }

    pub fn dot(self, other: Vector3) -> (r: i64)
        requires
            self.wf(),
            other.wf(),
        ensures
            r == self.spec_dot(other),
    {
        proof {
            lemma_dot_bound(self, other);
        }
        let s = (self.x as i128) * (other.x as i128) + (self.y as i128) * (other.y as i128)
            + (self.z as i128) * (other.z as i128);
        fx_rescale(s)
    }

    pub fn length_sqr(self) -> (r: i64)
        requires
            self.wf(),
        ensures
            r == self.spec_length_sqr(),
            r >= 0,
    {
        proof {
            lemma_length_sqr_nonneg(self);
        }
        self.dot(self)
    }

    pub fn length(self) -> (r: i64)
        requires
            self.wf(),
        ensures
            r == self.spec_length(),
            0 <= r <= MAX_RAW,
    {
        fx_sqrt(self.length_sqr())
    }

    pub fn normalized(self) -> (r: Vector3)
        requires
            self.wf(),
        ensures
            r == self.spec_normalized(),
            r.wf(),
    {
        let length = self.length();
        if length == 0 {
            Vector3::zero()
        } else {
            self.div(Vector3::from(length))
        }
    }

    pub fn reflect(self, normal: Vector3) -> (r: Vector3)
        requires
            self.wf(),
            normal.wf(),
        ensures
            r == self.spec_reflect(normal),
            r.wf(),
    {
        self.sub(normal.mul(Vector3::from(self.dot(normal))).mul(Vector3::from(2 * ONE)))
    }

    pub fn lerp(self, other: Vector3, t: i64) -> (r: Vector3)
        requires
            self.wf(),
            other.wf(),
            is_scalar(t as int),
        ensures
            r == self.spec_lerp(other, t as int),
            r.wf(),
    {
        self.mul(Vector3::from(fx_sub(ONE, t))).add(other.mul(Vector3::from(t)))
    }

    pub fn add(self, other: Vector3) -> (r: Vector3)
        requires
            self.wf(),
            other.wf(),
        ensures
            r == self.spec_add(other),
            r.wf(),
    {
        Vector3 { x: fx_add(self.x, other.x), y: fx_add(self.y, other.y), z: fx_add(self.z, other.z) }
    }

    pub fn add_assign(&mut self, other: Vector3)
        requires
            old(self).wf(),
            other.wf(),
        ensures
            *final(self) == old(self).spec_add(other),
            final(self).wf(),
    {
        *self = self.add(other);
    }

    pub fn sub(self, other: Vector3) -> (r: Vector3)
        requires
            self.wf(),
            other.wf(),
        ensures
            r == self.spec_sub(other),
            r.wf(),
    {
        Vector3 { x: fx_sub(self.x, other.x), y: fx_sub(self.y, other.y), z: fx_sub(self.z, other.z) }
    }

    pub fn sub_assign(&mut self, other: Vector3)
        requires
            old(self).wf(),
            other.wf(),
        ensures
            *final(self) == old(self).spec_sub(other),
            final(self).wf(),
    {
        *self = self.sub(other);
    }

    /// Componentwise product.
    pub fn mul(self, other: Vector3) -> (r: Vector3)
        requires
            self.wf(),
            other.wf(),
        ensures
            r == self.spec_mul(other),
            r.wf(),
    {
        Vector3 { x: fx_mul(self.x, other.x), y: fx_mul(self.y, other.y), z: fx_mul(self.z, other.z) }
    }

    pub fn mul_assign(&mut self, other: Vector3)
        requires
            old(self).wf(),
            other.wf(),
        ensures
            *final(self) == old(self).spec_mul(other),
            final(self).wf(),
    {
        *self = self.mul(other);
    }

    /// Componentwise quotient; a zero divisor gives a zero component.
    pub fn div(self, other: Vector3) -> (r: Vector3)
        requires
            self.wf(),
            other.wf(),
        ensures
            r == self.spec_div(other),
            r.wf(),
    {
        Vector3 { x: fx_div(self.x, other.x), y: fx_div(self.y, other.y), z: fx_div(self.z, other.z) }
    }

    pub fn div_assign(&mut self, other: Vector3)
        requires
            old(self).wf(),
            other.wf(),
        ensures
            *final(self) == old(self).spec_div(other),
            final(self).wf(),
    {
        *self = self.div(other);
    }

    pub fn neg(self) -> (r: Vector3)
        requires
            self.wf(),
        ensures
            r == self.spec_neg(),
            r.wf(),
    {
        Vector3 { x: -self.x, y: -self.y, z: -self.z }
    }
}

/// Normalizing the zero vector gives the zero vector, never a division by zero.
pub proof fn lemma_normalized_zero()
    ensures
        (Vector3 { x: 0, y: 0, z: 0 }).spec_normalized() == (Vector3 { x: 0, y: 0, z: 0 }),
{
    let z = Vector3 { x: 0, y: 0, z: 0 };
    assert(z.spec_length_sqr() == 0);
    assert(z.spec_length() == 0);
}

/// The dot product is symmetric, and the squared length is the dot product
/// of a vector with itself.
pub proof fn lemma_dot_symmetric(a: Vector3, b: Vector3)
    ensures
        a.spec_dot(b) == b.spec_dot(a),
        a.spec_length_sqr() == a.spec_dot(a),
{
    assert(a.x * b.x + a.y * b.y + a.z * b.z == b.x * a.x + b.y * a.y + b.z * a.z) by (nonlinear_arith);
}

/// Normalizing a vector whose squared length is at least 0.01 (and does not
/// saturate) gives a vector whose length is within 0.001 of one.
pub proof fn lemma_normalized_unit_length(v: Vector3)
    requires
        v.wf(),
        10_000 <= v.spec_length_sqr() < MAX_RAW,
    ensures
        ONE - 1_000 <= v.spec_normalized().spec_length() <= ONE + 1_000,
{
    let (mx, my, mz) = (magnitude(v.x as int), magnitude(v.y as int), magnitude(v.z as int));
    lemma_magnitude_square(v.x as int);
    lemma_magnitude_square(v.y as int);
    lemma_magnitude_square(v.z as int);
    let s = mx * mx + my * my + mz * mz;
    assert(s == v.x * v.x + v.y * v.y + v.z * v.z);
    assert(s >= 0) by (nonlinear_arith)
        requires
            s == mx * mx + my * my + mz * mz,
    ;
    lemma_quot_bounds(s, ONE as int);
    let l2 = v.spec_length_sqr();
    assert(l2 == s / (ONE as int));
    let q = l2 * ONE;
    assert(q <= s < q + ONE);
    lemma_floor_sqrt_exists(q);
    let len = floor_sqrt(q);
    assert(v.spec_length() == len);
    let sq = len * len;
    assert(len >= 100_000) by (nonlinear_arith)
        requires
            q >= 10_000_000_000,
            q < (len + 1) * (len + 1),
            len >= 0,
    ;
    assert((len + 1) * (len + 1) == sq + 2 * len + 1) by (nonlinear_arith)
        requires
            sq == len * len,
    ;
    assert(s <= 4 * sq) by (nonlinear_arith)
        requires
            s < sq + 2 * len + 1 + 1_000_000,
            sq == len * len,
            len >= 100_000,
    ;
    assert(mx * mx >= 0 && my * my >= 0 && mz * mz >= 0) by (nonlinear_arith)
        requires
            mx >= 0,
            my >= 0,
            mz >= 0,
    ;
    assert(4 * sq == 4 * len * len) by (nonlinear_arith)
        requires
            sq == len * len,
    ;
    lemma_unit_component(v.x as int, len);
    lemma_unit_component(v.y as int, len);
    lemma_unit_component(v.z as int, len);
    assert(len <= 1_000_000_000_000) by (nonlinear_arith)
        requires
            len * len <= q,
            q <= 1_000_000_000_000_000_000_000_000,
            len >= 0,
    ;
    let n = v.spec_normalized();
    assert(n == v.spec_div(Vector3::spec_splat(len)));
    assert((len as i64) as int == len);
    let (dx, dy, dz) = (
        spec_div(v.x as int, len),
        spec_div(v.y as int, len),
        spec_div(v.z as int, len),
    );
    assert(is_scalar(dx) && is_scalar(dy) && is_scalar(dz));
    assert(n.x as int == dx && n.y as int == dy && n.z as int == dz);
    let (kx, ky, kz) = (magnitude(dx), magnitude(dy), magnitude(dz));
    let s2 = kx * kx + ky * ky + kz * kz;
    assert(n.x * n.x + n.y * n.y + n.z * n.z == s2);
    let o = 1_000_000_000_000int;
    // upper bound on the squared length of the result
    lemma_square_below(kx, mx, len);
    lemma_square_below(ky, my, len);
    lemma_square_below(kz, mz, len);
    assert(s2 * sq == (kx * kx) * sq + (ky * ky) * sq + (kz * kz) * sq) by (nonlinear_arith)
        requires
            s2 == kx * kx + ky * ky + kz * kz,
    ;
    assert(s * o == (mx * mx) * o + (my * my) * o + (mz * mz) * o) by (nonlinear_arith)
        requires
            s == mx * mx + my * my + mz * mz,
    ;
    assert(s2 * sq <= s * o);
    assert(s * o < (sq + 2 * len + 1 + 1_000_000) * o) by (nonlinear_arith)
        requires
            s < sq + 2 * len + 1 + 1_000_000,
            o > 0,
    ;
    assert((sq + 2 * len + 1 + 1_000_000) * o <= sq * (o + 300_000_000)) by (nonlinear_arith)
        requires
            sq == len * len,
            len >= 100_000,
            o == 1_000_000_000_000int,
    ;
    assert(s2 < o + 300_000_000) by (nonlinear_arith)
        requires
            s2 * sq < sq * (o + 300_000_000),
            sq > 0,
    ;
    // lower bound on the squared length of the result
    lemma_square_above(kx, mx, len);
    lemma_square_above(ky, my, len);
    lemma_square_above(kz, mz, len);
    let t = s2 + 2 * (kx + ky + kz) + 3;
    assert(t * sq == (kx * kx + 2 * kx + 1) * sq + (ky * ky + 2 * ky + 1) * sq + (kz * kz + 2 * kz
        + 1) * sq) by (nonlinear_arith)
        requires
            t == kx * kx + ky * ky + kz * kz + 2 * (kx + ky + kz) + 3,
    ;
    assert(s * o < t * sq);
    assert(sq * o <= s * o) by (nonlinear_arith)
        requires
            sq <= s,
            o > 0,
    ;
    assert(o < t) by (nonlinear_arith)
        requires
            sq * o < t * sq,
            sq > 0,
    ;
    assert(s2 > 999_900_000_000);
    lemma_quot_bounds(s2, ONE as int);
    let l2n = n.spec_length_sqr();
    assert(l2n == s2 / (ONE as int));
    let qn = l2n * ONE;
    assert(999_899_000_000 <= qn <= 1_000_300_000_000);
    lemma_floor_sqrt_exists(qn);
    let lenn = floor_sqrt(qn);
    assert(n.spec_length() == lenn);
    assert(ONE - 1_000 <= lenn <= ONE + 1_000) by (nonlinear_arith)
        requires
            lenn * lenn <= qn < (lenn + 1) * (lenn + 1),
            lenn >= 0,
            999_899_000_000 <= qn <= 1_000_300_000_000,
    ;
}

proof fn lemma_dot_bound(a: Vector3, b: Vector3)
    requires
        a.wf(),
        b.wf(),
    ensures
        -1_000_000_000_000_000_000_000_000_000_000_000_000 <= a.x * b.x
            <= 1_000_000_000_000_000_000_000_000_000_000_000_000,
        -1_000_000_000_000_000_000_000_000_000_000_000_000 <= a.y * b.y
            <= 1_000_000_000_000_000_000_000_000_000_000_000_000,
        -1_000_000_000_000_000_000_000_000_000_000_000_000 <= a.z * b.z
            <= 1_000_000_000_000_000_000_000_000_000_000_000_000,
{
    crate::fixed::lemma_product_bound(a.x as int, b.x as int);
    crate::fixed::lemma_product_bound(a.y as int, b.y as int);
    crate::fixed::lemma_product_bound(a.z as int, b.z as int);
}

proof fn lemma_length_sqr_nonneg(a: Vector3)
    ensures
        a.spec_length_sqr() >= 0,
{
    assert(a.x * a.x + a.y * a.y + a.z * a.z >= 0) by (nonlinear_arith);
}

impl Default for Vector3 {
    fn default() -> (r: Vector3)
        ensures
            r == (Vector3 { x: 0, y: 0, z: 0 }),
    {
        Vector3 { x: 0, y: 0, z: 0 }
    }
}

/// The vector with all three components equal to a scalar.
impl From<i64> for Vector3 {
    fn from(value: i64) -> (r: Vector3) {
        Vector3 { x: value, y: value, z: value }
    }
}

impl vstd::std_specs::convert::FromSpecImpl<i64> for Vector3 {
    open spec fn obeys_from_spec() -> bool {
        true
    }

    open spec fn from_spec(v: i64) -> Vector3 {
        Vector3::spec_splat(v as int)
    }
}

} // verus!
