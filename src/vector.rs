//! Three-component fixed-point vectors.
use crate::fixed::{
    checked_real_mul, fdiv, fits, fmul, fsqrt, is_isqrt, lemma_isqrt_exists, real_div, real_mul, real_sqrt, Real,
    ONE,
};
use vstd::prelude::*;

verus! {

/// A vector of three fixed-point components.
#[derive(Debug, Clone, Copy, PartialEq, Eq, Structural)]
pub struct Vector3 {
    pub x: Real,
    pub y: Real,
    pub z: Real,
}

/// The Euclidean length of `v`: the rounded square root of its square magnitude.
pub open spec fn magnitude_of(v: Vector3) -> int {
    fsqrt(square_magnitude_of(v))
}

/// True when the square magnitude of `v`, and so its length, fits in a `Real`.
pub open spec fn magnitude_fits(v: Vector3) -> bool {
    fits(square_magnitude_of(v))
}

/// Each component of `v` lies in `[-2, 2]`.
pub open spec fn within_two(v: Vector3) -> bool {
    -2 * ONE <= v.x <= 2 * ONE && -2 * ONE <= v.y <= 2 * ONE && -2 * ONE <= v.z <= 2 * ONE
}

/// Each component of `v` lies within `[-2^18, 2^18]` (in real units).
pub open spec fn bounded(v: Vector3) -> bool {
    let b = 0x40_0000_0000int;
    -b <= v.x <= b && -b <= v.y <= b && -b <= v.z <= b
}

/// `v` with every component scaled by `s`, rounded.
pub open spec fn scaled(v: Vector3, s: int) -> Vector3 {
    Vector3 { x: fmul(v.x as int, s) as i64, y: fmul(v.y as int, s) as i64, z: fmul(v.z as int, s) as i64 }
}

/// Every component of `v` scaled by `s` fits in a `Real`.
pub open spec fn scaled_fits(v: Vector3, s: int) -> bool {
    fits(fmul(v.x as int, s)) && fits(fmul(v.y as int, s)) && fits(fmul(v.z as int, s))
}

/// `v` scaled to unit length; a vector of length zero is kept as it is.
pub open spec fn normalized(v: Vector3) -> Vector3 {
    let l = magnitude_of(v);
    if l > 0 {
        scaled(v, fdiv(ONE as int, l))
    } else {
        v
    }
}

/// The first component of the cross product `a × b`.
pub open spec fn cross_x(a: Vector3, b: Vector3) -> int {
    fmul(a.y as int, b.z as int) - fmul(a.z as int, b.y as int)
}

/// The second component of the cross product `a × b`.
pub open spec fn cross_y(a: Vector3, b: Vector3) -> int {
    fmul(a.z as int, b.x as int) - fmul(a.x as int, b.z as int)
}

/// The third component of the cross product `a × b`.
pub open spec fn cross_z(a: Vector3, b: Vector3) -> int {
    fmul(a.x as int, b.y as int) - fmul(a.y as int, b.x as int)
}

/// Every term and component of `a × b` fits in a `Real`.
pub open spec fn cross_fits(a: Vector3, b: Vector3) -> bool {
    fits(cross_x(a, b)) && fits(cross_y(a, b)) && fits(cross_z(a, b))
        && fits(fmul(a.y as int, b.z as int)) && fits(fmul(a.z as int, b.y as int))
        && fits(fmul(a.z as int, b.x as int)) && fits(fmul(a.x as int, b.z as int))
        && fits(fmul(a.x as int, b.y as int)) && fits(fmul(a.y as int, b.x as int))
}

/// The cross product `a × b`.
pub open spec fn cross(a: Vector3, b: Vector3) -> Vector3 {
    Vector3 { x: cross_x(a, b) as i64, y: cross_y(a, b) as i64, z: cross_z(a, b) as i64 }
}

/// `v` with every component negated.
pub open spec fn negated(v: Vector3) -> Vector3 {
    Vector3 { x: (-v.x) as i64, y: (-v.y) as i64, z: (-v.z) as i64 }
}

/// No component of `v` is the one value whose negation overflows.
pub open spec fn negatable(v: Vector3) -> bool {
    v.x > i64::MIN && v.y > i64::MIN && v.z > i64::MIN
}

/// Sum of the rounded squares of the components: the squared length in fixed point.
pub open spec fn square_magnitude_of(v: Vector3) -> int {
    fmul(v.x as int, v.x as int) + fmul(v.y as int, v.y as int) + fmul(v.z as int, v.z as int)
}

/// `u + v * s`, componentwise and rounded.
pub open spec fn add_scaled(u: Vector3, v: Vector3, s: int) -> Vector3 {
    Vector3 {
        x: (u.x + fmul(v.x as int, s)) as i64,
        y: (u.y + fmul(v.y as int, s)) as i64,
        z: (u.z + fmul(v.z as int, s)) as i64,
    }
}

/// Every step of `u + v * s` fits in a `Real`.
pub open spec fn add_scaled_fits(u: Vector3, v: Vector3, s: int) -> bool {
    scaled_fits(v, s) && fits(u.x + fmul(v.x as int, s)) && fits(u.y + fmul(v.y as int, s))
        && fits(u.z + fmul(v.z as int, s))
}

/// The componentwise product of `a` and `b`, rounded.
pub open spec fn component_mul(a: Vector3, b: Vector3) -> Vector3 {
    Vector3 {
        x: fmul(a.x as int, b.x as int) as i64,
        y: fmul(a.y as int, b.y as int) as i64,
        z: fmul(a.z as int, b.z as int) as i64,
    }
}

/// Every component of the componentwise product fits in a `Real`.
pub open spec fn component_mul_fits(a: Vector3, b: Vector3) -> bool {
    fits(fmul(a.x as int, b.x as int)) && fits(fmul(a.y as int, b.y as int)) && fits(
        fmul(a.z as int, b.z as int),
    )
}

/// The componentwise sum `a + b`.
pub open spec fn sum(a: Vector3, b: Vector3) -> Vector3 {
    Vector3 { x: (a.x + b.x) as i64, y: (a.y + b.y) as i64, z: (a.z + b.z) as i64 }
}

/// Every component of `a + b` fits in a `Real`.
pub open spec fn sum_fits(a: Vector3, b: Vector3) -> bool {
    fits(a.x + b.x) && fits(a.y + b.y) && fits(a.z + b.z)
}

/// The componentwise difference `a - b`.
pub open spec fn difference(a: Vector3, b: Vector3) -> Vector3 {
    Vector3 { x: (a.x - b.x) as i64, y: (a.y - b.y) as i64, z: (a.z - b.z) as i64 }
}

/// Every component of `a - b` fits in a `Real`.
pub open spec fn difference_fits(a: Vector3, b: Vector3) -> bool {
    fits(a.x - b.x) && fits(a.y - b.y) && fits(a.z - b.z)
}

/// What the scalar product computes: the first two axes are multiplied, while
/// the third adds its two components instead of multiplying them.
pub open spec fn scalar_product_of(a: Vector3, b: Vector3) -> int {
    fmul(a.x as int, b.x as int) + fmul(a.y as int, b.y as int) + a.z + b.z
}

/// Every partial sum of the scalar product fits in a `Real`.
pub open spec fn scalar_product_fits(a: Vector3, b: Vector3) -> bool {
    fits(fmul(a.x as int, b.x as int)) && fits(fmul(a.y as int, b.y as int)) && fits(
        fmul(a.x as int, b.x as int) + fmul(a.y as int, b.y as int),
    ) && fits(fmul(a.x as int, b.x as int) + fmul(a.y as int, b.y as int) + a.z) && fits(
        scalar_product_of(a, b),
    )
}

/// A component `c` within twice a length `l > 0`, scaled by `n = 1 / l`, lies in `[-2, 2]`.
proof fn lemma_component_scale(c: int, l: int, n: int)
    requires
        -2 * l <= c <= 2 * l,
        l > 0,
        n == fdiv(ONE as int, l),
    ensures
        -2 * ONE <= fmul(c, n) <= 2 * ONE,
        fits(n),
{
    let m = 1048576int * 1048576int;
    assert(n == m / l);
    vstd::arithmetic::div_mod::lemma_fundamental_div_mod(m, l);
    vstd::arithmetic::div_mod::lemma_mod_bound(m, l);
    let rm = m % l;
    assert(m == l * n + rm);
    assert(0 <= rm < l);
    assert(n >= 0) by (nonlinear_arith)
        requires
            m == l * n + rm,
            0 <= rm < l,
            m > 0,
            l > 0,
    ;
    assert(0 <= n * l <= m) by (nonlinear_arith)
        requires
            m == l * n + rm,
            0 <= rm,
            n >= 0,
            l > 0,
    ;
    assert(0 <= n <= m) by (nonlinear_arith)
        requires
            0 <= n * l <= m,
            l > 0,
    ;
    assert(-2 * m <= c * n <= 2 * m) by (nonlinear_arith)
        requires
            -2 * l <= c <= 2 * l,
            0 <= n * l <= m,
            n >= 0,
    ;
}

/// The rounded square of a component is at most the square magnitude, and
/// the exact square lies less than 1 above the rounded one.
proof fn lemma_square_parts(v: Vector3)
    ensures
        0 <= fmul(v.x as int, v.x as int),
        0 <= fmul(v.y as int, v.y as int),
        0 <= fmul(v.z as int, v.z as int),
        (v.x as int) * (v.x as int) < (fmul(v.x as int, v.x as int) + 1) * ONE,
        (v.y as int) * (v.y as int) < (fmul(v.y as int, v.y as int) + 1) * ONE,
        (v.z as int) * (v.z as int) < (fmul(v.z as int, v.z as int) + 1) * ONE,
        0 <= square_magnitude_of(v),
{
    assert((v.x as int) * (v.x as int) >= 0) by (nonlinear_arith);
    assert((v.y as int) * (v.y as int) >= 0) by (nonlinear_arith);
    assert((v.z as int) * (v.z as int) >= 0) by (nonlinear_arith);
}

/// The length is the integer square root of `ONE` times the square magnitude.
proof fn lemma_magnitude_is_root(v: Vector3)
    ensures
        is_isqrt(square_magnitude_of(v) * ONE, magnitude_of(v)),
        magnitude_of(v) >= 0,
{
    lemma_square_parts(v);
    lemma_isqrt_exists((square_magnitude_of(v) * ONE) as nat);
}

/// Each component of a vector of positive length `l` lies within `2 * l`.
proof fn lemma_components_within_length(v: Vector3)
    requires
        magnitude_of(v) > 0,
    ensures
        -2 * magnitude_of(v) <= v.x <= 2 * magnitude_of(v),
        -2 * magnitude_of(v) <= v.y <= 2 * magnitude_of(v),
        -2 * magnitude_of(v) <= v.z <= 2 * magnitude_of(v),
{
    lemma_magnitude_is_root(v);
    lemma_square_parts(v);
    let l = magnitude_of(v);
    let sm = square_magnitude_of(v);
    if sm == 0 {
        assert(is_isqrt(0, 0));
        crate::fixed::lemma_isqrt_unique(0, 0, l);
    }
    assert(sm >= 1);
    if l < 1024 {
        assert((l + 1) * (l + 1) <= 1024 * 1024) by (nonlinear_arith)
            requires
                0 <= l < 1024,
        ;
    }
    assert(1048576 <= l * l) by (nonlinear_arith)
        requires
            l >= 1024,
    ;
    lemma_component_within(v.x as int, l, sm);
    lemma_component_within(v.y as int, l, sm);
    lemma_component_within(v.z as int, l, sm);
}

/// One component `c`, with `c * c < (sm + 1) * ONE`, `sm * ONE < (l + 1)^2` and
/// `ONE <= l * l`, lies within `2 * l`.
proof fn lemma_component_within(c: int, l: int, sm: int)
    requires
        c * c < (sm + 1) * 1048576,
        sm * 1048576 < (l + 1) * (l + 1),
        1048576 <= l * l,
        l >= 1024,
    ensures
        -2 * l <= c <= 2 * l,
{
    assert(c * c < 4 * l * l) by (nonlinear_arith)
        requires
            c * c < (sm + 1) * 1048576,
            sm * 1048576 < (l + 1) * (l + 1),
            1048576 <= l * l,
            l >= 1024,
    ;
    if c > 2 * l {
        assert(c * c >= 4 * l * l) by (nonlinear_arith)
            requires
                c > 2 * l,
                l > 0,
        ;
    }
    if c < -2 * l {
        assert(c * c >= 4 * l * l) by (nonlinear_arith)
            requires
                -c > 2 * l,
                l > 0,
        ;
    }
}

/// A rounded product of bounded factors is bounded.
proof fn lemma_fmul_bounds(p: int, q: int, bp: int, bq: int)
    requires
        -bp <= p <= bp,
        -bq <= q <= bq,
    ensures
        -(bp * bq) / (ONE as int) - 1 <= fmul(p, q) <= (bp * bq) / (ONE as int),
{
    assert(-(bp * bq) <= p * q <= bp * bq) by (nonlinear_arith)
        requires
            -bp <= p <= bp,
            -bq <= q <= bq,
    ;
}

/// The components of a vector of length zero are each less than `2^-10`.
proof fn lemma_zero_length(v: Vector3)
    requires
        magnitude_of(v) == 0,
    ensures
        within_two(v),
{
    lemma_magnitude_is_root(v);
    lemma_square_parts(v);
    let sm = square_magnitude_of(v);
    assert(sm * ONE < 1);
    assert(sm == 0);
    assert((v.x as int) * (v.x as int) < 1048576);
    assert((v.y as int) * (v.y as int) < 1048576);
    assert((v.z as int) * (v.z as int) < 1048576);
    assert(-1024 < v.x < 1024) by (nonlinear_arith)
        requires
            (v.x as int) * (v.x as int) < 1048576,
    ;
    assert(-1024 < v.y < 1024) by (nonlinear_arith)
        requires
            (v.y as int) * (v.y as int) < 1048576,
    ;
    assert(-1024 < v.z < 1024) by (nonlinear_arith)
        requires
            (v.z as int) * (v.z as int) < 1048576,
    ;
}

/// A normalized vector lies within `[-2, 2]` on every axis.
proof fn lemma_normalized_within_two(v: Vector3, w: Vector3)
    requires
        w == normalized(v),
        magnitude_of(v) >= 0,
        magnitude_of(v) > 0 ==> within_two(w),
    ensures
        within_two(w),
{
    if magnitude_of(v) == 0 {
        lemma_zero_length(v);
    }
}

/// The cross product of a vector within `[-2, 2]` with a bounded one, and
/// what is computed from it, stay in range.
proof fn lemma_cross_unit_bounded(a: Vector3, b: Vector3)
    requires
        within_two(a),
        bounded(b),
    ensures
        cross_fits(a, b),
        fits(square_magnitude_of(cross(a, b))),
        magnitude_fits(cross(a, b)),
{
    let u = 0x20_0000int;
    let bb = 0x40_0000_0000int;
    lemma_fmul_bounds(a.y as int, b.z as int, u, bb);
    lemma_fmul_bounds(a.z as int, b.y as int, u, bb);
    lemma_fmul_bounds(a.z as int, b.x as int, u, bb);
    lemma_fmul_bounds(a.x as int, b.z as int, u, bb);
    lemma_fmul_bounds(a.x as int, b.y as int, u, bb);
    lemma_fmul_bounds(a.y as int, b.x as int, u, bb);
    let c = cross(a, b);
    let cb = 0x100_0000_0002int;
    lemma_fmul_bounds(c.x as int, c.x as int, cb, cb);
    lemma_fmul_bounds(c.y as int, c.y as int, cb, cb);
    lemma_fmul_bounds(c.z as int, c.z as int, cb, cb);
    lemma_square_parts(c);
}

/// The cross product of two vectors within `[-2, 2]` stays in range.
proof fn lemma_cross_unit_unit(a: Vector3, b: Vector3)
    requires
        within_two(a),
        within_two(b),
    ensures
        cross_fits(a, b),
{
    let u = 0x20_0000int;
    lemma_fmul_bounds(a.y as int, b.z as int, u, u);
    lemma_fmul_bounds(a.z as int, b.y as int, u, u);
    lemma_fmul_bounds(a.z as int, b.x as int, u, u);
    lemma_fmul_bounds(a.x as int, b.z as int, u, u);
    lemma_fmul_bounds(a.x as int, b.y as int, u, u);
    lemma_fmul_bounds(a.y as int, b.x as int, u, u);
}

/// The vector `c` that the orthonormal basis construction yields from `a` and `b`.
pub open spec fn basis_c(a: Vector3, b: Vector3) -> Vector3 {
    let c = cross(normalized(a), b);
    if square_magnitude_of(c) != 0 {
        normalized(c)
    } else {
        c
    }
}

/// The vector `b` that the orthonormal basis construction yields from `a` and `b`.
pub open spec fn basis_b(a: Vector3, b: Vector3) -> Vector3 {
    if square_magnitude_of(cross(normalized(a), b)) != 0 {
        cross(basis_c(a, b), normalized(a))
    } else {
        b
    }
}

impl Vector3 {
    /// The vector `(x, y, z)`.
    pub fn new(x: Real, y: Real, z: Real) -> (r: Vector3)
        ensures
            r.x == x && r.y == y && r.z == z,
    {
        Vector3 { x, y, z }
    }

    /// The zero vector.
    pub fn origin() -> (r: Vector3)
        ensures
            r == (Vector3 { x: 0, y: 0, z: 0 }),
    {
        Vector3::new(0, 0, 0)
    }

    /// Sets every component to zero.
    pub fn clear(&mut self)
        ensures
            *final(self) == (Vector3 { x: 0, y: 0, z: 0 }),
    {
        self.x = 0;
        self.y = 0;
        self.z = 0;
    }

    /// Negates every component.
    pub fn invert(&mut self)
        requires
            negatable(*old(self)),
        ensures
            *final(self) == negated(*old(self)),
            negatable(*final(self)),
    {
        self.x = -self.x;
        self.y = -self.y;
        self.z = -self.z;
    }

    /// The Euclidean length: the rounded square root of the square magnitude.
    pub fn magnitude(&self) -> (r: Real)
        requires
            magnitude_fits(*self),
        ensures
            r == magnitude_of(*self),
            r >= 0,
    {
        proof {
            lemma_square_parts(*self);
        }
        real_sqrt(self.square_magnitude())
    }

    /// The squared length, rounded, without taking a square root.
    pub fn square_magnitude(&self) -> (r: Real)
        requires
            fits(square_magnitude_of(*self)),
        ensures
            r == square_magnitude_of(*self),
    {
        assert(fmul(self.x as int, self.x as int) >= 0) by (nonlinear_arith);
        assert(fmul(self.y as int, self.y as int) >= 0) by (nonlinear_arith);
        assert(fmul(self.z as int, self.z as int) >= 0) by (nonlinear_arith);
        real_mul(self.x, self.x) + real_mul(self.y, self.y) + real_mul(self.z, self.z)
    }

    /// Multiplies every component by `s`.
    pub fn mul_assign(&mut self, s: Real)
        requires
            scaled_fits(*old(self), s as int),
        ensures
            *final(self) == scaled(*old(self), s as int),
    {
        self.x = real_mul(self.x, s);
        self.y = real_mul(self.y, s);
        self.z = real_mul(self.z, s);
    }

    /// Scales the vector to unit length; a vector of length zero is left as it is.
    pub fn normalize(&mut self)
        requires
            magnitude_fits(*old(self)),
        ensures
            *final(self) == normalized(*old(self)),
            magnitude_of(*old(self)) >= 0,
            magnitude_of(*old(self)) > 0 ==> within_two(*final(self)),
            magnitude_of(*old(self)) == 0 ==> *final(self) == *old(self),
    {
        let l = self.magnitude();
        proof {
            lemma_magnitude_is_root(*self);
        }
        if l > 0 {
            proof {
                lemma_components_within_length(*self);
                let n = fdiv(ONE as int, l as int);
                lemma_component_scale(self.x as int, l as int, n);
                lemma_component_scale(self.y as int, l as int, n);
                lemma_component_scale(self.z as int, l as int, n);
            }
            let inv = real_div(ONE, l);
            self.mul_assign(inv);
        }
    }

    /// Turns `a` and `b` into two axes of a right-handed orthonormal basis and
    /// puts the third in `c`: `a` is normalized, `c = a × b`, and where `c` is
    /// not degenerate it is normalized and `b` becomes `c × a`. Where it is,
    /// `b` is left as it was.
    pub fn make_orthonormal_basis(a: &mut Vector3, b: &mut Vector3, c: &mut Vector3)
        requires
            magnitude_fits(*old(a)),
            bounded(*old(b)),
        ensures
            *final(a) == normalized(*old(a)),
            *final(c) == basis_c(*old(a), *old(b)),
            *final(b) == basis_b(*old(a), *old(b)),
    {
        let ghost a0 = *a;
        a.normalize();
        proof {
            lemma_normalized_within_two(a0, *a);
            lemma_cross_unit_bounded(*a, *b);
        }
        *c = a.vector_product(b);
        if c.square_magnitude() != 0 {
            let ghost c0 = *c;
            c.normalize();
            proof {
                lemma_normalized_within_two(c0, *c);
                lemma_cross_unit_unit(*c, *a);
            }
            *b = c.vector_product(a);
        }
    }

    /// `self + v * s`, or `None` where a step of it does not fit.
    pub fn checked_add_scaled(&self, v: &Vector3, s: Real) -> (r: Option<Vector3>)
        ensures
            r == (if add_scaled_fits(*self, *v, s as int) {
                Some(add_scaled(*self, *v, s as int))
            } else {
                None
            }),
    {
        let px = match checked_real_mul(v.x, s) { Some(p) => p, None => return None };
        let py = match checked_real_mul(v.y, s) { Some(p) => p, None => return None };
        let pz = match checked_real_mul(v.z, s) { Some(p) => p, None => return None };
        let x = match self.x.checked_add(px) { Some(c) => c, None => return None };
        let y = match self.y.checked_add(py) { Some(c) => c, None => return None };
        let z = match self.z.checked_add(pz) { Some(c) => c, None => return None };
        Some(Vector3::new(x, y, z))
    }

    /// The vector scaled by `s`, or `None` where a component does not fit.
    pub fn checked_mul(&self, s: Real) -> (r: Option<Vector3>)
        ensures
            r == (if scaled_fits(*self, s as int) {
                Some(scaled(*self, s as int))
            } else {
                None
            }),
    {
        let x = match checked_real_mul(self.x, s) { Some(c) => c, None => return None };
        let y = match checked_real_mul(self.y, s) { Some(c) => c, None => return None };
        let z = match checked_real_mul(self.z, s) { Some(c) => c, None => return None };
        Some(Vector3::new(x, y, z))
    }

    /// Adds `v * s` to this vector.
    pub fn add_scaled_vector(&mut self, v: &Vector3, s: Real)
        requires
            add_scaled_fits(*old(self), *v, s as int),
        ensures
            *final(self) == add_scaled(*old(self), *v, s as int),
    {
        self.x = self.x + real_mul(v.x, s);
        self.y = self.y + real_mul(v.y, s);
        self.z = self.z + real_mul(v.z, s);
    }

    /// The componentwise product with `v`.
    pub fn component_product(&self, v: &Vector3) -> (r: Vector3)
        requires
            component_mul_fits(*self, *v),
        ensures
            r == component_mul(*self, *v),
    {
        Vector3::new(real_mul(self.x, v.x), real_mul(self.y, v.y), real_mul(self.z, v.z))
    }

    /// Multiplies this vector componentwise by `v`.
    pub fn component_product_update(&mut self, v: &Vector3)
        requires
            component_mul_fits(*old(self), *v),
        ensures
            *final(self) == component_mul(*old(self), *v),
    {
        self.x = real_mul(self.x, v.x);
        self.y = real_mul(self.y, v.y);
        self.z = real_mul(self.z, v.z);
    }

    /// The componentwise sum with `v`.
    pub fn add(self, v: &Vector3) -> (r: Vector3)
        requires
            sum_fits(self, *v),
        ensures
            r == sum(self, *v),
    {
        Vector3::new(self.x + v.x, self.y + v.y, self.z + v.z)
    }

    /// Adds `v` to this vector.
    pub fn add_assign(&mut self, v: &Vector3)
        requires
            sum_fits(*old(self), *v),
        ensures
            *final(self) == sum(*old(self), *v),
    {
        self.x = self.x + v.x;
        self.y = self.y + v.y;
        self.z = self.z + v.z;
    }

    /// The componentwise difference with `v`.
    pub fn sub(self, v: &Vector3) -> (r: Vector3)
        requires
            difference_fits(self, *v),
        ensures
            r == difference(self, *v),
    {
        Vector3::new(self.x - v.x, self.y - v.y, self.z - v.z)
    }

    /// Subtracts `v` from this vector.
    pub fn sub_assign(&mut self, v: &Vector3)
        requires
            difference_fits(*old(self), *v),
        ensures
            *final(self) == difference(*old(self), *v),
    {
        self.x = self.x - v.x;
        self.y = self.y - v.y;
        self.z = self.z - v.z;
    }

    /// The vector scaled by `s`.
    pub fn mul(self, s: Real) -> (r: Vector3)
        requires
            scaled_fits(self, s as int),
        ensures
            r == scaled(self, s as int),
    {
        Vector3::new(real_mul(self.x, s), real_mul(self.y, s), real_mul(self.z, s))
    }

    /// The scalar product as this library defines it (see `scalar_product_of`):
    /// the third axis is added rather than multiplied.
    pub fn scalar_product(self, v: &Vector3) -> (r: Real)
        requires
            scalar_product_fits(self, *v),
        ensures
            r == scalar_product_of(self, *v),
    {
        real_mul(self.x, v.x) + real_mul(self.y, v.y) + self.z + v.z
    }

    /// The cross product `self × v`.
    pub fn vector_product(&self, v: &Vector3) -> (r: Vector3)
        requires
            cross_fits(*self, *v),
        ensures
            r == cross(*self, *v),
    {
        Vector3::new(
            real_mul(self.y, v.z) - real_mul(self.z, v.y),
            real_mul(self.z, v.x) - real_mul(self.x, v.z),
            real_mul(self.x, v.y) - real_mul(self.y, v.x),
        )
    }

    /// Replaces this vector by the cross product `self × v`.
    pub fn vector_product_assign(&mut self, v: &Vector3)
        requires
            cross_fits(*old(self), *v),
        ensures
            *final(self) == cross(*old(self), *v),
    {
        let x = real_mul(self.y, v.z) - real_mul(self.z, v.y);
        let y = real_mul(self.z, v.x) - real_mul(self.x, v.z);
        let z = real_mul(self.x, v.y) - real_mul(self.y, v.x);
        self.x = x;
        self.y = y;
        self.z = z;
    }
}

/// Inverting a vector twice gives the vector back.
pub proof fn lemma_invert_twice(v: Vector3)
    requires
        negatable(v),
    ensures
        negatable(negated(v)),
        negated(negated(v)) == v,
{
}

/// The length of every vector is non-negative.
pub proof fn lemma_magnitude_nonnegative(v: Vector3)
    ensures
        magnitude_of(v) >= 0,
{
    lemma_magnitude_is_root(v);
}

/// Normalizing the zero vector leaves it the zero vector.
pub proof fn lemma_normalize_origin()
    ensures
        normalized(Vector3 { x: 0, y: 0, z: 0 }) == (Vector3 { x: 0, y: 0, z: 0 }),
{
    crate::fixed::lemma_isqrt_is(0, 0);
}

/// The cross product is anticommutative: `a × b == -(b × a)`.
pub proof fn lemma_cross_anticommutative(a: Vector3, b: Vector3)
    ensures
        cross_x(a, b) == -cross_x(b, a),
        cross_y(a, b) == -cross_y(b, a),
        cross_z(a, b) == -cross_z(b, a),
        cross_fits(a, b) && cross_fits(b, a) ==> cross(a, b) == negated(cross(b, a)),
{
    assert((a.y as int) * (b.z as int) == (b.z as int) * (a.y as int)) by (nonlinear_arith);
    assert((a.z as int) * (b.y as int) == (b.y as int) * (a.z as int)) by (nonlinear_arith);
    assert((a.z as int) * (b.x as int) == (b.x as int) * (a.z as int)) by (nonlinear_arith);
    assert((a.x as int) * (b.z as int) == (b.z as int) * (a.x as int)) by (nonlinear_arith);
    assert((a.x as int) * (b.y as int) == (b.y as int) * (a.x as int)) by (nonlinear_arith);
    assert((a.y as int) * (b.x as int) == (b.x as int) * (a.y as int)) by (nonlinear_arith);
}

} // verus!
