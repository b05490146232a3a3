//! Fixed-point vectors and rotations.
use vstd::prelude::*;
use crate::fixed::{
    ceil_sqrt, ceil_sqrt_of, div_toward_zero, is_ceil_sqrt, lemma_ceil_sqrt_exists,
    lemma_div_toward_zero_bounds, lemma_div_toward_zero_monotone,
    lemma_div_toward_zero_remainder, lemma_product_bound, lerp,
    lerp_of, mul_div, mul_div_of, saturate, saturated, NANOS_PER_SECOND, UNIT, UNIT_SQUARED,
};

verus! {

/// A point or displacement in space, each coordinate in thousandths of a unit.
#[derive(Clone, Copy, Debug, PartialEq, Eq, Structural)]
pub struct Vec3 {
    pub x: i32,
    pub y: i32,
    pub z: i32,
}

/// The scale at which the length of an offset is taken when a direction is
/// made of it: two to the power of 31 steps to the thousandth.
pub const DIRECTION_SCALE: i128 = 0x8000_0000;

/// The square of [`DIRECTION_SCALE`].
pub const DIRECTION_SCALE_SQUARED: u128 = 0x4000_0000_0000_0000;

/// The vector of the given length that points along `(dx, dy, dz)`, each
/// coordinate rounded toward zero; the zero vector where `(dx, dy, dz)` is zero.
///
/// The length of `(dx, dy, dz)` is taken at the scale [`DIRECTION_SCALE`] and
/// rounded up there. So the result is never longer than `magnitude`, and falls
/// short of it by less than five thousandths however short `(dx, dy, dz)` is.
pub open spec fn direction_of(dx: int, dy: int, dz: int, magnitude: int) -> Vec3 {
    let length = ceil_sqrt_of((dx * dx + dy * dy + dz * dz) * DIRECTION_SCALE_SQUARED);
    if length == 0 {
        Vec3 { x: 0, y: 0, z: 0 }
    } else {
        Vec3 {
            x: saturated(mul_div_of(dx * DIRECTION_SCALE, magnitude, length)) as i32,
            y: saturated(mul_div_of(dy * DIRECTION_SCALE, magnitude, length)) as i32,
            z: saturated(mul_div_of(dz * DIRECTION_SCALE, magnitude, length)) as i32,
        }
    }
}

/// A difference of two coordinates, squared, fits in 64 bits.
proof fn lemma_square_fits(d: int)
    requires
        -0xffff_ffff <= d <= 0xffff_ffff,
    ensures
        0 <= d * d <= 0xffff_fffe_0000_0001,
{
    assert(0 <= d * d <= 0xffff_fffe_0000_0001) by (nonlinear_arith)
        requires
            -0xffff_ffff <= d <= 0xffff_ffff,
    ;
}

fn square(d: i64) -> (r: u128)
    requires
        -0xffff_ffff <= d <= 0xffff_ffff,
    ensures
        r == d * d,
        r <= 0xffff_fffe_0000_0001,
{
    proof {
        lemma_square_fits(d as int);
    }
    let wide: i128 = d as i128;
    (wide * wide) as u128
}

fn direction(dx: i64, dy: i64, dz: i64, magnitude: i32) -> (r: Vec3)
    requires
        -0xffff_ffff <= dx <= 0xffff_ffff,
        -0xffff_ffff <= dy <= 0xffff_ffff,
        -0xffff_ffff <= dz <= 0xffff_ffff,
    ensures
        r == direction_of(dx as int, dy as int, dz as int, magnitude as int),
{
    let sum: u128 = square(dx) + square(dy) + square(dz);
    assert(sum * DIRECTION_SCALE_SQUARED <= u128::MAX) by (nonlinear_arith)
        requires
            sum <= 3 * 0xffff_fffe_0000_0001,
            DIRECTION_SCALE_SQUARED == 0x4000_0000_0000_0000,
    ;
    let length: u128 = ceil_sqrt(sum * DIRECTION_SCALE_SQUARED);
    if length == 0 {
        Vec3 { x: 0, y: 0, z: 0 }
    } else {
        let l: i128 = length as i128;
        proof {
            lemma_product_bound(dx as int, DIRECTION_SCALE as int, 0xffff_ffff, 0x8000_0000);
            lemma_product_bound(dy as int, DIRECTION_SCALE as int, 0xffff_ffff, 0x8000_0000);
            lemma_product_bound(dz as int, DIRECTION_SCALE as int, 0xffff_ffff, 0x8000_0000);
        }
        Vec3 {
            x: saturate(mul_div(dx as i128 * DIRECTION_SCALE, magnitude as i128, l)),
            y: saturate(mul_div(dy as i128 * DIRECTION_SCALE, magnitude as i128, l)),
            z: saturate(mul_div(dz as i128 * DIRECTION_SCALE, magnitude as i128, l)),
        }
    }
}

/// What holds of an offset at the scale at which its length is taken: the
/// square of each scaled coordinate is at most the scaled square of the
/// length, these squares add up to it, and a scaled coordinate has the sign of
/// the coordinate.
proof fn lemma_scaled(dx: int, dy: int, dz: int)
    ensures
        ({
            let s = DIRECTION_SCALE as int;
            let n = (dx * dx + dy * dy + dz * dz) * DIRECTION_SCALE_SQUARED;
            &&& n >= 0
            &&& (dx * s) * (dx * s) <= n
            &&& (dy * s) * (dy * s) <= n
            &&& (dz * s) * (dz * s) <= n
            &&& (dx * s) * (dx * s) + (dy * s) * (dy * s) + (dz * s) * (dz * s) == n
            &&& (dx >= 0 ==> dx * s >= 0) && (dx <= 0 ==> dx * s <= 0)
            &&& (dy >= 0 ==> dy * s >= 0) && (dy <= 0 ==> dy * s <= 0)
            &&& (dz >= 0 ==> dz * s >= 0) && (dz <= 0 ==> dz * s <= 0)
            &&& (dx != 0 || dy != 0 || dz != 0) ==> n >= DIRECTION_SCALE_SQUARED
        }),
{
    let s = DIRECTION_SCALE as int;
    let ss = DIRECTION_SCALE_SQUARED as int;
    assert(s * s == ss) by (nonlinear_arith)
        requires
            s == 0x8000_0000,
            ss == 0x4000_0000_0000_0000,
    ;
    assert((dx * s) * (dx * s) == dx * dx * ss) by (nonlinear_arith)
        requires
            s * s == ss,
    ;
    assert((dy * s) * (dy * s) == dy * dy * ss) by (nonlinear_arith)
        requires
            s * s == ss,
    ;
    assert((dz * s) * (dz * s) == dz * dz * ss) by (nonlinear_arith)
        requires
            s * s == ss,
    ;
    assert(dx * dx >= 0 && dy * dy >= 0 && dz * dz >= 0) by (nonlinear_arith);
    assert(dx != 0 ==> dx * dx >= 1) by (nonlinear_arith);
    assert(dy != 0 ==> dy * dy >= 1) by (nonlinear_arith);
    assert(dz != 0 ==> dz * dz >= 1) by (nonlinear_arith);
    let xx = dx * dx;
    let yy = dy * dy;
    let zz = dz * dz;
    assert(xx * ss >= 0 && yy * ss >= 0 && zz * ss >= 0 && (xx + yy + zz) * ss == xx * ss + yy
        * ss + zz * ss && ((xx + yy + zz) >= 1 ==> (xx + yy + zz) * ss >= ss)) by (nonlinear_arith)
        requires
            xx >= 0,
            yy >= 0,
            zz >= 0,
            ss > 0,
    ;
    assert(dx >= 0 ==> dx * s >= 0) by (nonlinear_arith)
        requires
            s > 0,
    ;
    assert(dx <= 0 ==> dx * s <= 0) by (nonlinear_arith)
        requires
            s > 0,
    ;
    assert(dy >= 0 ==> dy * s >= 0) by (nonlinear_arith)
        requires
            s > 0,
    ;
    assert(dy <= 0 ==> dy * s <= 0) by (nonlinear_arith)
        requires
            s > 0,
    ;
    assert(dz >= 0 ==> dz * s >= 0) by (nonlinear_arith)
        requires
            s > 0,
    ;
    assert(dz <= 0 ==> dz * s <= 0) by (nonlinear_arith)
        requires
            s > 0,
    ;
}

/// Each coordinate of a direction has the sign of the coordinate it comes
/// from, or is zero, and is no larger in magnitude than the length asked for.
pub proof fn lemma_direction_bounded(dx: int, dy: int, dz: int, magnitude: int)
    requires
        0 <= magnitude <= i32::MAX,
    ensures
        ({
            let d = direction_of(dx, dy, dz, magnitude);
            &&& -magnitude <= d.x <= magnitude
            &&& -magnitude <= d.y <= magnitude
            &&& -magnitude <= d.z <= magnitude
            &&& (dx >= 0 ==> d.x >= 0) && (dx <= 0 ==> d.x <= 0)
            &&& (dy >= 0 ==> d.y >= 0) && (dy <= 0 ==> d.y <= 0)
            &&& (dz >= 0 ==> d.z >= 0) && (dz <= 0 ==> d.z <= 0)
        }),
{
    let s = DIRECTION_SCALE as int;
    let n = (dx * dx + dy * dy + dz * dz) * DIRECTION_SCALE_SQUARED;
    lemma_scaled(dx, dy, dz);
    lemma_ceil_sqrt_exists(n);
    let length = ceil_sqrt_of(n);
    if length != 0 {
        lemma_component_bounded(dx * s, n, length, magnitude);
        lemma_component_bounded(dy * s, n, length, magnitude);
        lemma_component_bounded(dz * s, n, length, magnitude);
    }
}

/// A direction is never longer than the length asked for.
pub proof fn lemma_direction_length(dx: int, dy: int, dz: int, magnitude: int)
    requires
        0 <= magnitude <= i32::MAX,
    ensures
        direction_of(dx, dy, dz, magnitude).spec_length_squared() <= magnitude * magnitude,
{
    let s = DIRECTION_SCALE as int;
    let n = (dx * dx + dy * dy + dz * dz) * DIRECTION_SCALE_SQUARED;
    lemma_scaled(dx, dy, dz);
    lemma_ceil_sqrt_exists(n);
    let length = ceil_sqrt_of(n);
    let d = direction_of(dx, dy, dz, magnitude);
    if length == 0 {
        assert(magnitude * magnitude >= 0) by (nonlinear_arith);
    } else {
        lemma_direction_bounded(dx, dy, dz, magnitude);
        let ll = length * length;
        let mm = magnitude * magnitude;
        let px = dx * s;
        let py = dy * s;
        let pz = dz * s;
        lemma_component_square(px, n, length, magnitude);
        lemma_component_square(py, n, length, magnitude);
        lemma_component_square(pz, n, length, magnitude);
        let x = d.x as int;
        let y = d.y as int;
        let z = d.z as int;
        assert(x * x * ll <= px * px * mm);
        assert(y * y * ll <= py * py * mm);
        assert(z * z * ll <= pz * pz * mm);
        assert((x * x + y * y + z * z) * ll <= n * mm) by (nonlinear_arith)
            requires
                x * x * ll <= px * px * mm,
                y * y * ll <= py * py * mm,
                z * z * ll <= pz * pz * mm,
                n == px * px + py * py + pz * pz,
        ;
        assert(n * mm <= ll * mm) by (nonlinear_arith)
            requires
                n <= ll,
                mm >= 0,
        ;
        assert(x * x + y * y + z * z <= mm) by (nonlinear_arith)
            requires
                (x * x + y * y + z * z) * ll <= ll * mm,
                ll > 0,
        ;
    }
}

/// A direction made of an offset that is not zero falls short of the length
/// asked for by less than five thousandths: its length squared is at least
/// the square of the length asked for less eight times that length.
pub proof fn lemma_direction_reaches(dx: int, dy: int, dz: int, magnitude: int)
    requires
        0 <= magnitude <= i32::MAX,
        dx != 0 || dy != 0 || dz != 0,
    ensures
        direction_of(dx, dy, dz, magnitude).spec_length_squared() >= magnitude * magnitude - 8
            * magnitude,
{
    let s = DIRECTION_SCALE as int;
    let ss = DIRECTION_SCALE_SQUARED as int;
    let n = (dx * dx + dy * dy + dz * dz) * DIRECTION_SCALE_SQUARED;
    lemma_scaled(dx, dy, dz);
    lemma_ceil_sqrt_exists(n);
    let length = ceil_sqrt_of(n);
    let m = magnitude;
    // the length, at its scale, is at least the scale, and so more than the length asked for
    assert(length >= s) by (nonlinear_arith)
        requires
            length >= 0,
            n <= length * length,
            n >= ss,
            ss == s * s,
            s == 0x8000_0000,
    ;
    assert(length > m);
    lemma_direction_bounded(dx, dy, dz, magnitude);
    let d = direction_of(dx, dy, dz, magnitude);
    let px = dx * s;
    let py = dy * s;
    let pz = dz * s;
    lemma_component_reaches(px, n, length, m);
    lemma_component_reaches(py, n, length, m);
    lemma_component_reaches(pz, n, length, m);
    lemma_component_bounded(px, n, length, m);
    lemma_component_bounded(py, n, length, m);
    lemma_component_bounded(pz, n, length, m);
    let x = d.x as int;
    let y = d.y as int;
    let z = d.z as int;
    let ll = length * length;
    let slack = 2 * (length - 1) * m * length;
    let total = x * x + y * y + z * z;
    assert(x * x * ll >= (px * m) * (px * m) - slack);
    assert(y * y * ll >= (py * m) * (py * m) - slack);
    assert(z * z * ll >= (pz * m) * (pz * m) - slack);
    let mm = m * m;
    assert((px * m) * (px * m) == (px * px) * mm) by (nonlinear_arith)
        requires
            mm == m * m,
    ;
    assert((py * m) * (py * m) == (py * py) * mm) by (nonlinear_arith)
        requires
            mm == m * m,
    ;
    assert((pz * m) * (pz * m) == (pz * pz) * mm) by (nonlinear_arith)
        requires
            mm == m * m,
    ;
    let pxx = px * px;
    let pyy = py * py;
    let pzz = pz * pz;
    assert(pxx * mm + pyy * mm + pzz * mm == (pxx + pyy + pzz) * mm) by (nonlinear_arith);
    assert((px * m) * (px * m) + (py * m) * (py * m) + (pz * m) * (pz * m) == n * (m * m));
    assert(total * ll >= n * (m * m) - 3 * slack) by (nonlinear_arith)
        requires
            total == x * x + y * y + z * z,
            x * x * ll >= (px * m) * (px * m) - slack,
            y * y * ll >= (py * m) * (py * m) - slack,
            z * z * ll >= (pz * m) * (pz * m) - slack,
            (px * m) * (px * m) + (py * m) * (py * m) + (pz * m) * (pz * m) == n * (m * m),
    ;
    assert(n * (m * m) >= (length - 1) * (length - 1) * (m * m)) by (nonlinear_arith)
        requires
            n > (length - 1) * (length - 1),
    ;
    assert((length - 1) * (length - 1) * (m * m) - 3 * slack >= (m * m - 8 * m) * ll)
        by (nonlinear_arith)
        requires
            slack == 2 * (length - 1) * m * length,
            ll == length * length,
            length > m,
            m >= 0,
            length >= 1,
    ;
    assert(total >= m * m - 8 * m) by (nonlinear_arith)
        requires
            total * ll >= (m * m - 8 * m) * ll,
            ll == length * length,
            length >= 1,
    ;
}

/// The square of one coordinate of a direction, times the square of the
/// length it was divided by, falls short of the square of the coordinate it
/// comes from times the length asked for by at most twice that length times
/// the length divided by less one, times the length divided by.
proof fn lemma_component_reaches(p: int, n: int, length: int, magnitude: int)
    requires
        0 <= magnitude <= i32::MAX,
        p * p <= n,
        is_ceil_sqrt(n, length),
        length > 0,
    ensures
        ({
            let r = saturated(mul_div_of(p, magnitude, length));
            r * r * (length * length) >= (p * magnitude) * (p * magnitude) - 2 * (length - 1)
                * magnitude * length
        }),
{
    lemma_component_bounded(p, n, length, magnitude);
    let q = p * magnitude;
    let r = mul_div_of(p, magnitude, length);
    assert(saturated(r) == r);
    lemma_div_toward_zero_bounds(q, length);
    lemma_div_toward_zero_remainder(q, length);
    let a = if q >= 0 {
        q
    } else {
        -q
    };
    let b = if q >= 0 {
        r * length
    } else {
        -(r * length)
    };
    assert(0 <= a - b <= length - 1);
    assert(r >= 0 ==> r * length >= 0) by (nonlinear_arith)
        requires
            length > 0,
    ;
    assert(r <= 0 ==> r * length <= 0) by (nonlinear_arith)
        requires
            length > 0,
    ;
    assert(b >= 0);
    assert(a * a == q * q) by (nonlinear_arith)
        requires
            a == q || a == -q,
    ;
    assert(b * b == r * r * (length * length)) by (nonlinear_arith)
        requires
            b == r * length || b == -(r * length),
    ;
    // the scaled coordinate is at most the length, so the product at most the two lengths'
    assert(-length <= p <= length) by (nonlinear_arith)
        requires
            p * p <= n,
            n <= length * length,
            length > 0,
    ;
    assert(a <= magnitude * length) by (nonlinear_arith)
        requires
            -length <= p <= length,
            magnitude >= 0,
            q == p * magnitude,
            a == q || a == -q,
    ;
    assert(b * b >= a * a - 2 * (length - 1) * a) by (nonlinear_arith)
        requires
            0 <= a - b <= length - 1,
            b >= 0,
            a >= 0,
    ;
    assert(2 * (length - 1) * a <= 2 * (length - 1) * magnitude * length) by (nonlinear_arith)
        requires
            a <= magnitude * length,
            length >= 1,
    ;
}

/// The square of one coordinate of a direction, times the square of the
/// length it was divided by, is at most the square of the coordinate it comes
/// from times the square of the length asked for.
proof fn lemma_component_square(d: int, n: int, length: int, magnitude: int)
    requires
        0 <= magnitude <= i32::MAX,
        d * d <= n,
        is_ceil_sqrt(n, length),
        length > 0,
    ensures
        ({
            let r = saturated(mul_div_of(d, magnitude, length));
            r * r * (length * length) <= d * d * (magnitude * magnitude)
        }),
        length * length > 0,
        magnitude * magnitude >= 0,
{
    lemma_component_bounded(d, n, length, magnitude);
    let q = mul_div_of(d, magnitude, length);
    let r = saturated(q);
    assert(r == q);
    lemma_div_toward_zero_bounds(d * magnitude, length);
    let p = d * magnitude;
    assert(r >= 0 ==> r * length >= 0) by (nonlinear_arith)
        requires
            length > 0,
    ;
    assert(r <= 0 ==> r * length <= 0) by (nonlinear_arith)
        requires
            length > 0,
    ;
    assert(r * r * (length * length) <= p * p) by (nonlinear_arith)
        requires
            (p >= 0 ==> 0 <= r * length <= p),
            (p <= 0 ==> p <= r * length <= 0),
    ;
    assert(p * p == d * d * (magnitude * magnitude)) by (nonlinear_arith)
        requires
            p == d * magnitude,
    ;
    assert(length * length > 0) by (nonlinear_arith)
        requires
            length > 0,
    ;
    assert(magnitude * magnitude >= 0) by (nonlinear_arith);
}

/// One coordinate of a direction: bounded by the length asked for, with the
/// sign of the coordinate it comes from.
proof fn lemma_component_bounded(d: int, n: int, length: int, magnitude: int)
    requires
        0 <= magnitude <= i32::MAX,
        d * d <= n,
        is_ceil_sqrt(n, length),
        length > 0,
    ensures
        -magnitude <= mul_div_of(d, magnitude, length) <= magnitude,
        -magnitude <= saturated(mul_div_of(d, magnitude, length)) <= magnitude,
        d >= 0 ==> saturated(mul_div_of(d, magnitude, length)) >= 0,
        d <= 0 ==> saturated(mul_div_of(d, magnitude, length)) <= 0,
{
    assert(-length <= d <= length) by (nonlinear_arith)
        requires
            d * d <= n,
            n <= length * length,
            length > 0,
    ;
    assert(-(length * magnitude) <= d * magnitude <= length * magnitude) by (nonlinear_arith)
        requires
            -length <= d <= length,
            magnitude >= 0,
    ;
    assert(d >= 0 ==> d * magnitude >= 0) by (nonlinear_arith)
        requires
            magnitude >= 0,
    ;
    assert(d <= 0 ==> d * magnitude <= 0) by (nonlinear_arith)
        requires
            magnitude >= 0,
    ;
    lemma_div_toward_zero_bounds(d * magnitude, length);
    lemma_div_toward_zero_monotone(d * magnitude, length * magnitude, length);
    lemma_div_toward_zero_monotone(-(length * magnitude), d * magnitude, length);
    assert(div_toward_zero(length * magnitude, length) == magnitude) by {
        assert(length * magnitude >= 0) by (nonlinear_arith)
            requires
                length > 0,
                magnitude >= 0,
        ;
        assert((length * magnitude) / length == magnitude) by (nonlinear_arith)
            requires
                length > 0,
        ;
    }
    assert(div_toward_zero(-(length * magnitude), length) == -magnitude) by {
        assert(length * magnitude >= 0) by (nonlinear_arith)
            requires
                length > 0,
                magnitude >= 0,
        ;
        assert((length * magnitude) / length == magnitude) by (nonlinear_arith)
            requires
                length > 0,
        ;
    }
}

impl Vec3 {
    pub fn new(x: i32, y: i32, z: i32) -> (r: Self)
        ensures
            r == (Vec3 { x, y, z }),
    {
        Vec3 { x, y, z }
    }

    /// The origin.
    pub open spec fn spec_zero() -> Vec3 {
        Vec3 { x: 0, y: 0, z: 0 }
    }

    #[verifier::when_used_as_spec(spec_zero)]
    pub fn zero() -> (r: Self)
        ensures
            r == Self::spec_zero(),
    {
        Vec3 { x: 0, y: 0, z: 0 }
    }

    /// Coordinate-wise sum; a coordinate that leaves the range of `i32` stops at its end.
    pub open spec fn spec_plus(self, other: Vec3) -> Vec3 {
        Vec3 {
            x: saturated(self.x + other.x) as i32,
            y: saturated(self.y + other.y) as i32,
            z: saturated(self.z + other.z) as i32,
        }
    }

    #[verifier::when_used_as_spec(spec_plus)]
    pub fn plus(self, other: Vec3) -> (r: Vec3)
        ensures
            r == self.spec_plus(other),
    {
        Vec3 {
            x: saturate(self.x as i128 + other.x as i128),
            y: saturate(self.y as i128 + other.y as i128),
            z: saturate(self.z as i128 + other.z as i128),
        }
    }

    /// Coordinate-wise difference; a coordinate that leaves the range of `i32` stops at its end.
    pub open spec fn spec_minus(self, other: Vec3) -> Vec3 {
        Vec3 {
            x: saturated(self.x - other.x) as i32,
            y: saturated(self.y - other.y) as i32,
            z: saturated(self.z - other.z) as i32,
        }
    }

    #[verifier::when_used_as_spec(spec_minus)]
    pub fn minus(self, other: Vec3) -> (r: Vec3)
        ensures
            r == self.spec_minus(other),
    {
        Vec3 {
            x: saturate(self.x as i128 - other.x as i128),
            y: saturate(self.y as i128 - other.y as i128),
            z: saturate(self.z as i128 - other.z as i128),
        }
    }

    /// The square of the distance between two points, in squared thousandths.
    pub open spec fn spec_distance_squared(self, other: Vec3) -> int {
        (self.x - other.x) * (self.x - other.x) + (self.y - other.y) * (self.y - other.y) + (
        self.z - other.z) * (self.z - other.z)
    }

    pub fn distance_squared(self, other: Vec3) -> (r: u128)
        ensures
            r == self.spec_distance_squared(other),
    {
        square(self.x as i64 - other.x as i64) + square(self.y as i64 - other.y as i64) + square(
            self.z as i64 - other.z as i64,
        )
    }

    /// The square of the vector's length.
    pub open spec fn spec_length_squared(self) -> int {
        self.x * self.x + self.y * self.y + self.z * self.z
    }

    pub fn length_squared(self) -> (r: u128)
        ensures
            r == self.spec_length_squared(),
    {
        square(self.x as i64) + square(self.y as i64) + square(self.z as i64)
    }

    /// The vector of length `magnitude` that points from `self` to `target`.
    pub open spec fn spec_toward(self, target: Vec3, magnitude: i32) -> Vec3 {
        direction_of(target.x - self.x, target.y - self.y, target.z - self.z, magnitude as int)
    }

    #[verifier::when_used_as_spec(spec_toward)]
    pub fn toward(self, target: Vec3, magnitude: i32) -> (r: Vec3)
        ensures
            r == self.spec_toward(target, magnitude),
    {
        direction(
            target.x as i64 - self.x as i64,
            target.y as i64 - self.y as i64,
            target.z as i64 - self.z as i64,
            magnitude,
        )
    }

    /// The vector of length `magnitude` along `self`; zero where `self` is zero.
    pub open spec fn spec_with_length(self, magnitude: i32) -> Vec3 {
        direction_of(self.x as int, self.y as int, self.z as int, magnitude as int)
    }

    #[verifier::when_used_as_spec(spec_with_length)]
    pub fn with_length(self, magnitude: i32) -> (r: Vec3)
        ensures
            r == self.spec_with_length(magnitude),
    {
        direction(self.x as i64, self.y as i64, self.z as i64, magnitude)
    }

    /// The point `ratio` of the way from `self` to `end`.
    pub open spec fn spec_lerp(self, end: Vec3, ratio: u32) -> Vec3 {
        Vec3 {
            x: lerp_of(self.x as int, end.x as int, ratio) as i32,
            y: lerp_of(self.y as int, end.y as int, ratio) as i32,
            z: lerp_of(self.z as int, end.z as int, ratio) as i32,
        }
    }

    #[verifier::when_used_as_spec(spec_lerp)]
    pub fn lerp(self, end: Vec3, ratio: u32) -> (r: Vec3)
        ensures
            r == self.spec_lerp(end, ratio),
    {
        Vec3 {
            x: lerp(self.x, end.x, ratio),
            y: lerp(self.y, end.y, ratio),
            z: lerp(self.z, end.z, ratio),
        }
    }

    /// What a rate of `self` per second amounts to over `nanos` nanoseconds,
    /// each coordinate rounded toward zero and held to the range of `i32`.
    pub open spec fn spec_over_time(self, nanos: u64) -> Vec3 {
        Vec3 {
            x: saturated(mul_div_of(nanos as int, self.x as int, NANOS_PER_SECOND as int)) as i32,
            y: saturated(mul_div_of(nanos as int, self.y as int, NANOS_PER_SECOND as int)) as i32,
            z: saturated(mul_div_of(nanos as int, self.z as int, NANOS_PER_SECOND as int)) as i32,
        }
    }

    #[verifier::when_used_as_spec(spec_over_time)]
    pub fn over_time(self, nanos: u64) -> (r: Vec3)
        ensures
            r == self.spec_over_time(nanos),
    {
        Vec3 {
            x: saturate(mul_div(nanos as i128, self.x as i128, NANOS_PER_SECOND as i128)),
            y: saturate(mul_div(nanos as i128, self.y as i128, NANOS_PER_SECOND as i128)),
            z: saturate(mul_div(nanos as i128, self.z as i128, NANOS_PER_SECOND as i128)),
        }
    }

    /// The vector times a fixed-point factor, each coordinate rounded toward
    /// zero and held to the range of `i32`.
    pub open spec fn spec_scaled(self, factor: i32) -> Vec3 {
        Vec3 {
            x: saturated(mul_div_of(self.x as int, factor as int, UNIT as int)) as i32,
            y: saturated(mul_div_of(self.y as int, factor as int, UNIT as int)) as i32,
            z: saturated(mul_div_of(self.z as int, factor as int, UNIT as int)) as i32,
        }
    }

    #[verifier::when_used_as_spec(spec_scaled)]
    pub fn scaled(self, factor: i32) -> (r: Vec3)
        ensures
            r == self.spec_scaled(factor),
    {
        Vec3 {
            x: saturate(mul_div(self.x as i128, factor as i128, UNIT as i128)),
            y: saturate(mul_div(self.y as i128, factor as i128, UNIT as i128)),
            z: saturate(mul_div(self.z as i128, factor as i128, UNIT as i128)),
        }
    }
}

/// A direction on the plane of play, as the controls give it.
#[derive(Clone, Copy, Debug, PartialEq, Eq, Structural)]
pub struct Vec2 {
    pub x: i32,
    pub y: i32,
}

impl Vec2 {
    pub fn new(x: i32, y: i32) -> (r: Self)
        ensures
            r == (Vec2 { x, y }),
    {
        Vec2 { x, y }
    }

    /// Coordinate-wise sum; a coordinate that leaves the range of `i32` stops at its end.
    pub open spec fn spec_plus(self, other: Vec2) -> Vec2 {
        Vec2 {
            x: saturated(self.x + other.x) as i32,
            y: saturated(self.y + other.y) as i32,
        }
    }

    #[verifier::when_used_as_spec(spec_plus)]
    pub fn plus(self, other: Vec2) -> (r: Vec2)
        ensures
            r == self.spec_plus(other),
    {
        Vec2 {
            x: saturate(self.x as i128 + other.x as i128),
            y: saturate(self.y as i128 + other.y as i128),
        }
    }
}

/// A rotation as a quaternion, each part in thousandths. The library carries
/// and blends rotations; it does not bring a blend back to unit length.
#[derive(Clone, Copy, Debug, PartialEq, Eq, Structural)]
pub struct Quat {
    pub x: i32,
    pub y: i32,
    pub z: i32,
    pub w: i32,
}

impl Quat {
    pub fn new(x: i32, y: i32, z: i32, w: i32) -> (r: Self)
        ensures
            r == (Quat { x, y, z, w }),
    {
        Quat { x, y, z, w }
    }

    /// The rotation that turns nothing.
    pub open spec fn spec_identity() -> Quat {
        Quat { x: 0, y: 0, z: 0, w: UNIT }
    }

    #[verifier::when_used_as_spec(spec_identity)]
    pub fn identity() -> (r: Self)
        ensures
            r == Self::spec_identity(),
    {
        Quat { x: 0, y: 0, z: 0, w: UNIT }
    }

    /// `v` turned by the rotation, each coordinate rounded toward zero and
    /// held to the range of `i32`. For a quaternion of length one this is the
    /// turned vector; for any other the vector is scaled as well.
    pub open spec fn spec_rotated(self, v: Vec3) -> Vec3 {
        let square = self.w * self.w - (self.x * self.x + self.y * self.y + self.z * self.z);
        let along = 2 * (v.x * self.x + v.y * self.y + v.z * self.z);
        let one = UNIT_SQUARED as int;
        Vec3 {
            x: saturated(
                div_toward_zero(
                    v.x * square + self.x * along + (self.y * v.z - self.z * v.y) * (2 * self.w),
                    one,
                ),
            ) as i32,
            y: saturated(
                div_toward_zero(
                    v.y * square + self.y * along + (self.z * v.x - self.x * v.z) * (2 * self.w),
                    one,
                ),
            ) as i32,
            z: saturated(
                div_toward_zero(
                    v.z * square + self.z * along + (self.x * v.y - self.y * v.x) * (2 * self.w),
                    one,
                ),
            ) as i32,
        }
    }

    #[verifier::when_used_as_spec(spec_rotated)]
    pub fn rotated(self, v: Vec3) -> (r: Vec3)
        ensures
            r == self.spec_rotated(v),
    {
        let x: i128 = self.x as i128;
        let y: i128 = self.y as i128;
        let z: i128 = self.z as i128;
        let w: i128 = self.w as i128;
        let vx: i128 = v.x as i128;
        let vy: i128 = v.y as i128;
        let vz: i128 = v.z as i128;
        proof {
            lemma_product_bound(w as int, w as int, 0x8000_0000, 0x8000_0000);
            lemma_product_bound(x as int, x as int, 0x8000_0000, 0x8000_0000);
            lemma_product_bound(y as int, y as int, 0x8000_0000, 0x8000_0000);
            lemma_product_bound(z as int, z as int, 0x8000_0000, 0x8000_0000);
            lemma_product_bound(vx as int, x as int, 0x8000_0000, 0x8000_0000);
            lemma_product_bound(vy as int, y as int, 0x8000_0000, 0x8000_0000);
            lemma_product_bound(vz as int, z as int, 0x8000_0000, 0x8000_0000);
            lemma_product_bound(y as int, vz as int, 0x8000_0000, 0x8000_0000);
            lemma_product_bound(z as int, vy as int, 0x8000_0000, 0x8000_0000);
            lemma_product_bound(z as int, vx as int, 0x8000_0000, 0x8000_0000);
            lemma_product_bound(x as int, vz as int, 0x8000_0000, 0x8000_0000);
            lemma_product_bound(x as int, vy as int, 0x8000_0000, 0x8000_0000);
            lemma_product_bound(y as int, vx as int, 0x8000_0000, 0x8000_0000);
        }
        let square: i128 = w * w - (x * x + y * y + z * z);
        let along: i128 = 2 * (vx * x + vy * y + vz * z);
        let cx: i128 = y * vz - z * vy;
        let cy: i128 = z * vx - x * vz;
        let cz: i128 = x * vy - y * vx;
        let w2: i128 = 2 * w;
        proof {
            let big = 0x1_0000_0000_0000_0000int;
            lemma_product_bound(vx as int, square as int, 0x8000_0000, big);
            lemma_product_bound(vy as int, square as int, 0x8000_0000, big);
            lemma_product_bound(vz as int, square as int, 0x8000_0000, big);
            lemma_product_bound(x as int, along as int, 0x8000_0000, 2 * big);
            lemma_product_bound(y as int, along as int, 0x8000_0000, 2 * big);
            lemma_product_bound(z as int, along as int, 0x8000_0000, 2 * big);
            lemma_product_bound(cx as int, w2 as int, big, 0x1_0000_0000);
            lemma_product_bound(cy as int, w2 as int, big, 0x1_0000_0000);
            lemma_product_bound(cz as int, w2 as int, big, 0x1_0000_0000);
        }
        let one: i128 = UNIT_SQUARED;
        Vec3 {
            x: saturate((vx * square + x * along + cx * w2) / one),
            y: saturate((vy * square + y * along + cy * w2) / one),
            z: saturate((vz * square + z * along + cz * w2) / one),
        }
    }

    /// The rotation that turns by `other` first and by `self` second, each
    /// part rounded toward zero and held to the range of `i32`.
    pub open spec fn spec_times(self, other: Quat) -> Quat {
        let one = UNIT as int;
        Quat {
            x: saturated(
                div_toward_zero(
                    self.w * other.x + self.x * other.w + self.y * other.z - self.z * other.y,
                    one,
                ),
            ) as i32,
            y: saturated(
                div_toward_zero(
                    self.w * other.y - self.x * other.z + self.y * other.w + self.z * other.x,
                    one,
                ),
            ) as i32,
            z: saturated(
                div_toward_zero(
                    self.w * other.z + self.x * other.y - self.y * other.x + self.z * other.w,
                    one,
                ),
            ) as i32,
            w: saturated(
                div_toward_zero(
                    self.w * other.w - self.x * other.x - self.y * other.y - self.z * other.z,
                    one,
                ),
            ) as i32,
        }
    }

    #[verifier::when_used_as_spec(spec_times)]
    pub fn times(self, other: Quat) -> (r: Quat)
        ensures
            r == self.spec_times(other),
    {
        let x: i128 = self.x as i128;
        let y: i128 = self.y as i128;
        let z: i128 = self.z as i128;
        let w: i128 = self.w as i128;
        let ox: i128 = other.x as i128;
        let oy: i128 = other.y as i128;
        let oz: i128 = other.z as i128;
        let ow: i128 = other.w as i128;
        proof {
            lemma_product_bound(w as int, ox as int, 0x8000_0000, 0x8000_0000);
            lemma_product_bound(w as int, oy as int, 0x8000_0000, 0x8000_0000);
            lemma_product_bound(w as int, oz as int, 0x8000_0000, 0x8000_0000);
            lemma_product_bound(w as int, ow as int, 0x8000_0000, 0x8000_0000);
            lemma_product_bound(x as int, ox as int, 0x8000_0000, 0x8000_0000);
            lemma_product_bound(x as int, oy as int, 0x8000_0000, 0x8000_0000);
            lemma_product_bound(x as int, oz as int, 0x8000_0000, 0x8000_0000);
            lemma_product_bound(x as int, ow as int, 0x8000_0000, 0x8000_0000);
            lemma_product_bound(y as int, ox as int, 0x8000_0000, 0x8000_0000);
            lemma_product_bound(y as int, oy as int, 0x8000_0000, 0x8000_0000);
            lemma_product_bound(y as int, oz as int, 0x8000_0000, 0x8000_0000);
            lemma_product_bound(y as int, ow as int, 0x8000_0000, 0x8000_0000);
            lemma_product_bound(z as int, ox as int, 0x8000_0000, 0x8000_0000);
            lemma_product_bound(z as int, oy as int, 0x8000_0000, 0x8000_0000);
            lemma_product_bound(z as int, oz as int, 0x8000_0000, 0x8000_0000);
            lemma_product_bound(z as int, ow as int, 0x8000_0000, 0x8000_0000);
        }
        let one: i128 = UNIT as i128;
        Quat {
            x: saturate((w * ox + x * ow + y * oz - z * oy) / one),
            y: saturate((w * oy - x * oz + y * ow + z * ox) / one),
            z: saturate((w * oz + x * oy - y * ox + z * ow) / one),
            w: saturate((w * ow - x * ox - y * oy - z * oz) / one),
        }
    }

    /// The four-dimensional dot product.
    pub open spec fn spec_dot(self, other: Quat) -> int {
        self.x * other.x + self.y * other.y + self.z * other.z + self.w * other.w
    }

    /// `end`, or its negative where that lies nearer to `self`: both stand for
    /// the same rotation.
    pub open spec fn spec_nearest(self, end: Quat) -> Quat {
        if self.spec_dot(end) >= 0 {
            end
        } else {
            Quat {
                x: saturated(-end.x) as i32,
                y: saturated(-end.y) as i32,
                z: saturated(-end.z) as i32,
                w: saturated(-end.w) as i32,
            }
        }
    }

    /// The blend `ratio` of the way from `self` to the nearer form of `end`,
    /// part by part.
    pub open spec fn spec_lerp(self, end: Quat, ratio: u32) -> Quat {
        let target = self.spec_nearest(end);
        Quat {
            x: lerp_of(self.x as int, target.x as int, ratio) as i32,
            y: lerp_of(self.y as int, target.y as int, ratio) as i32,
            z: lerp_of(self.z as int, target.z as int, ratio) as i32,
            w: lerp_of(self.w as int, target.w as int, ratio) as i32,
        }
    }

    #[verifier::when_used_as_spec(spec_lerp)]
    pub fn lerp(self, end: Quat, ratio: u32) -> (r: Quat)
        ensures
            r == self.spec_lerp(end, ratio),
    {
        proof {
            lemma_product_bound(self.x as int, end.x as int, 0x8000_0000, 0x8000_0000);
            lemma_product_bound(self.y as int, end.y as int, 0x8000_0000, 0x8000_0000);
            lemma_product_bound(self.z as int, end.z as int, 0x8000_0000, 0x8000_0000);
            lemma_product_bound(self.w as int, end.w as int, 0x8000_0000, 0x8000_0000);
        }
        let dot: i128 = self.x as i128 * end.x as i128 + self.y as i128 * end.y as i128 + self.z as i128
            * end.z as i128 + self.w as i128 * end.w as i128;
        let target: Quat = if dot >= 0 {
            end
        } else {
            Quat {
                x: saturate(-(end.x as i128)),
                y: saturate(-(end.y as i128)),
                z: saturate(-(end.z as i128)),
                w: saturate(-(end.w as i128)),
            }
        };
        Quat {
            x: lerp(self.x, target.x, ratio),
            y: lerp(self.y, target.y, ratio),
            z: lerp(self.z, target.z, ratio),
            w: lerp(self.w, target.w, ratio),
        }
    }
}

} // verus!
