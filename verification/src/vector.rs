//! Immutable vector value types with componentwise arithmetic and
//! Euclidean magnitude.
//!
//! `Vector2i` holds integer screen coordinates; `Vector3` and `Vector4`
//! hold fixed-point world coordinates.  A `Vector3` promotes to a
//! homogeneous `Vector4` (w = 1) for matrix multiplication and demotes
//! back by dropping w.

use vstd::prelude::*;

use crate::fx::{Fx, FX_ONE, fx_mul_spec, isqrt128};

verus! {

/// Euclidean magnitude, as the floor of the square root of the sum of
/// squared components (`mag_sq`), in raw fixed-point units.
pub trait Magnitude {
    /// The sum of the squared raw components.
    spec fn mag_sq(&self) -> int;

    /// Bounds under which the magnitude can be computed and fits an `Fx`.
    spec fn mag_ok(&self) -> bool;

    fn magnitude(&self) -> (r: Fx)
        requires
            self.mag_ok(),
        ensures
            r.raw >= 0,
            r.raw * r.raw <= self.mag_sq(),
            self.mag_sq() < (r.raw + 1) * (r.raw + 1),
    ;
}

/// An integer 2-vector (screen cell coordinates).
#[derive(Clone, Copy, Debug, PartialEq, Eq, Structural)]
pub struct Vector2i {
    pub x: i32,
    pub y: i32,
}

/// A fixed-point 3-vector (world coordinates).
#[derive(Clone, Copy, Debug, PartialEq, Eq, Structural)]
pub struct Vector3 {
    pub x: Fx,
    pub y: Fx,
    pub z: Fx,
}

/// A homogeneous fixed-point 4-vector.
#[derive(Clone, Copy, Debug, PartialEq, Eq, Structural)]
pub struct Vector4 {
    pub x: Fx,
    pub y: Fx,
    pub z: Fx,
    pub w: Fx,
}

impl Vector2i {
    pub fn new(x: i32, y: i32) -> (r: Vector2i)
        ensures
            r.x == x,
            r.y == y,
    {
        Vector2i { x, y }
    }

    pub fn x(&self) -> (r: i32)
        ensures
            r == self.x,
    {
        self.x
    }

    pub fn y(&self) -> (r: i32)
        ensures
            r == self.y,
    {
        self.y
    }

    pub fn set_x(&mut self, v: i32)
        ensures
            final(self).x == v,
            final(self).y == old(self).y,
    {
        self.x = v;
    }

    pub fn set_y(&mut self, v: i32)
        ensures
            final(self).x == old(self).x,
            final(self).y == v,
    {
        self.y = v;
    }

    pub fn add(self, rhs: Vector2i) -> (r: Vector2i)
        requires
            i32::MIN <= self.x + rhs.x <= i32::MAX,
            i32::MIN <= self.y + rhs.y <= i32::MAX,
        ensures
            r.x == self.x + rhs.x,
            r.y == self.y + rhs.y,
    {
        Vector2i { x: self.x + rhs.x, y: self.y + rhs.y }
    }

    pub fn sub(self, rhs: Vector2i) -> (r: Vector2i)
        requires
            i32::MIN <= self.x - rhs.x <= i32::MAX,
            i32::MIN <= self.y - rhs.y <= i32::MAX,
        ensures
            r.x == self.x - rhs.x,
            r.y == self.y - rhs.y,
    {
        Vector2i { x: self.x - rhs.x, y: self.y - rhs.y }
    }

    pub fn mul(self, rhs: Vector2i) -> (r: Vector2i)
        requires
            i32::MIN <= self.x * rhs.x <= i32::MAX,
            i32::MIN <= self.y * rhs.y <= i32::MAX,
        ensures
            r.x == self.x * rhs.x,
            r.y == self.y * rhs.y,
    {
        Vector2i { x: self.x * rhs.x, y: self.y * rhs.y }
    }
}

impl Magnitude for Vector2i {
    open spec fn mag_sq(&self) -> int {
        (self.x * self.x + self.y * self.y) * 0x1_0000_0000
    }

    open spec fn mag_ok(&self) -> bool {
        true
    }

    fn magnitude(&self) -> (r: Fx) {
        let ax: u64 = if self.x >= 0 {
            self.x as u64
        } else {
            (-(self.x as i64)) as u64
        };
        let ay: u64 = if self.y >= 0 {
            self.y as u64
        } else {
            (-(self.y as i64)) as u64
        };
        proof {
            assert(ax * ax == (self.x as int) * (self.x as int) && ax <= 0x8000_0000u64)
                by (nonlinear_arith)
                requires
                    ax == if self.x >= 0 { self.x as int } else { -(self.x as int) },
                    -0x8000_0000 <= self.x as int <= 0x7fff_ffff,
            ;
            assert(ay * ay == (self.y as int) * (self.y as int) && ay <= 0x8000_0000u64)
                by (nonlinear_arith)
                requires
                    ay == if self.y >= 0 { self.y as int } else { -(self.y as int) },
                    -0x8000_0000 <= self.y as int <= 0x7fff_ffff,
            ;
            assert(ax * ax <= 0x4000_0000_0000_0000u64 && ay * ay <= 0x4000_0000_0000_0000u64)
                by (nonlinear_arith)
                requires
                    ax <= 0x8000_0000u64,
                    ay <= 0x8000_0000u64,
            ;
        }
        let s: u64 = ax * ax + ay * ay;
        let n: u128 = (s as u128) * 0x1_0000_0000u128;
        proof {
            assert(n == self.mag_sq());
            assert(n <= 0x8000_0000_0000_0000u128 * 0x1_0000_0000u128) by (nonlinear_arith)
                requires
                    n == (s as int) * 0x1_0000_0000,
                    s <= 0x8000_0000_0000_0000u64,
            ;
        }
        let r: u64 = isqrt128(n);
        proof {
            if r >= 0x8000_0000_0000_0000u64 {
                assert((r as int) * (r as int) > 0x8000_0000_0000_0000 * 0x1_0000_0000)
                    by (nonlinear_arith)
                    requires
                        r as int >= 0x8000_0000_0000_0000,
                ;
            }
        }
        Fx { raw: r as i64 }
    }
}

impl Vector3 {
    pub fn new(x: Fx, y: Fx, z: Fx) -> (r: Vector3)
        ensures
            r.x == x,
            r.y == y,
            r.z == z,
    {
        Vector3 { x, y, z }
    }

    /// Demotion from homogeneous form: drops w.
    pub fn from(vec: &Vector4) -> (r: Vector3)
        ensures
            r.x == vec.x,
            r.y == vec.y,
            r.z == vec.z,
    {
        Vector3 { x: vec.x, y: vec.y, z: vec.z }
    }

    pub fn x(&self) -> (r: Fx)
        ensures
            r == self.x,
    {
        self.x
    }

    pub fn y(&self) -> (r: Fx)
        ensures
            r == self.y,
    {
        self.y
    }

    pub fn z(&self) -> (r: Fx)
        ensures
            r == self.z,
    {
        self.z
    }

    pub fn set_x(&mut self, v: Fx)
        ensures
            *final(self) == (Vector3 { x: v, ..*old(self) }),
    {
        self.x = v;
    }

    pub fn set_y(&mut self, v: Fx)
        ensures
            *final(self) == (Vector3 { y: v, ..*old(self) }),
    {
        self.y = v;
    }

    pub fn set_z(&mut self, v: Fx)
        ensures
            *final(self) == (Vector3 { z: v, ..*old(self) }),
    {
        self.z = v;
    }

    pub fn add(self, rhs: Vector3) -> (r: Vector3)
        requires
            i64::MIN <= self.x.raw + rhs.x.raw <= i64::MAX,
            i64::MIN <= self.y.raw + rhs.y.raw <= i64::MAX,
            i64::MIN <= self.z.raw + rhs.z.raw <= i64::MAX,
        ensures
            r.x.raw == self.x.raw + rhs.x.raw,
            r.y.raw == self.y.raw + rhs.y.raw,
            r.z.raw == self.z.raw + rhs.z.raw,
    {
        Vector3 { x: self.x.add(rhs.x), y: self.y.add(rhs.y), z: self.z.add(rhs.z) }
    }

    pub fn sub(self, rhs: Vector3) -> (r: Vector3)
        requires
            i64::MIN <= self.x.raw - rhs.x.raw <= i64::MAX,
            i64::MIN <= self.y.raw - rhs.y.raw <= i64::MAX,
            i64::MIN <= self.z.raw - rhs.z.raw <= i64::MAX,
        ensures
            r.x.raw == self.x.raw - rhs.x.raw,
            r.y.raw == self.y.raw - rhs.y.raw,
            r.z.raw == self.z.raw - rhs.z.raw,
    {
        Vector3 { x: self.x.sub(rhs.x), y: self.y.sub(rhs.y), z: self.z.sub(rhs.z) }
    }

    pub fn mul(self, rhs: Vector3) -> (r: Vector3)
        requires
            i64::MIN <= fx_mul_spec(self.x.raw as int, rhs.x.raw as int) <= i64::MAX,
            i64::MIN <= fx_mul_spec(self.y.raw as int, rhs.y.raw as int) <= i64::MAX,
            i64::MIN <= fx_mul_spec(self.z.raw as int, rhs.z.raw as int) <= i64::MAX,
        ensures
            r.x.raw == fx_mul_spec(self.x.raw as int, rhs.x.raw as int),
            r.y.raw == fx_mul_spec(self.y.raw as int, rhs.y.raw as int),
            r.z.raw == fx_mul_spec(self.z.raw as int, rhs.z.raw as int),
    {
        Vector3 { x: self.x.mul(rhs.x), y: self.y.mul(rhs.y), z: self.z.mul(rhs.z) }
    }

    /// Componentwise scaling by one fixed-point factor.
    pub fn mul_scalar(self, rhs: Fx) -> (r: Vector3)
        requires
            i64::MIN <= fx_mul_spec(self.x.raw as int, rhs.raw as int) <= i64::MAX,
            i64::MIN <= fx_mul_spec(self.y.raw as int, rhs.raw as int) <= i64::MAX,
            i64::MIN <= fx_mul_spec(self.z.raw as int, rhs.raw as int) <= i64::MAX,
        ensures
            r.x.raw == fx_mul_spec(self.x.raw as int, rhs.raw as int),
            r.y.raw == fx_mul_spec(self.y.raw as int, rhs.raw as int),
            r.z.raw == fx_mul_spec(self.z.raw as int, rhs.raw as int),
    {
        Vector3 { x: self.x.mul(rhs), y: self.y.mul(rhs), z: self.z.mul(rhs) }
    }
}

impl Magnitude for Vector3 {
    open spec fn mag_sq(&self) -> int {
        self.x.raw * self.x.raw + self.y.raw * self.y.raw + self.z.raw * self.z.raw
    }

    open spec fn mag_ok(&self) -> bool {
        -0x4000_0000 <= self.x.raw <= 0x4000_0000 && -0x4000_0000 <= self.y.raw <= 0x4000_0000
            && -0x4000_0000 <= self.z.raw <= 0x4000_0000
    }

    fn magnitude(&self) -> (r: Fx) {
        let s: u64 = sum_sq3(self.x.raw, self.y.raw, self.z.raw);
        let r: u64 = isqrt128(s as u128);
        proof {
            if r >= 0x1_0000_0000u64 {
                assert((r as int) * (r as int) >= 0x1_0000_0000 * 0x1_0000_0000)
                    by (nonlinear_arith)
                    requires
                        r as int >= 0x1_0000_0000,
                ;
            }
        }
        Fx { raw: r as i64 }
    }
}

impl Vector4 {
    pub fn new(x: Fx, y: Fx, z: Fx, w: Fx) -> (r: Vector4)
        ensures
            r.x == x,
            r.y == y,
            r.z == z,
            r.w == w,
    {
        Vector4 { x, y, z, w }
    }

    /// Promotion to homogeneous form: w becomes 1.
    pub fn from(vec: &Vector3) -> (r: Vector4)
        ensures
            r.x == vec.x,
            r.y == vec.y,
            r.z == vec.z,
            r.w.raw == FX_ONE,
    {
        Vector4 { x: vec.x, y: vec.y, z: vec.z, w: Fx { raw: FX_ONE } }
    }

    pub fn x(&self) -> (r: Fx)
        ensures
            r == self.x,
    {
        self.x
    }

    pub fn y(&self) -> (r: Fx)
        ensures
            r == self.y,
    {
        self.y
    }

    pub fn z(&self) -> (r: Fx)
        ensures
            r == self.z,
    {
        self.z
    }

    pub fn w(&self) -> (r: Fx)
        ensures
            r == self.w,
    {
        self.w
    }

    pub fn add(self, rhs: Vector4) -> (r: Vector4)
        requires
            i64::MIN <= self.x.raw + rhs.x.raw <= i64::MAX,
            i64::MIN <= self.y.raw + rhs.y.raw <= i64::MAX,
            i64::MIN <= self.z.raw + rhs.z.raw <= i64::MAX,
            i64::MIN <= self.w.raw + rhs.w.raw <= i64::MAX,
        ensures
            r.x.raw == self.x.raw + rhs.x.raw,
            r.y.raw == self.y.raw + rhs.y.raw,
            r.z.raw == self.z.raw + rhs.z.raw,
            r.w.raw == self.w.raw + rhs.w.raw,
    {
        Vector4 {
            x: self.x.add(rhs.x),
            y: self.y.add(rhs.y),
            z: self.z.add(rhs.z),
            w: self.w.add(rhs.w),
        }
    }

    pub fn sub(self, rhs: Vector4) -> (r: Vector4)
        requires
            i64::MIN <= self.x.raw - rhs.x.raw <= i64::MAX,
            i64::MIN <= self.y.raw - rhs.y.raw <= i64::MAX,
            i64::MIN <= self.z.raw - rhs.z.raw <= i64::MAX,
            i64::MIN <= self.w.raw - rhs.w.raw <= i64::MAX,
        ensures
            r.x.raw == self.x.raw - rhs.x.raw,
            r.y.raw == self.y.raw - rhs.y.raw,
            r.z.raw == self.z.raw - rhs.z.raw,
            r.w.raw == self.w.raw - rhs.w.raw,
    {
        Vector4 {
            x: self.x.sub(rhs.x),
            y: self.y.sub(rhs.y),
            z: self.z.sub(rhs.z),
            w: self.w.sub(rhs.w),
        }
    }

    pub fn mul(self, rhs: Vector4) -> (r: Vector4)
        requires
            i64::MIN <= fx_mul_spec(self.x.raw as int, rhs.x.raw as int) <= i64::MAX,
            i64::MIN <= fx_mul_spec(self.y.raw as int, rhs.y.raw as int) <= i64::MAX,
            i64::MIN <= fx_mul_spec(self.z.raw as int, rhs.z.raw as int) <= i64::MAX,
            i64::MIN <= fx_mul_spec(self.w.raw as int, rhs.w.raw as int) <= i64::MAX,
        ensures
            r.x.raw == fx_mul_spec(self.x.raw as int, rhs.x.raw as int),
            r.y.raw == fx_mul_spec(self.y.raw as int, rhs.y.raw as int),
            r.z.raw == fx_mul_spec(self.z.raw as int, rhs.z.raw as int),
            r.w.raw == fx_mul_spec(self.w.raw as int, rhs.w.raw as int),
    {
        Vector4 {
            x: self.x.mul(rhs.x),
            y: self.y.mul(rhs.y),
            z: self.z.mul(rhs.z),
            w: self.w.mul(rhs.w),
        }
    }
}

impl Magnitude for Vector4 {
    open spec fn mag_sq(&self) -> int {
        self.x.raw * self.x.raw + self.y.raw * self.y.raw + self.z.raw * self.z.raw + self.w.raw
            * self.w.raw
    }

    open spec fn mag_ok(&self) -> bool {
        -0x4000_0000 <= self.x.raw <= 0x4000_0000 && -0x4000_0000 <= self.y.raw <= 0x4000_0000
            && -0x4000_0000 <= self.z.raw <= 0x4000_0000 && -0x4000_0000 <= self.w.raw
            <= 0x4000_0000
    }

    fn magnitude(&self) -> (r: Fx) {
        let s3: u64 = sum_sq3(self.x.raw, self.y.raw, self.z.raw);
        let aw: u64 = abs_small(self.w.raw);
        proof {
            assert(aw * aw == self.w.raw * self.w.raw && aw * aw <= 0x1000_0000_0000_0000u64)
                by (nonlinear_arith)
                requires
                    aw == if self.w.raw >= 0 { self.w.raw as int } else { -(self.w.raw as int) },
                    -0x4000_0000 <= self.w.raw <= 0x4000_0000,
            ;
        }
        let s: u64 = s3 + aw * aw;
        let r: u64 = isqrt128(s as u128);
        proof {
            if r >= 0x1_0000_0000u64 {
                assert((r as int) * (r as int) >= 0x1_0000_0000 * 0x1_0000_0000)
                    by (nonlinear_arith)
                    requires
                        r as int >= 0x1_0000_0000,
                ;
            }
        }
        Fx { raw: r as i64 }
    }
}

/// Absolute value of a raw component already known to be small.
fn abs_small(v: i64) -> (r: u64)
    requires
        -0x4000_0000 <= v <= 0x4000_0000,
    ensures
        r == if v >= 0 { v as int } else { -(v as int) },
{
    if v >= 0 {
        v as u64
    } else {
        (-v) as u64
    }
}

/// Sum of three squared raw components, each bounded by `2^30`.
fn sum_sq3(x: i64, y: i64, z: i64) -> (s: u64)
    requires
        -0x4000_0000 <= x <= 0x4000_0000,
        -0x4000_0000 <= y <= 0x4000_0000,
        -0x4000_0000 <= z <= 0x4000_0000,
    ensures
        s == x * x + y * y + z * z,
        s <= 0x3000_0000_0000_0000u64,
{
    let ax: u64 = abs_small(x);
    let ay: u64 = abs_small(y);
    let az: u64 = abs_small(z);
    proof {
        assert(ax * ax == x * x && ax * ax <= 0x1000_0000_0000_0000u64) by (nonlinear_arith)
            requires
                ax == if x >= 0 { x as int } else { -(x as int) },
                -0x4000_0000 <= x <= 0x4000_0000,
        ;
        assert(ay * ay == y * y && ay * ay <= 0x1000_0000_0000_0000u64) by (nonlinear_arith)
            requires
                ay == if y >= 0 { y as int } else { -(y as int) },
                -0x4000_0000 <= y <= 0x4000_0000,
        ;
        assert(az * az == z * z && az * az <= 0x1000_0000_0000_0000u64) by (nonlinear_arith)
            requires
                az == if z >= 0 { z as int } else { -(z as int) },
                -0x4000_0000 <= z <= 0x4000_0000,
        ;
    }
    ax * ax + ay * ay + az * az
}

/// Adding a vector and then subtracting it again restores the original
/// vector exactly: with `s` as `a.add(b)` returns it and `d` as
/// `s.sub(b)` returns it, `d` equals `a`.
pub proof fn lemma_vec3_add_sub_cancels(a: Vector3, b: Vector3, s: Vector3, d: Vector3)
    requires
        s.x.raw == a.x.raw + b.x.raw,
        s.y.raw == a.y.raw + b.y.raw,
        s.z.raw == a.z.raw + b.z.raw,
        d.x.raw == s.x.raw - b.x.raw,
        d.y.raw == s.y.raw - b.y.raw,
        d.z.raw == s.z.raw - b.z.raw,
    ensures
        d == a,
{
}

/// A magnitude as returned by `Magnitude::magnitude` on a `Vector3` is
/// zero exactly when the vector is the zero vector (it is non-negative
/// by the `magnitude` contract itself).
pub proof fn lemma_vec3_magnitude_zero(v: Vector3, m: Fx)
    requires
        m.raw >= 0,
        m.raw * m.raw <= v.mag_sq(),
        v.mag_sq() < (m.raw + 1) * (m.raw + 1),
    ensures
        (m.raw == 0) <==> (v.x.raw == 0 && v.y.raw == 0 && v.z.raw == 0),
{
    assert(v.x.raw * v.x.raw >= 0 && v.y.raw * v.y.raw >= 0 && v.z.raw * v.z.raw >= 0)
        by (nonlinear_arith)
    ;
    if m.raw == 0 {
        assert((m.raw + 1) * (m.raw + 1) == 1) by (nonlinear_arith)
            requires
                m.raw == 0,
        ;
        assert(v.mag_sq() < 1);
        assert(v.x.raw * v.x.raw == 0 && v.y.raw * v.y.raw == 0 && v.z.raw * v.z.raw == 0);
        assert(v.x.raw == 0 && v.y.raw == 0 && v.z.raw == 0) by (nonlinear_arith)
            requires
                v.x.raw * v.x.raw == 0,
                v.y.raw * v.y.raw == 0,
                v.z.raw * v.z.raw == 0,
        ;
    } else {
        assert(m.raw * m.raw >= 1) by (nonlinear_arith)
            requires
                m.raw >= 1,
        ;
        assert(v.mag_sq() >= 1);
    }
}

} // verus!
