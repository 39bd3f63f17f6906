//! Inertial systems: error values, mass distributions with cached inverse
//! inertia, the cached-matrix transformer, and semi-implicit Euler
//! integration of linear and angular momentum.

use vstd::prelude::*;
use crate::fx::{fx_mul, fx_mul_s, fx_div, fx_div_s, iabs, tdiv, FX_ONE};
use crate::mat::{
    Mat4, mat4_mul, mat4_mul_entry, mat4_point, mat4_vec, mat4_point_x_s, mat4_point_y_s,
    mat4_point_z_s, mat4_vec_x_s, mat4_vec_y_s, mat4_vec_z_s, mat4_in_lim, rot00_s, rot01_s,
    rot02_s, rot10_s, rot11_s, rot12_s, rot20_s, rot21_s, rot22_s, right, up, forward, ROT_LIM,
};
use crate::quat::{Quat, from_scaled_axis_s, quat_mul_i_s, quat_mul_j_s, quat_mul_k_s, quat_mul_w_s, QUAT_LIM};
use crate::vec3::{V3, fits64, dot3_s};

verus! {

/// Magnitude bound on positions.
pub const POS_LIM: i64 = 0x400_0000;

/// Magnitude bound on pivot offsets.
pub const OFF_LIM: i64 = 0x100_0000;

/// Bounds on scale-component magnitudes: a quarter to four times.
pub const SCALE_MIN: i64 = 0x4000;

pub const SCALE_MAX: i64 = 0x4_0000;

/// Magnitude bound on inertia-tensor entries handed to the inverter.
pub const INERTIA_LIM: i64 = 0x100_0000_0000;

/// The base error classes of the physics core.
#[derive(Clone, Copy, PartialEq, Eq, Structural, Debug)]
pub enum ErrorType {
    /// Algebraic failures: division by zero, a matrix without an inverse.
    MathError,
    /// Failures of the physical model: an inertia tensor that no body can
    /// have.
    PhysicsError,
}

/// An error value: its class and an optional message.
#[derive(Debug)]
pub struct Error {
    pub msg: Option<String>,
    pub ty: ErrorType,
}

impl Error {
    /// Constructor for an error value.
    pub fn new(ty: ErrorType, msg: Option<String>) -> (r: Error)
        ensures
            r.ty == ty,
            r.msg == msg,
    {
        Error { msg, ty }
    }
}

/// A 3x3 fixed-point matrix, row-major.
#[derive(Clone, Copy, PartialEq, Eq, Structural, Debug)]
pub struct Mat3 {
    pub e00: i64,
    pub e01: i64,
    pub e02: i64,
    pub e10: i64,
    pub e11: i64,
    pub e12: i64,
    pub e20: i64,
    pub e21: i64,
    pub e22: i64,
}

impl Mat3 {
    /// Every entry's magnitude is at most `l`.
    pub open spec fn in_lim(self, l: int) -> bool {
        &&& iabs(self.e00 as int) <= l && iabs(self.e01 as int) <= l && iabs(self.e02 as int) <= l
        &&& iabs(self.e10 as int) <= l && iabs(self.e11 as int) <= l && iabs(self.e12 as int) <= l
        &&& iabs(self.e20 as int) <= l && iabs(self.e21 as int) <= l && iabs(self.e22 as int) <= l
    }

    /// The identity matrix.
    pub fn identity() -> (r: Mat3)
        ensures
            r.e00 == FX_ONE && r.e11 == FX_ONE && r.e22 == FX_ONE,
            r.e01 == 0 && r.e02 == 0 && r.e10 == 0 && r.e12 == 0 && r.e20 == 0 && r.e21 == 0,
    {
        Mat3 { e00: FX_ONE, e01: 0, e02: 0, e10: 0, e11: FX_ONE, e12: 0, e20: 0, e21: 0, e22:
            FX_ONE }
    }

    /// Applies the matrix to a vector in fixed point.
    pub fn mul_vec(&self, v: &V3) -> (r: V3)
        requires
            self.in_lim(0x1_0000_0000),
            v.in_lim(0x4000_0000),
        ensures
            r.x == dot3_s(
                self.e00 as int,
                self.e01 as int,
                self.e02 as int,
                v.x as int,
                v.y as int,
                v.z as int,
            ),
            r.y == dot3_s(
                self.e10 as int,
                self.e11 as int,
                self.e12 as int,
                v.x as int,
                v.y as int,
                v.z as int,
            ),
            r.z == dot3_s(
                self.e20 as int,
                self.e21 as int,
                self.e22 as int,
                v.x as int,
                v.y as int,
                v.z as int,
            ),
    {
        V3 {
            x: fx_mul(self.e00, v.x) + fx_mul(self.e01, v.y) + fx_mul(self.e02, v.z),
            y: fx_mul(self.e10, v.x) + fx_mul(self.e11, v.y) + fx_mul(self.e12, v.z),
            z: fx_mul(self.e20, v.x) + fx_mul(self.e21, v.y) + fx_mul(self.e22, v.z),
        }
    }
}

/// The raw determinant of a fixed-point 3x3 matrix: the integer determinant
/// of the raw entries (carrying three scale factors).
pub open spec fn det3_s(m: Mat3) -> int {
    m.e00 * (m.e11 * m.e22 - m.e12 * m.e21) - m.e01 * (m.e10 * m.e22 - m.e12 * m.e20) + m.e02 * (
    m.e10 * m.e21 - m.e11 * m.e20)
}

/// Raw adjugate entries of a fixed-point 3x3 matrix.
pub open spec fn adj3_s(m: Mat3, r: int, c: int) -> int {
    if r == 0 && c == 0 {
        m.e11 * m.e22 - m.e12 * m.e21
    } else if r == 0 && c == 1 {
        m.e02 * m.e21 - m.e01 * m.e22
    } else if r == 0 && c == 2 {
        m.e01 * m.e12 - m.e02 * m.e11
    } else if r == 1 && c == 0 {
        m.e12 * m.e20 - m.e10 * m.e22
    } else if r == 1 && c == 1 {
        m.e00 * m.e22 - m.e02 * m.e20
    } else if r == 1 && c == 2 {
        m.e02 * m.e10 - m.e00 * m.e12
    } else if r == 2 && c == 0 {
        m.e10 * m.e21 - m.e11 * m.e20
    } else if r == 2 && c == 1 {
        m.e01 * m.e20 - m.e00 * m.e21
    } else {
        m.e00 * m.e11 - m.e01 * m.e10
    }
}

/// The fixed-point inverse entry: the adjugate rescaled by the determinant.
/// The adjugate carries two scale factors and the determinant three, so the
/// quotient is rescaled by the square of the unit to land on one.
pub open spec fn inv3_s(m: Mat3, r: int, c: int) -> int {
    tdiv(adj3_s(m, r, c) * ((FX_ONE as int) * (FX_ONE as int)), det3_s(m))
}

/// The inverse entry fits the raw scalar range.
pub open spec fn inv3_fits(m: Mat3) -> bool {
    forall|r: int, c: int|
        0 <= r < 3 && 0 <= c < 3 ==> fits64(#[trigger] inv3_s(m, r, c))
}

/// A mass distribution: total mass, center of mass, inertia tensor and its
/// cached inverse.
#[derive(Clone, Copy, PartialEq, Eq, Structural, Debug)]
pub struct MassDistribution {
    pub mass: i64,
    pub center_of_mass: V3,
    pub inertia: Mat3,
    pub inv_inertia: Mat3,
}

impl Default for MassDistribution {
    /// Unit mass at the origin with the identity inertia tensor.
    fn default() -> (r: MassDistribution)
        ensures
            r.mass == FX_ONE,
            r.center_of_mass == (V3 { x: 0i64, y: 0i64, z: 0i64 }),
            r.inertia.e00 == FX_ONE && r.inertia.e11 == FX_ONE && r.inertia.e22 == FX_ONE,
            r.inertia.e01 == 0 && r.inertia.e02 == 0 && r.inertia.e10 == 0 && r.inertia.e12 == 0
                && r.inertia.e20 == 0 && r.inertia.e21 == 0,
            r.inv_inertia == r.inertia,
    {
        MassDistribution {
            mass: FX_ONE,
            center_of_mass: V3 { x: 0, y: 0, z: 0 },
            inertia: Mat3::identity(),
            inv_inertia: Mat3::identity(),
        }
    }
}

impl MassDistribution {
    /// Builds a mass distribution from a point mass, a center of mass and an
    /// inertia tensor, caching the tensor's fixed-point inverse.
    ///
    /// Fails with a physics error exactly when the tensor is singular (its
    /// raw determinant is zero), and with a math error exactly when an
    /// inverse entry leaves the raw scalar range; otherwise the cached
    /// inverse holds the rescaled adjugate exactly.
    pub fn new(mass: i64, com: V3, inertia: Mat3) -> (r: Result<MassDistribution, Error>)
        requires
            inertia.in_lim(INERTIA_LIM as int),
        ensures
            det3_s(inertia) == 0 ==> r is Err && r.get_Err_0().ty == ErrorType::PhysicsError,
            det3_s(inertia) != 0 && !inv3_fits(inertia) ==> r is Err && r.get_Err_0().ty
                == ErrorType::MathError,
            det3_s(inertia) != 0 && inv3_fits(inertia) ==> r is Ok && r.get_Ok_0().mass == mass
                && r.get_Ok_0().center_of_mass == com && r.get_Ok_0().inertia == inertia && (forall|
                rr: int,
                cc: int,
            |
                0 <= rr < 3 && 0 <= cc < 3 ==> mat3_entry(#[trigger] r.get_Ok_0().inv_inertia, rr, cc)
                    == inv3_s(inertia, rr, cc)),
    {
        let m = &inertia;
        let c00 = cof(m.e11, m.e22, m.e12, m.e21);
        let c01 = cof(m.e10, m.e22, m.e12, m.e20);
        let c02 = cof(m.e10, m.e21, m.e11, m.e20);
        proof {
            crate::fx::lemma_mul_bounds2(
                m.e00 as int,
                INERTIA_LIM as int,
                c00 as int,
                2 * ((INERTIA_LIM as int) * (INERTIA_LIM as int)),
            );
            crate::fx::lemma_mul_bounds2(
                m.e01 as int,
                INERTIA_LIM as int,
                c01 as int,
                2 * ((INERTIA_LIM as int) * (INERTIA_LIM as int)),
            );
            crate::fx::lemma_mul_bounds2(
                m.e02 as int,
                INERTIA_LIM as int,
                c02 as int,
                2 * ((INERTIA_LIM as int) * (INERTIA_LIM as int)),
            );
        }
        let det: i128 = (m.e00 as i128) * c00 - (m.e01 as i128) * c01 + (m.e02 as i128) * c02;
        if det == 0 {
            return Err(
                Error::new(ErrorType::PhysicsError, Some("Failed to invert inertia tensor".to_owned())),
            );
        }
        let i00 = inv_entry(c00, det);
        let i01 = inv_entry(cof(m.e02, m.e21, m.e01, m.e22), det);
        let i02 = inv_entry(cof(m.e01, m.e12, m.e02, m.e11), det);
        let i10 = inv_entry(cof(m.e12, m.e20, m.e10, m.e22), det);
        let i11 = inv_entry(cof(m.e00, m.e22, m.e02, m.e20), det);
        let i12 = inv_entry(cof(m.e02, m.e10, m.e00, m.e12), det);
        let i20 = inv_entry(c02, det);
        let i21 = inv_entry(cof(m.e01, m.e20, m.e00, m.e21), det);
        let i22 = inv_entry(cof(m.e00, m.e11, m.e01, m.e10), det);
        if i00.is_none() || i01.is_none() || i02.is_none() || i10.is_none() || i11.is_none()
            || i12.is_none() || i20.is_none() || i21.is_none() || i22.is_none() {
            proof {
                assert(det as int == det3_s(inertia));
                if i00.is_none() {
                    assert(!fits64(inv3_s(inertia, 0, 0)));
                } else if i01.is_none() {
                    assert(!fits64(inv3_s(inertia, 0, 1)));
                } else if i02.is_none() {
                    assert(!fits64(inv3_s(inertia, 0, 2)));
                } else if i10.is_none() {
                    assert(!fits64(inv3_s(inertia, 1, 0)));
                } else if i11.is_none() {
                    assert(!fits64(inv3_s(inertia, 1, 1)));
                } else if i12.is_none() {
                    assert(!fits64(inv3_s(inertia, 1, 2)));
                } else if i20.is_none() {
                    assert(!fits64(inv3_s(inertia, 2, 0)));
                } else if i21.is_none() {
                    assert(!fits64(inv3_s(inertia, 2, 1)));
                } else {
                    assert(!fits64(inv3_s(inertia, 2, 2)));
                }
                assert(!inv3_fits(inertia));
            }
            return Err(Error::new(ErrorType::MathError, None));
        }
        let inv = Mat3 {
            e00: i00.unwrap(),
            e01: i01.unwrap(),
            e02: i02.unwrap(),
            e10: i10.unwrap(),
            e11: i11.unwrap(),
            e12: i12.unwrap(),
            e20: i20.unwrap(),
            e21: i21.unwrap(),
            e22: i22.unwrap(),
        };
        proof {
            assert forall|rr: int, cc: int| 0 <= rr < 3 && 0 <= cc < 3 implies fits64(
                #[trigger] inv3_s(inertia, rr, cc),
            ) by {
                assert(inv3_s(inertia, rr, cc) == mat3_entry(inv, rr, cc));
            }
        }
        Ok(MassDistribution { mass, center_of_mass: com, inv_inertia: inv, inertia })
    }

    /// Returns the total mass of the distribution.
    pub fn mass(&self) -> (r: &i64)
        ensures
            r == self.mass,
    {
        &self.mass
    }

    /// Returns the center of mass, the natural pivot of a free body.
    pub fn center_of_mass(&self) -> (r: &V3)
        ensures
            r == self.center_of_mass,
    {
        &self.center_of_mass
    }

    /// Returns the inertia tensor (defined in the body frame, so it is not
    /// affected by the transformer state).
    pub fn inertia(&self) -> (r: &Mat3)
        ensures
            r == self.inertia,
    {
        &self.inertia
    }

    /// Returns the cached inverse of the inertia tensor.
    pub fn inv_inertia(&self) -> (r: &Mat3)
        ensures
            r == self.inv_inertia,
    {
        &self.inv_inertia
    }
}

/// Entry of a 3x3 matrix by row and column.
pub open spec fn mat3_entry(m: Mat3, r: int, c: int) -> int {
    if r == 0 && c == 0 {
        m.e00 as int
    } else if r == 0 && c == 1 {
        m.e01 as int
    } else if r == 0 && c == 2 {
        m.e02 as int
    } else if r == 1 && c == 0 {
        m.e10 as int
    } else if r == 1 && c == 1 {
        m.e11 as int
    } else if r == 1 && c == 2 {
        m.e12 as int
    } else if r == 2 && c == 0 {
        m.e20 as int
    } else if r == 2 && c == 1 {
        m.e21 as int
    } else {
        m.e22 as int
    }
}

/// A 2x2 cofactor of raw entries: `a * b - c * d`.
fn cof(a: i64, b: i64, c: i64, d: i64) -> (r: i128)
    requires
        iabs(a as int) <= INERTIA_LIM,
        iabs(b as int) <= INERTIA_LIM,
        iabs(c as int) <= INERTIA_LIM,
        iabs(d as int) <= INERTIA_LIM,
    ensures
        r == a * b - c * d,
        iabs(r as int) <= 2 * ((INERTIA_LIM as int) * (INERTIA_LIM as int)),
{
    proof {
        crate::fx::lemma_mul_bounds(a as int, b as int, INERTIA_LIM as int);
        crate::fx::lemma_mul_bounds(c as int, d as int, INERTIA_LIM as int);
    }
    (a as i128) * (b as i128) - (c as i128) * (d as i128)
}

/// The rescaled adjugate entry, or nothing when it leaves the raw range.
fn inv_entry(adj: i128, det: i128) -> (r: Option<i64>)
    requires
        det != 0,
        -0x4_0000_0000_0000_0000_0000 <= adj <= 0x4_0000_0000_0000_0000_0000,
        -0x800_0000_0000_0000_0000_0000_0000_0000 <= det
            <= 0x800_0000_0000_0000_0000_0000_0000_0000,
    ensures
        fits64(tdiv((adj as int) * ((FX_ONE as int) * (FX_ONE as int)), det as int)) ==> r
            == Some(tdiv((adj as int) * ((FX_ONE as int) * (FX_ONE as int)), det as int) as i64),
        !fits64(tdiv((adj as int) * ((FX_ONE as int) * (FX_ONE as int)), det as int)) ==> r
            is None,
{
    proof {
        crate::fx::lemma_mul_bounds2(
            adj as int,
            0x4_0000_0000_0000_0000_0000,
            ((FX_ONE as int) * (FX_ONE as int)),
            0x1_0000_0000,
        );
    }
    let q = crate::fx::tdiv128(adj * ((FX_ONE as i128) * (FX_ONE as i128)), det);
    if q > i64::MAX as i128 || q < i64::MIN as i128 {
        None
    } else {
        Some(q as i64)
    }
}


/// Accumulation of a point mass into an inertia tensor.
pub trait Inertia {
    /// Adds the contribution of a point mass at `r` with mass `mass`.
    fn add_mass_point(&mut self, r: &V3, mass: i64)
        requires
            r.in_lim(0x100_0000),
            iabs(mass as int) <= 0x100_0000,
            old(self).tensor().in_lim(0x4000_0000_0000_0000),
        ensures
            final(self).tensor() == add_mass_point_s(old(self).tensor(), *r, mass as int),
    ;

    /// Removes the contribution of a point mass at `r` with mass `mass`.
    fn sub_mass_point(&mut self, r: &V3, mass: i64)
        requires
            r.in_lim(0x100_0000),
            iabs(mass as int) <= 0x100_0000,
            old(self).tensor().in_lim(0x4000_0000_0000_0000),
        ensures
            final(self).tensor() == sub_mass_point_s(old(self).tensor(), *r, mass as int),
    ;

    /// The tensor the accumulation acts on.
    spec fn tensor(&self) -> Mat3;
}

/// The point-mass contributions to the six independent tensor entries.
pub open spec fn pm00_s(r: V3, mass: int) -> int {
    fx_mul_s(mass, fx_mul_s(r.y as int, r.y as int) + fx_mul_s(r.z as int, r.z as int))
}

pub open spec fn pm11_s(r: V3, mass: int) -> int {
    fx_mul_s(mass, fx_mul_s(r.x as int, r.x as int) + fx_mul_s(r.z as int, r.z as int))
}

pub open spec fn pm22_s(r: V3, mass: int) -> int {
    fx_mul_s(mass, fx_mul_s(r.x as int, r.x as int) + fx_mul_s(r.y as int, r.y as int))
}

pub open spec fn pm10_s(r: V3, mass: int) -> int {
    -fx_mul_s(mass, fx_mul_s(r.y as int, r.x as int))
}

pub open spec fn pm20_s(r: V3, mass: int) -> int {
    -fx_mul_s(mass, fx_mul_s(r.z as int, r.x as int))
}

pub open spec fn pm21_s(r: V3, mass: int) -> int {
    -fx_mul_s(mass, fx_mul_s(r.z as int, r.y as int))
}

/// The tensor after adding a point mass: the diagonal and lower entries are
/// accumulated, and the mirrored entries keep the tensor symmetric.
pub open spec fn add_mass_point_s(m: Mat3, r: V3, mass: int) -> Mat3 {
    Mat3 {
        e00: (m.e00 + pm00_s(r, mass)) as i64,
        e10: (m.e10 + pm10_s(r, mass)) as i64,
        e20: (m.e20 + pm20_s(r, mass)) as i64,
        e01: (m.e10 + pm10_s(r, mass)) as i64,
        e11: (m.e11 + pm11_s(r, mass)) as i64,
        e21: (m.e21 + pm21_s(r, mass)) as i64,
        e02: (m.e20 + pm20_s(r, mass)) as i64,
        e12: (m.e21 + pm21_s(r, mass)) as i64,
        e22: (m.e22 + pm22_s(r, mass)) as i64,
    }
}

/// The tensor after removing a point mass.
pub open spec fn sub_mass_point_s(m: Mat3, r: V3, mass: int) -> Mat3 {
    Mat3 {
        e00: (m.e00 - pm00_s(r, mass)) as i64,
        e10: (m.e10 - pm10_s(r, mass)) as i64,
        e20: (m.e20 - pm20_s(r, mass)) as i64,
        e01: (m.e10 - pm10_s(r, mass)) as i64,
        e11: (m.e11 - pm11_s(r, mass)) as i64,
        e21: (m.e21 - pm21_s(r, mass)) as i64,
        e02: (m.e20 - pm20_s(r, mass)) as i64,
        e12: (m.e21 - pm21_s(r, mass)) as i64,
        e22: (m.e22 - pm22_s(r, mass)) as i64,
    }
}

impl Inertia for Mat3 {
    open spec fn tensor(&self) -> Mat3 {
        *self
    }

    fn add_mass_point(&mut self, r: &V3, mass: i64) {
        proof {
            lemma_pm_bounds(*r, mass as int);
            crate::fx::lemma_fx_mul_bound(r.x as int, 0x100_0000, r.x as int, 0x100_0000);
            crate::fx::lemma_fx_mul_bound(r.y as int, 0x100_0000, r.y as int, 0x100_0000);
            crate::fx::lemma_fx_mul_bound(r.z as int, 0x100_0000, r.z as int, 0x100_0000);
            crate::fx::lemma_fx_mul_bound(r.y as int, 0x100_0000, r.x as int, 0x100_0000);
            crate::fx::lemma_fx_mul_bound(r.z as int, 0x100_0000, r.x as int, 0x100_0000);
            crate::fx::lemma_fx_mul_bound(r.z as int, 0x100_0000, r.y as int, 0x100_0000);
        }
        let d00 = fx_mul(mass, fx_mul(r.y, r.y) + fx_mul(r.z, r.z));
        let d11 = fx_mul(mass, fx_mul(r.x, r.x) + fx_mul(r.z, r.z));
        let d22 = fx_mul(mass, fx_mul(r.x, r.x) + fx_mul(r.y, r.y));
        let d10 = -fx_mul(mass, fx_mul(r.y, r.x));
        let d20 = -fx_mul(mass, fx_mul(r.z, r.x));
        let d21 = -fx_mul(mass, fx_mul(r.z, r.y));
        self.e00 = self.e00 + d00;
        self.e10 = self.e10 + d10;
        self.e20 = self.e20 + d20;
        self.e01 = self.e10;
        self.e11 = self.e11 + d11;
        self.e21 = self.e21 + d21;
        self.e02 = self.e20;
        self.e12 = self.e21;
        self.e22 = self.e22 + d22;
    }

    fn sub_mass_point(&mut self, r: &V3, mass: i64) {
        proof {
            lemma_pm_bounds(*r, mass as int);
            crate::fx::lemma_fx_mul_bound(r.x as int, 0x100_0000, r.x as int, 0x100_0000);
            crate::fx::lemma_fx_mul_bound(r.y as int, 0x100_0000, r.y as int, 0x100_0000);
            crate::fx::lemma_fx_mul_bound(r.z as int, 0x100_0000, r.z as int, 0x100_0000);
            crate::fx::lemma_fx_mul_bound(r.y as int, 0x100_0000, r.x as int, 0x100_0000);
            crate::fx::lemma_fx_mul_bound(r.z as int, 0x100_0000, r.x as int, 0x100_0000);
            crate::fx::lemma_fx_mul_bound(r.z as int, 0x100_0000, r.y as int, 0x100_0000);
        }
        let d00 = fx_mul(mass, fx_mul(r.y, r.y) + fx_mul(r.z, r.z));
        let d11 = fx_mul(mass, fx_mul(r.x, r.x) + fx_mul(r.z, r.z));
        let d22 = fx_mul(mass, fx_mul(r.x, r.x) + fx_mul(r.y, r.y));
        let d10 = -fx_mul(mass, fx_mul(r.y, r.x));
        let d20 = -fx_mul(mass, fx_mul(r.z, r.x));
        let d21 = -fx_mul(mass, fx_mul(r.z, r.y));
        self.e00 = self.e00 - d00;
        self.e10 = self.e10 - d10;
        self.e20 = self.e20 - d20;
        self.e01 = self.e10;
        self.e11 = self.e11 - d11;
        self.e21 = self.e21 - d21;
        self.e02 = self.e20;
        self.e12 = self.e21;
        self.e22 = self.e22 - d22;
    }
}

/// Magnitude bounds of the point-mass contributions.
proof fn lemma_pm_bounds(r: V3, mass: int)
    requires
        r.in_lim(0x100_0000),
        iabs(mass) <= 0x100_0000,
    ensures
        iabs(pm00_s(r, mass)) <= 0x80_0000_0000_0000,
        iabs(pm11_s(r, mass)) <= 0x80_0000_0000_0000,
        iabs(pm22_s(r, mass)) <= 0x80_0000_0000_0000,
        iabs(pm10_s(r, mass)) <= 0x80_0000_0000_0000,
        iabs(pm20_s(r, mass)) <= 0x80_0000_0000_0000,
        iabs(pm21_s(r, mass)) <= 0x80_0000_0000_0000,
{
    crate::fx::lemma_fx_mul_bound(r.x as int, 0x100_0000, r.x as int, 0x100_0000);
    crate::fx::lemma_fx_mul_bound(r.y as int, 0x100_0000, r.y as int, 0x100_0000);
    crate::fx::lemma_fx_mul_bound(r.z as int, 0x100_0000, r.z as int, 0x100_0000);
    crate::fx::lemma_fx_mul_bound(r.y as int, 0x100_0000, r.x as int, 0x100_0000);
    crate::fx::lemma_fx_mul_bound(r.z as int, 0x100_0000, r.x as int, 0x100_0000);
    crate::fx::lemma_fx_mul_bound(r.z as int, 0x100_0000, r.y as int, 0x100_0000);
    crate::fx::lemma_fx_mul_bound(
        mass,
        0x100_0000,
        fx_mul_s(r.y as int, r.y as int) + fx_mul_s(r.z as int, r.z as int),
        0x400_0000_0000,
    );
    crate::fx::lemma_fx_mul_bound(
        mass,
        0x100_0000,
        fx_mul_s(r.x as int, r.x as int) + fx_mul_s(r.z as int, r.z as int),
        0x400_0000_0000,
    );
    crate::fx::lemma_fx_mul_bound(
        mass,
        0x100_0000,
        fx_mul_s(r.x as int, r.x as int) + fx_mul_s(r.y as int, r.y as int),
        0x400_0000_0000,
    );
    crate::fx::lemma_fx_mul_bound(
        mass,
        0x100_0000,
        fx_mul_s(r.y as int, r.x as int),
        0x400_0000_0000,
    );
    crate::fx::lemma_fx_mul_bound(
        mass,
        0x100_0000,
        fx_mul_s(r.z as int, r.x as int),
        0x400_0000_0000,
    );
    crate::fx::lemma_fx_mul_bound(
        mass,
        0x100_0000,
        fx_mul_s(r.z as int, r.y as int),
        0x400_0000_0000,
    );
}


/// Entry of a rotation matrix by row and column, from its quaternion.
pub open spec fn rot_entry_s(q: Quat, r: int, c: int) -> int {
    if r == 0 && c == 0 {
        rot00_s(q)
    } else if r == 0 && c == 1 {
        rot01_s(q)
    } else if r == 0 && c == 2 {
        rot02_s(q)
    } else if r == 1 && c == 0 {
        rot10_s(q)
    } else if r == 1 && c == 1 {
        rot11_s(q)
    } else if r == 1 && c == 2 {
        rot12_s(q)
    } else if r == 2 && c == 0 {
        rot20_s(q)
    } else if r == 2 && c == 1 {
        rot21_s(q)
    } else {
        rot22_s(q)
    }
}

/// Component `c` of a vector.
pub open spec fn vcomp_s(v: V3, c: int) -> int {
    if c == 0 {
        v.x as int
    } else if c == 1 {
        v.y as int
    } else {
        v.z as int
    }
}

/// Entry of the forward matrix's linear part: the rotation column scaled.
pub open spec fn lin_entry_s(q: Quat, scale: V3, r: int, c: int) -> int {
    fx_mul_s(rot_entry_s(q, r, c), vcomp_s(scale, c))
}

/// Entry of the forward matrix's translation column.
pub open spec fn trans_entry_s(pos: V3, offset: V3, q: Quat, scale: V3, r: int) -> int {
    fx_mul_s(lin_entry_s(q, scale, r, 0), offset.x as int) + fx_mul_s(
        lin_entry_s(q, scale, r, 1),
        offset.y as int,
    ) + fx_mul_s(lin_entry_s(q, scale, r, 2), offset.z as int) + vcomp_s(pos, r)
}

/// Entry of the inverse matrix's linear part: the transposed rotation row
/// scaled by the reciprocal scale.
pub open spec fn ilin_entry_s(q: Quat, scale: V3, r: int, c: int) -> int {
    fx_mul_s(fx_div_s(FX_ONE as int, vcomp_s(scale, r)), rot_entry_s(q, c, r))
}

/// Entry of the inverse matrix's translation column.
pub open spec fn itrans_entry_s(pos: V3, offset: V3, q: Quat, scale: V3, r: int) -> int {
    fx_mul_s(ilin_entry_s(q, scale, r, 0), -(pos.x as int)) + fx_mul_s(
        ilin_entry_s(q, scale, r, 1),
        -(pos.y as int),
    ) + fx_mul_s(ilin_entry_s(q, scale, r, 2), -(pos.z as int)) - vcomp_s(offset, r)
}

/// An affine state: position, pivot offset, scale and rotation, with cached
/// forward and inverse transformation matrices.
#[derive(Clone, Copy, PartialEq, Eq, Structural, Debug)]
pub struct Transformer {
    pub pos: V3,
    pub offset: V3,
    pub scale: V3,
    pub rot: Quat,
    pub mat: Mat4,
    pub inv_mat: Mat4,
}

impl Transformer {
    /// The primary fields are inside the working ranges.
    pub open spec fn params_wf(self) -> bool {
        &&& self.pos.in_lim(POS_LIM as int)
        &&& self.offset.in_lim(OFF_LIM as int)
        &&& self.rot.wf()
        &&& SCALE_MIN <= iabs(self.scale.x as int) <= SCALE_MAX
        &&& SCALE_MIN <= iabs(self.scale.y as int) <= SCALE_MAX
        &&& SCALE_MIN <= iabs(self.scale.z as int) <= SCALE_MAX
    }

    /// The cached matrices reflect the primary fields: forward is
    /// translation of rotation of scale of pivot translation, inverse is the
    /// reverse composition of the inverses.
    pub open spec fn mats_synced(self) -> bool {
        &&& self.mat.m00 == lin_entry_s(self.rot, self.scale, 0, 0)
        &&& self.mat.m01 == lin_entry_s(self.rot, self.scale, 0, 1)
        &&& self.mat.m02 == lin_entry_s(self.rot, self.scale, 0, 2)
        &&& self.mat.m10 == lin_entry_s(self.rot, self.scale, 1, 0)
        &&& self.mat.m11 == lin_entry_s(self.rot, self.scale, 1, 1)
        &&& self.mat.m12 == lin_entry_s(self.rot, self.scale, 1, 2)
        &&& self.mat.m20 == lin_entry_s(self.rot, self.scale, 2, 0)
        &&& self.mat.m21 == lin_entry_s(self.rot, self.scale, 2, 1)
        &&& self.mat.m22 == lin_entry_s(self.rot, self.scale, 2, 2)
        &&& self.mat.m03 == trans_entry_s(self.pos, self.offset, self.rot, self.scale, 0)
        &&& self.mat.m13 == trans_entry_s(self.pos, self.offset, self.rot, self.scale, 1)
        &&& self.mat.m23 == trans_entry_s(self.pos, self.offset, self.rot, self.scale, 2)
        &&& self.mat.m30 == 0 && self.mat.m31 == 0 && self.mat.m32 == 0 && self.mat.m33 == FX_ONE
        &&& self.inv_mat.m00 == ilin_entry_s(self.rot, self.scale, 0, 0)
        &&& self.inv_mat.m01 == ilin_entry_s(self.rot, self.scale, 0, 1)
        &&& self.inv_mat.m02 == ilin_entry_s(self.rot, self.scale, 0, 2)
        &&& self.inv_mat.m10 == ilin_entry_s(self.rot, self.scale, 1, 0)
        &&& self.inv_mat.m11 == ilin_entry_s(self.rot, self.scale, 1, 1)
        &&& self.inv_mat.m12 == ilin_entry_s(self.rot, self.scale, 1, 2)
        &&& self.inv_mat.m20 == ilin_entry_s(self.rot, self.scale, 2, 0)
        &&& self.inv_mat.m21 == ilin_entry_s(self.rot, self.scale, 2, 1)
        &&& self.inv_mat.m22 == ilin_entry_s(self.rot, self.scale, 2, 2)
        &&& self.inv_mat.m03 == itrans_entry_s(self.pos, self.offset, self.rot, self.scale, 0)
        &&& self.inv_mat.m13 == itrans_entry_s(self.pos, self.offset, self.rot, self.scale, 1)
        &&& self.inv_mat.m23 == itrans_entry_s(self.pos, self.offset, self.rot, self.scale, 2)
        &&& self.inv_mat.m30 == 0 && self.inv_mat.m31 == 0 && self.inv_mat.m32 == 0
            && self.inv_mat.m33 == FX_ONE
    }

    /// A transformer whose caches are up to date and whose fields are in
    /// range.
    pub open spec fn wf(self) -> bool {
        self.params_wf() && self.mats_synced()
    }
}

/// Bounds on every entry of the cached matrices of a well-formed
/// transformer: the linear parts stay small, the translation columns a bit
/// wider.
#[verifier::rlimit(60)]
pub proof fn lemma_transformer_bounds(t: Transformer)
    requires
        t.params_wf(),
        t.mats_synced(),
    ensures
        mat4_in_lim(t.mat, 0x10_0000_0000),
        mat4_in_lim(t.inv_mat, 0x10_0000_0000),
        iabs(t.mat.m00 as int) <= 0x80_0000 && iabs(t.mat.m01 as int) <= 0x80_0000 && iabs(
            t.mat.m02 as int,
        ) <= 0x80_0000,
        iabs(t.mat.m10 as int) <= 0x80_0000 && iabs(t.mat.m11 as int) <= 0x80_0000 && iabs(
            t.mat.m12 as int,
        ) <= 0x80_0000,
        iabs(t.mat.m20 as int) <= 0x80_0000 && iabs(t.mat.m21 as int) <= 0x80_0000 && iabs(
            t.mat.m22 as int,
        ) <= 0x80_0000,
        iabs(t.mat.m03 as int) <= 0x2_0000_0000 && iabs(t.mat.m13 as int) <= 0x2_0000_0000 && iabs(
            t.mat.m23 as int,
        ) <= 0x2_0000_0000,
{
    crate::mat::lemma_rot_bounds(t.rot);
    let q = t.rot;
    let sc = t.scale;
    assert forall|r: int, c: int| 0 <= r < 3 && 0 <= c < 3 implies iabs(
        #[trigger] lin_entry_s(q, sc, r, c),
    ) <= 0x80_0000 by {
        crate::fx::lemma_fx_mul_bound(
            rot_entry_s(q, r, c),
            ROT_LIM as int,
            vcomp_s(sc, c),
            SCALE_MAX as int,
        );
    }
    assert forall|r: int, c: int| 0 <= r < 3 && 0 <= c < 3 implies iabs(
        #[trigger] ilin_entry_s(q, sc, r, c),
    ) <= 0x80_0000 by {
        crate::fx::lemma_fx_div_bound(FX_ONE as int, FX_ONE as int, vcomp_s(sc, r), SCALE_MIN as int);
        crate::fx::lemma_fx_mul_bound(
            fx_div_s(FX_ONE as int, vcomp_s(sc, r)),
            0x4_0000,
            rot_entry_s(q, c, r),
            ROT_LIM as int,
        );
    }
    assert forall|r: int| 0 <= r < 3 implies iabs(
        #[trigger] trans_entry_s(t.pos, t.offset, q, sc, r),
    ) <= 0x2_0000_0000 by {
        crate::fx::lemma_fx_mul_bound(
            lin_entry_s(q, sc, r, 0),
            0x80_0000,
            t.offset.x as int,
            OFF_LIM as int,
        );
        crate::fx::lemma_fx_mul_bound(
            lin_entry_s(q, sc, r, 1),
            0x80_0000,
            t.offset.y as int,
            OFF_LIM as int,
        );
        crate::fx::lemma_fx_mul_bound(
            lin_entry_s(q, sc, r, 2),
            0x80_0000,
            t.offset.z as int,
            OFF_LIM as int,
        );
    }
    assert forall|r: int| 0 <= r < 3 implies iabs(
        #[trigger] itrans_entry_s(t.pos, t.offset, q, sc, r),
    ) <= 0x8_0000_0000 by {
        crate::fx::lemma_fx_mul_bound(
            ilin_entry_s(q, sc, r, 0),
            0x80_0000,
            -(t.pos.x as int),
            POS_LIM as int,
        );
        crate::fx::lemma_fx_mul_bound(
            ilin_entry_s(q, sc, r, 1),
            0x80_0000,
            -(t.pos.y as int),
            POS_LIM as int,
        );
        crate::fx::lemma_fx_mul_bound(
            ilin_entry_s(q, sc, r, 2),
            0x80_0000,
            -(t.pos.z as int),
            POS_LIM as int,
        );
    }
}

/// Computes the forward and inverse matrices of a transformer state.
fn compute_mats(pos: &V3, rot: &Quat, scale: &V3, offset: &V3) -> (r: (Mat4, Mat4))
    requires
        pos.in_lim(POS_LIM as int),
        offset.in_lim(OFF_LIM as int),
        rot.wf(),
        SCALE_MIN <= iabs(scale.x as int) <= SCALE_MAX,
        SCALE_MIN <= iabs(scale.y as int) <= SCALE_MAX,
        SCALE_MIN <= iabs(scale.z as int) <= SCALE_MAX,
    ensures
        (Transformer {
            pos: *pos,
            offset: *offset,
            scale: *scale,
            rot: *rot,
            mat: r.0,
            inv_mat: r.1,
        }).mats_synced(),
{
    proof {
        crate::mat::lemma_rot_bounds(*rot);
    }
    let rm = crate::mat::init_rotation(rot);
    // forward: scale the rotation columns, then derive the translation
    let l00 = fx_mul(rm.m00, scale.x);
    let l01 = fx_mul(rm.m01, scale.y);
    let l02 = fx_mul(rm.m02, scale.z);
    let l10 = fx_mul(rm.m10, scale.x);
    let l11 = fx_mul(rm.m11, scale.y);
    let l12 = fx_mul(rm.m12, scale.z);
    let l20 = fx_mul(rm.m20, scale.x);
    let l21 = fx_mul(rm.m21, scale.y);
    let l22 = fx_mul(rm.m22, scale.z);
    proof {
        assert forall|r: int, c: int| 0 <= r < 3 && 0 <= c < 3 implies iabs(
            #[trigger] lin_entry_s(*rot, *scale, r, c),
        ) <= 0x80_0000 by {
            crate::fx::lemma_fx_mul_bound(
                rot_entry_s(*rot, r, c),
                ROT_LIM as int,
                vcomp_s(*scale, c),
                SCALE_MAX as int,
            );
        }
    }
    proof {
        assert(l00 == lin_entry_s(*rot, *scale, 0, 0));
        assert(l01 == lin_entry_s(*rot, *scale, 0, 1));
        assert(l02 == lin_entry_s(*rot, *scale, 0, 2));
        assert(l10 == lin_entry_s(*rot, *scale, 1, 0));
        assert(l11 == lin_entry_s(*rot, *scale, 1, 1));
        assert(l12 == lin_entry_s(*rot, *scale, 1, 2));
        assert(l20 == lin_entry_s(*rot, *scale, 2, 0));
        assert(l21 == lin_entry_s(*rot, *scale, 2, 1));
        assert(l22 == lin_entry_s(*rot, *scale, 2, 2));
    }
    let t0 = fx_mul(l00, offset.x) + fx_mul(l01, offset.y) + fx_mul(l02, offset.z) + pos.x;
    let t1 = fx_mul(l10, offset.x) + fx_mul(l11, offset.y) + fx_mul(l12, offset.z) + pos.y;
    let t2 = fx_mul(l20, offset.x) + fx_mul(l21, offset.y) + fx_mul(l22, offset.z) + pos.z;
    // inverse: reciprocal scale rows of the transposed rotation, then the
    // reverse translation
    let is0 = fx_div(FX_ONE, scale.x);
    let is1 = fx_div(FX_ONE, scale.y);
    let is2 = fx_div(FX_ONE, scale.z);
    proof {
        crate::fx::lemma_fx_div_bound(FX_ONE as int, FX_ONE as int, scale.x as int, SCALE_MIN as int);
        crate::fx::lemma_fx_div_bound(FX_ONE as int, FX_ONE as int, scale.y as int, SCALE_MIN as int);
        crate::fx::lemma_fx_div_bound(FX_ONE as int, FX_ONE as int, scale.z as int, SCALE_MIN as int);
    }
    let k00 = fx_mul(is0, rm.m00);
    let k01 = fx_mul(is0, rm.m10);
    let k02 = fx_mul(is0, rm.m20);
    let k10 = fx_mul(is1, rm.m01);
    let k11 = fx_mul(is1, rm.m11);
    let k12 = fx_mul(is1, rm.m21);
    let k20 = fx_mul(is2, rm.m02);
    let k21 = fx_mul(is2, rm.m12);
    let k22 = fx_mul(is2, rm.m22);
    proof {
        assert forall|r: int, c: int| 0 <= r < 3 && 0 <= c < 3 implies iabs(
            #[trigger] ilin_entry_s(*rot, *scale, r, c),
        ) <= 0x80_0000 by {
            crate::fx::lemma_fx_div_bound(
                FX_ONE as int,
                FX_ONE as int,
                vcomp_s(*scale, r),
                SCALE_MIN as int,
            );
            crate::fx::lemma_fx_mul_bound(
                fx_div_s(FX_ONE as int, vcomp_s(*scale, r)),
                0x4_0000,
                rot_entry_s(*rot, c, r),
                ROT_LIM as int,
            );
        }
    }
    proof {
        assert(k00 == ilin_entry_s(*rot, *scale, 0, 0));
        assert(k01 == ilin_entry_s(*rot, *scale, 0, 1));
        assert(k02 == ilin_entry_s(*rot, *scale, 0, 2));
        assert(k10 == ilin_entry_s(*rot, *scale, 1, 0));
        assert(k11 == ilin_entry_s(*rot, *scale, 1, 1));
        assert(k12 == ilin_entry_s(*rot, *scale, 1, 2));
        assert(k20 == ilin_entry_s(*rot, *scale, 2, 0));
        assert(k21 == ilin_entry_s(*rot, *scale, 2, 1));
        assert(k22 == ilin_entry_s(*rot, *scale, 2, 2));
    }
    let u0 = fx_mul(k00, -pos.x) + fx_mul(k01, -pos.y) + fx_mul(k02, -pos.z) - offset.x;
    let u1 = fx_mul(k10, -pos.x) + fx_mul(k11, -pos.y) + fx_mul(k12, -pos.z) - offset.y;
    let u2 = fx_mul(k20, -pos.x) + fx_mul(k21, -pos.y) + fx_mul(k22, -pos.z) - offset.z;
    let fwd = Mat4 {
        m00: l00,
        m01: l01,
        m02: l02,
        m03: t0,
        m10: l10,
        m11: l11,
        m12: l12,
        m13: t1,
        m20: l20,
        m21: l21,
        m22: l22,
        m23: t2,
        m30: 0,
        m31: 0,
        m32: 0,
        m33: FX_ONE,
    };
    let inv = Mat4 {
        m00: k00,
        m01: k01,
        m02: k02,
        m03: u0,
        m10: k10,
        m11: k11,
        m12: k12,
        m13: u1,
        m20: k20,
        m21: k21,
        m22: k22,
        m23: u2,
        m30: 0,
        m31: 0,
        m32: 0,
        m33: FX_ONE,
    };
    (fwd, inv)
}


impl Default for Transformer {
    /// The identity state: everything at rest, unit scale, caches synced.
    fn default() -> (r: Transformer)
        ensures
            r.pos == (V3 { x: 0i64, y: 0i64, z: 0i64 }),
            r.offset == (V3 { x: 0i64, y: 0i64, z: 0i64 }),
            r.scale == (V3 { x: FX_ONE, y: FX_ONE, z: FX_ONE }),
            r.rot == (Quat { i: 0i64, j: 0i64, k: 0i64, w: FX_ONE }),
            r.wf(),
    {
        Transformer::new(
            V3 { x: 0, y: 0, z: 0 },
            Quat { i: 0, j: 0, k: 0, w: FX_ONE },
            V3 { x: FX_ONE, y: FX_ONE, z: FX_ONE },
            V3 { x: 0, y: 0, z: 0 },
        )
    }
}

impl Transformer {
    /// Builds a transformer with freshly generated matrix caches.
    pub fn new(pos: V3, rot: Quat, scale: V3, offset: V3) -> (r: Transformer)
        requires
            pos.in_lim(POS_LIM as int),
            offset.in_lim(OFF_LIM as int),
            rot.wf(),
            SCALE_MIN <= iabs(scale.x as int) <= SCALE_MAX,
            SCALE_MIN <= iabs(scale.y as int) <= SCALE_MAX,
            SCALE_MIN <= iabs(scale.z as int) <= SCALE_MAX,
        ensures
            r.pos == pos && r.offset == offset && r.scale == scale && r.rot == rot,
            r.wf(),
    {
        let (m, im) = compute_mats(&pos, &rot, &scale, &offset);
        Transformer { pos, rot, scale, offset, mat: m, inv_mat: im }
    }

    /// Regenerates both cached matrices from the current primary fields.
    /// Must be called after any edit of them before the caches are used.
    pub fn update_transformation(&mut self)
        requires
            old(self).params_wf(),
        ensures
            final(self).pos == old(self).pos && final(self).offset == old(self).offset,
            final(self).scale == old(self).scale && final(self).rot == old(self).rot,
            final(self).wf(),
    {
        let (m, im) = compute_mats(&self.pos, &self.rot, &self.scale, &self.offset);
        self.mat = m;
        self.inv_mat = im;
    }

    /// Returns the cached forward transformation matrix.
    pub fn tsro(&self) -> (r: &Mat4)
        ensures
            r == self.mat,
    {
        &self.mat
    }

    /// Returns the cached inverse transformation matrix.
    pub fn inv_tsro(&self) -> (r: &Mat4)
        ensures
            r == self.inv_mat,
    {
        &self.inv_mat
    }

    /// Transforms a point into the world frame (translation applied).
    pub fn trafo_point(&self, point: &V3) -> (r: V3)
        requires
            self.wf(),
            point.in_lim(0x10_0000_0000),
        ensures
            r.x == mat4_point_x_s(self.mat, *point),
            r.y == mat4_point_y_s(self.mat, *point),
            r.z == mat4_point_z_s(self.mat, *point),
            point.in_lim(0x400_0000) ==> r.in_lim(0x10_0000_0000),
    {
        proof {
            lemma_transformer_bounds(*self);
            if point.in_lim(0x400_0000) {
                lemma_row_apply_bound(self.mat, *point);
            }
        }
        mat4_point(&self.mat, point)
    }

    /// Transforms a direction into the world frame (linear part only).
    pub fn trafo_vec(&self, vec: &V3) -> (r: V3)
        requires
            self.wf(),
            vec.in_lim(0x10_0000_0000),
        ensures
            r.x == mat4_vec_x_s(self.mat, *vec),
            r.y == mat4_vec_y_s(self.mat, *vec),
            r.z == mat4_vec_z_s(self.mat, *vec),
            vec.in_lim(0x400_0000) ==> r.in_lim(0x10_0000_0000),
    {
        proof {
            lemma_transformer_bounds(*self);
            if vec.in_lim(0x400_0000) {
                lemma_row_apply_bound(self.mat, *vec);
            }
        }
        mat4_vec(&self.mat, vec)
    }

    /// Transforms a point into the body frame.
    pub fn inv_trafo_point(&self, point: &V3) -> (r: V3)
        requires
            self.wf(),
            point.in_lim(0x10_0000_0000),
        ensures
            r.x == mat4_point_x_s(self.inv_mat, *point),
            r.y == mat4_point_y_s(self.inv_mat, *point),
            r.z == mat4_point_z_s(self.inv_mat, *point),
    {
        proof {
            lemma_transformer_bounds(*self);
        }
        mat4_point(&self.inv_mat, point)
    }

    /// Transforms a direction into the body frame.
    pub fn inv_trafo_vec(&self, vec: &V3) -> (r: V3)
        requires
            self.wf(),
            vec.in_lim(0x10_0000_0000),
        ensures
            r.x == mat4_vec_x_s(self.inv_mat, *vec),
            r.y == mat4_vec_y_s(self.inv_mat, *vec),
            r.z == mat4_vec_z_s(self.inv_mat, *vec),
    {
        proof {
            lemma_transformer_bounds(*self);
        }
        mat4_vec(&self.inv_mat, vec)
    }

    /// Rotates a rotation into the world frame.
    pub fn trafo_rot(&self, rot: &Quat) -> (r: Quat)
        requires
            self.rot.wf(),
            rot.wf(),
        ensures
            r.i == quat_mul_i_s(self.rot, *rot),
            r.j == quat_mul_j_s(self.rot, *rot),
            r.k == quat_mul_k_s(self.rot, *rot),
            r.w == quat_mul_w_s(self.rot, *rot),
            r.wf(),
    {
        self.rot.mul(rot)
    }

    /// Rotates a rotation into the body frame.
    pub fn inv_trafo_rot(&self, rot: &Quat) -> (r: Quat)
        requires
            self.rot.wf(),
            rot.wf(),
        ensures
            r.i == quat_mul_i_s(self.rot.spec_conjugate(), *rot),
            r.j == quat_mul_j_s(self.rot.spec_conjugate(), *rot),
            r.k == quat_mul_k_s(self.rot.spec_conjugate(), *rot),
            r.w == quat_mul_w_s(self.rot.spec_conjugate(), *rot),
            r.wf(),
    {
        self.rot.conjugate().mul(rot)
    }

    /// Composes this transformer in front of `trafo`: the result first
    /// applies `trafo`, then this state. The cached matrices are composed by
    /// fixed-point matrix products.
    pub fn trafo(&self, trafo: &Transformer) -> (r: Transformer)
        requires
            self.wf(),
            trafo.wf(),
        ensures
            r.pos.x == mat4_point_x_s(self.mat, trafo.pos),
            r.pos.y == mat4_point_y_s(self.mat, trafo.pos),
            r.pos.z == mat4_point_z_s(self.mat, trafo.pos),
            r.offset.x == mat4_vec_x_s(self.mat, trafo.offset),
            r.offset.y == mat4_vec_y_s(self.mat, trafo.offset),
            r.offset.z == mat4_vec_z_s(self.mat, trafo.offset),
            r.rot.i == quat_mul_i_s(self.rot, trafo.rot),
            r.rot.j == quat_mul_j_s(self.rot, trafo.rot),
            r.rot.k == quat_mul_k_s(self.rot, trafo.rot),
            r.rot.w == quat_mul_w_s(self.rot, trafo.rot),
            r.scale.x == fx_mul_s(self.scale.x as int, trafo.scale.x as int),
            r.scale.y == fx_mul_s(self.scale.y as int, trafo.scale.y as int),
            r.scale.z == fx_mul_s(self.scale.z as int, trafo.scale.z as int),
            r.mat.m00 == mat4_mul_entry(self.mat, trafo.mat, 0, 0),
            r.mat.m01 == mat4_mul_entry(self.mat, trafo.mat, 0, 1),
            r.mat.m02 == mat4_mul_entry(self.mat, trafo.mat, 0, 2),
            r.mat.m03 == mat4_mul_entry(self.mat, trafo.mat, 0, 3),
            r.mat.m10 == mat4_mul_entry(self.mat, trafo.mat, 1, 0),
            r.mat.m11 == mat4_mul_entry(self.mat, trafo.mat, 1, 1),
            r.mat.m12 == mat4_mul_entry(self.mat, trafo.mat, 1, 2),
            r.mat.m13 == mat4_mul_entry(self.mat, trafo.mat, 1, 3),
            r.mat.m20 == mat4_mul_entry(self.mat, trafo.mat, 2, 0),
            r.mat.m21 == mat4_mul_entry(self.mat, trafo.mat, 2, 1),
            r.mat.m22 == mat4_mul_entry(self.mat, trafo.mat, 2, 2),
            r.mat.m23 == mat4_mul_entry(self.mat, trafo.mat, 2, 3),
            r.mat.m30 == mat4_mul_entry(self.mat, trafo.mat, 3, 0),
            r.mat.m31 == mat4_mul_entry(self.mat, trafo.mat, 3, 1),
            r.mat.m32 == mat4_mul_entry(self.mat, trafo.mat, 3, 2),
            r.mat.m33 == mat4_mul_entry(self.mat, trafo.mat, 3, 3),
            r.inv_mat.m00 == mat4_mul_entry(trafo.inv_mat, self.inv_mat, 0, 0),
            r.inv_mat.m01 == mat4_mul_entry(trafo.inv_mat, self.inv_mat, 0, 1),
            r.inv_mat.m02 == mat4_mul_entry(trafo.inv_mat, self.inv_mat, 0, 2),
            r.inv_mat.m03 == mat4_mul_entry(trafo.inv_mat, self.inv_mat, 0, 3),
            r.inv_mat.m10 == mat4_mul_entry(trafo.inv_mat, self.inv_mat, 1, 0),
            r.inv_mat.m11 == mat4_mul_entry(trafo.inv_mat, self.inv_mat, 1, 1),
            r.inv_mat.m12 == mat4_mul_entry(trafo.inv_mat, self.inv_mat, 1, 2),
            r.inv_mat.m13 == mat4_mul_entry(trafo.inv_mat, self.inv_mat, 1, 3),
            r.inv_mat.m20 == mat4_mul_entry(trafo.inv_mat, self.inv_mat, 2, 0),
            r.inv_mat.m21 == mat4_mul_entry(trafo.inv_mat, self.inv_mat, 2, 1),
            r.inv_mat.m22 == mat4_mul_entry(trafo.inv_mat, self.inv_mat, 2, 2),
            r.inv_mat.m23 == mat4_mul_entry(trafo.inv_mat, self.inv_mat, 2, 3),
            r.inv_mat.m30 == mat4_mul_entry(trafo.inv_mat, self.inv_mat, 3, 0),
            r.inv_mat.m31 == mat4_mul_entry(trafo.inv_mat, self.inv_mat, 3, 1),
            r.inv_mat.m32 == mat4_mul_entry(trafo.inv_mat, self.inv_mat, 3, 2),
            r.inv_mat.m33 == mat4_mul_entry(trafo.inv_mat, self.inv_mat, 3, 3),
    {
        proof {
            lemma_transformer_bounds(*self);
            lemma_transformer_bounds(*trafo);
        }
        Transformer {
            pos: self.trafo_point(&trafo.pos),
            offset: self.trafo_vec(&trafo.offset),
            rot: self.trafo_rot(&trafo.rot),
            scale: self.scale.component_mul(&trafo.scale),
            mat: mat4_mul(&self.mat, &trafo.mat),
            inv_mat: mat4_mul(&trafo.inv_mat, &self.inv_mat),
        }
    }

    /// Composes in place: `trafo` becomes this state applied after it.
    pub fn trafo_mut(&self, trafo: &mut Transformer)
        requires
            self.wf(),
            old(trafo).wf(),
        ensures
            final(trafo).pos.x == mat4_point_x_s(self.mat, old(trafo).pos),
            final(trafo).pos.y == mat4_point_y_s(self.mat, old(trafo).pos),
            final(trafo).pos.z == mat4_point_z_s(self.mat, old(trafo).pos),
            final(trafo).offset.x == mat4_vec_x_s(self.mat, old(trafo).offset),
            final(trafo).offset.y == mat4_vec_y_s(self.mat, old(trafo).offset),
            final(trafo).offset.z == mat4_vec_z_s(self.mat, old(trafo).offset),
            final(trafo).rot.i == quat_mul_i_s(self.rot, old(trafo).rot),
            final(trafo).rot.j == quat_mul_j_s(self.rot, old(trafo).rot),
            final(trafo).rot.k == quat_mul_k_s(self.rot, old(trafo).rot),
            final(trafo).rot.w == quat_mul_w_s(self.rot, old(trafo).rot),
            final(trafo).scale.x == fx_mul_s(self.scale.x as int, old(trafo).scale.x as int),
            final(trafo).scale.y == fx_mul_s(self.scale.y as int, old(trafo).scale.y as int),
            final(trafo).scale.z == fx_mul_s(self.scale.z as int, old(trafo).scale.z as int),
            final(trafo).mat.m00 == mat4_mul_entry(self.mat, old(trafo).mat, 0, 0),
            final(trafo).mat.m01 == mat4_mul_entry(self.mat, old(trafo).mat, 0, 1),
            final(trafo).mat.m02 == mat4_mul_entry(self.mat, old(trafo).mat, 0, 2),
            final(trafo).mat.m03 == mat4_mul_entry(self.mat, old(trafo).mat, 0, 3),
            final(trafo).mat.m10 == mat4_mul_entry(self.mat, old(trafo).mat, 1, 0),
            final(trafo).mat.m11 == mat4_mul_entry(self.mat, old(trafo).mat, 1, 1),
            final(trafo).mat.m12 == mat4_mul_entry(self.mat, old(trafo).mat, 1, 2),
            final(trafo).mat.m13 == mat4_mul_entry(self.mat, old(trafo).mat, 1, 3),
            final(trafo).mat.m20 == mat4_mul_entry(self.mat, old(trafo).mat, 2, 0),
            final(trafo).mat.m21 == mat4_mul_entry(self.mat, old(trafo).mat, 2, 1),
            final(trafo).mat.m22 == mat4_mul_entry(self.mat, old(trafo).mat, 2, 2),
            final(trafo).mat.m23 == mat4_mul_entry(self.mat, old(trafo).mat, 2, 3),
            final(trafo).mat.m30 == mat4_mul_entry(self.mat, old(trafo).mat, 3, 0),
            final(trafo).mat.m31 == mat4_mul_entry(self.mat, old(trafo).mat, 3, 1),
            final(trafo).mat.m32 == mat4_mul_entry(self.mat, old(trafo).mat, 3, 2),
            final(trafo).mat.m33 == mat4_mul_entry(self.mat, old(trafo).mat, 3, 3),
            final(trafo).inv_mat.m00 == mat4_mul_entry(old(trafo).inv_mat, self.inv_mat, 0, 0),
            final(trafo).inv_mat.m01 == mat4_mul_entry(old(trafo).inv_mat, self.inv_mat, 0, 1),
            final(trafo).inv_mat.m02 == mat4_mul_entry(old(trafo).inv_mat, self.inv_mat, 0, 2),
            final(trafo).inv_mat.m03 == mat4_mul_entry(old(trafo).inv_mat, self.inv_mat, 0, 3),
            final(trafo).inv_mat.m10 == mat4_mul_entry(old(trafo).inv_mat, self.inv_mat, 1, 0),
            final(trafo).inv_mat.m11 == mat4_mul_entry(old(trafo).inv_mat, self.inv_mat, 1, 1),
            final(trafo).inv_mat.m12 == mat4_mul_entry(old(trafo).inv_mat, self.inv_mat, 1, 2),
            final(trafo).inv_mat.m13 == mat4_mul_entry(old(trafo).inv_mat, self.inv_mat, 1, 3),
            final(trafo).inv_mat.m20 == mat4_mul_entry(old(trafo).inv_mat, self.inv_mat, 2, 0),
            final(trafo).inv_mat.m21 == mat4_mul_entry(old(trafo).inv_mat, self.inv_mat, 2, 1),
            final(trafo).inv_mat.m22 == mat4_mul_entry(old(trafo).inv_mat, self.inv_mat, 2, 2),
            final(trafo).inv_mat.m23 == mat4_mul_entry(old(trafo).inv_mat, self.inv_mat, 2, 3),
            final(trafo).inv_mat.m30 == mat4_mul_entry(old(trafo).inv_mat, self.inv_mat, 3, 0),
            final(trafo).inv_mat.m31 == mat4_mul_entry(old(trafo).inv_mat, self.inv_mat, 3, 1),
            final(trafo).inv_mat.m32 == mat4_mul_entry(old(trafo).inv_mat, self.inv_mat, 3, 2),
            final(trafo).inv_mat.m33 == mat4_mul_entry(old(trafo).inv_mat, self.inv_mat, 3, 3),
    {
        let r = self.trafo(trafo);
        *trafo = r;
    }

    /// Composes the inverse of this transformer in front of `trafo`.
    pub fn inv_trafo(&self, trafo: &Transformer) -> (r: Transformer)
        requires
            self.wf(),
            trafo.wf(),
            trafo.scale.in_lim(crate::fx::FX_LIM as int),
        ensures
            r.pos.x == mat4_point_x_s(self.inv_mat, trafo.pos),
            r.pos.y == mat4_point_y_s(self.inv_mat, trafo.pos),
            r.pos.z == mat4_point_z_s(self.inv_mat, trafo.pos),
            r.offset.x == mat4_vec_x_s(self.inv_mat, trafo.offset),
            r.offset.y == mat4_vec_y_s(self.inv_mat, trafo.offset),
            r.offset.z == mat4_vec_z_s(self.inv_mat, trafo.offset),
            r.rot.i == quat_mul_i_s(self.rot.spec_conjugate(), trafo.rot),
            r.rot.j == quat_mul_j_s(self.rot.spec_conjugate(), trafo.rot),
            r.rot.k == quat_mul_k_s(self.rot.spec_conjugate(), trafo.rot),
            r.rot.w == quat_mul_w_s(self.rot.spec_conjugate(), trafo.rot),
            r.scale.x == fx_div_s(trafo.scale.x as int, self.scale.x as int),
            r.scale.y == fx_div_s(trafo.scale.y as int, self.scale.y as int),
            r.scale.z == fx_div_s(trafo.scale.z as int, self.scale.z as int),
            r.mat.m00 == mat4_mul_entry(self.inv_mat, trafo.mat, 0, 0),
            r.mat.m01 == mat4_mul_entry(self.inv_mat, trafo.mat, 0, 1),
            r.mat.m02 == mat4_mul_entry(self.inv_mat, trafo.mat, 0, 2),
            r.mat.m03 == mat4_mul_entry(self.inv_mat, trafo.mat, 0, 3),
            r.mat.m10 == mat4_mul_entry(self.inv_mat, trafo.mat, 1, 0),
            r.mat.m11 == mat4_mul_entry(self.inv_mat, trafo.mat, 1, 1),
            r.mat.m12 == mat4_mul_entry(self.inv_mat, trafo.mat, 1, 2),
            r.mat.m13 == mat4_mul_entry(self.inv_mat, trafo.mat, 1, 3),
            r.mat.m20 == mat4_mul_entry(self.inv_mat, trafo.mat, 2, 0),
            r.mat.m21 == mat4_mul_entry(self.inv_mat, trafo.mat, 2, 1),
            r.mat.m22 == mat4_mul_entry(self.inv_mat, trafo.mat, 2, 2),
            r.mat.m23 == mat4_mul_entry(self.inv_mat, trafo.mat, 2, 3),
            r.mat.m30 == mat4_mul_entry(self.inv_mat, trafo.mat, 3, 0),
            r.mat.m31 == mat4_mul_entry(self.inv_mat, trafo.mat, 3, 1),
            r.mat.m32 == mat4_mul_entry(self.inv_mat, trafo.mat, 3, 2),
            r.mat.m33 == mat4_mul_entry(self.inv_mat, trafo.mat, 3, 3),
            r.inv_mat.m00 == mat4_mul_entry(trafo.inv_mat, self.mat, 0, 0),
            r.inv_mat.m01 == mat4_mul_entry(trafo.inv_mat, self.mat, 0, 1),
            r.inv_mat.m02 == mat4_mul_entry(trafo.inv_mat, self.mat, 0, 2),
            r.inv_mat.m03 == mat4_mul_entry(trafo.inv_mat, self.mat, 0, 3),
            r.inv_mat.m10 == mat4_mul_entry(trafo.inv_mat, self.mat, 1, 0),
            r.inv_mat.m11 == mat4_mul_entry(trafo.inv_mat, self.mat, 1, 1),
            r.inv_mat.m12 == mat4_mul_entry(trafo.inv_mat, self.mat, 1, 2),
            r.inv_mat.m13 == mat4_mul_entry(trafo.inv_mat, self.mat, 1, 3),
            r.inv_mat.m20 == mat4_mul_entry(trafo.inv_mat, self.mat, 2, 0),
            r.inv_mat.m21 == mat4_mul_entry(trafo.inv_mat, self.mat, 2, 1),
            r.inv_mat.m22 == mat4_mul_entry(trafo.inv_mat, self.mat, 2, 2),
            r.inv_mat.m23 == mat4_mul_entry(trafo.inv_mat, self.mat, 2, 3),
            r.inv_mat.m30 == mat4_mul_entry(trafo.inv_mat, self.mat, 3, 0),
            r.inv_mat.m31 == mat4_mul_entry(trafo.inv_mat, self.mat, 3, 1),
            r.inv_mat.m32 == mat4_mul_entry(trafo.inv_mat, self.mat, 3, 2),
            r.inv_mat.m33 == mat4_mul_entry(trafo.inv_mat, self.mat, 3, 3),
    {
        proof {
            lemma_transformer_bounds(*self);
            lemma_transformer_bounds(*trafo);
        }
        Transformer {
            pos: self.inv_trafo_point(&trafo.pos),
            offset: self.inv_trafo_vec(&trafo.offset),
            rot: self.inv_trafo_rot(&trafo.rot),
            scale: V3 {
                x: fx_div(trafo.scale.x, self.scale.x),
                y: fx_div(trafo.scale.y, self.scale.y),
                z: fx_div(trafo.scale.z, self.scale.z),
            },
            mat: mat4_mul(&self.inv_mat, &trafo.mat),
            inv_mat: mat4_mul(&trafo.inv_mat, &self.mat),
        }
    }

    /// Composes the inverse in place.
    pub fn inv_trafo_mut(&self, trafo: &mut Transformer)
        requires
            self.wf(),
            old(trafo).wf(),
            old(trafo).scale.in_lim(crate::fx::FX_LIM as int),
        ensures
            final(trafo).pos.x == mat4_point_x_s(self.inv_mat, old(trafo).pos),
            final(trafo).pos.y == mat4_point_y_s(self.inv_mat, old(trafo).pos),
            final(trafo).pos.z == mat4_point_z_s(self.inv_mat, old(trafo).pos),
            final(trafo).offset.x == mat4_vec_x_s(self.inv_mat, old(trafo).offset),
            final(trafo).offset.y == mat4_vec_y_s(self.inv_mat, old(trafo).offset),
            final(trafo).offset.z == mat4_vec_z_s(self.inv_mat, old(trafo).offset),
            final(trafo).rot.i == quat_mul_i_s(self.rot.spec_conjugate(), old(trafo).rot),
            final(trafo).rot.j == quat_mul_j_s(self.rot.spec_conjugate(), old(trafo).rot),
            final(trafo).rot.k == quat_mul_k_s(self.rot.spec_conjugate(), old(trafo).rot),
            final(trafo).rot.w == quat_mul_w_s(self.rot.spec_conjugate(), old(trafo).rot),
            final(trafo).scale.x == fx_div_s(old(trafo).scale.x as int, self.scale.x as int),
            final(trafo).scale.y == fx_div_s(old(trafo).scale.y as int, self.scale.y as int),
            final(trafo).scale.z == fx_div_s(old(trafo).scale.z as int, self.scale.z as int),
            final(trafo).mat.m00 == mat4_mul_entry(self.inv_mat, old(trafo).mat, 0, 0),
            final(trafo).mat.m01 == mat4_mul_entry(self.inv_mat, old(trafo).mat, 0, 1),
            final(trafo).mat.m02 == mat4_mul_entry(self.inv_mat, old(trafo).mat, 0, 2),
            final(trafo).mat.m03 == mat4_mul_entry(self.inv_mat, old(trafo).mat, 0, 3),
            final(trafo).mat.m10 == mat4_mul_entry(self.inv_mat, old(trafo).mat, 1, 0),
            final(trafo).mat.m11 == mat4_mul_entry(self.inv_mat, old(trafo).mat, 1, 1),
            final(trafo).mat.m12 == mat4_mul_entry(self.inv_mat, old(trafo).mat, 1, 2),
            final(trafo).mat.m13 == mat4_mul_entry(self.inv_mat, old(trafo).mat, 1, 3),
            final(trafo).mat.m20 == mat4_mul_entry(self.inv_mat, old(trafo).mat, 2, 0),
            final(trafo).mat.m21 == mat4_mul_entry(self.inv_mat, old(trafo).mat, 2, 1),
            final(trafo).mat.m22 == mat4_mul_entry(self.inv_mat, old(trafo).mat, 2, 2),
            final(trafo).mat.m23 == mat4_mul_entry(self.inv_mat, old(trafo).mat, 2, 3),
            final(trafo).mat.m30 == mat4_mul_entry(self.inv_mat, old(trafo).mat, 3, 0),
            final(trafo).mat.m31 == mat4_mul_entry(self.inv_mat, old(trafo).mat, 3, 1),
            final(trafo).mat.m32 == mat4_mul_entry(self.inv_mat, old(trafo).mat, 3, 2),
            final(trafo).mat.m33 == mat4_mul_entry(self.inv_mat, old(trafo).mat, 3, 3),
            final(trafo).inv_mat.m00 == mat4_mul_entry(old(trafo).inv_mat, self.mat, 0, 0),
            final(trafo).inv_mat.m01 == mat4_mul_entry(old(trafo).inv_mat, self.mat, 0, 1),
            final(trafo).inv_mat.m02 == mat4_mul_entry(old(trafo).inv_mat, self.mat, 0, 2),
            final(trafo).inv_mat.m03 == mat4_mul_entry(old(trafo).inv_mat, self.mat, 0, 3),
            final(trafo).inv_mat.m10 == mat4_mul_entry(old(trafo).inv_mat, self.mat, 1, 0),
            final(trafo).inv_mat.m11 == mat4_mul_entry(old(trafo).inv_mat, self.mat, 1, 1),
            final(trafo).inv_mat.m12 == mat4_mul_entry(old(trafo).inv_mat, self.mat, 1, 2),
            final(trafo).inv_mat.m13 == mat4_mul_entry(old(trafo).inv_mat, self.mat, 1, 3),
            final(trafo).inv_mat.m20 == mat4_mul_entry(old(trafo).inv_mat, self.mat, 2, 0),
            final(trafo).inv_mat.m21 == mat4_mul_entry(old(trafo).inv_mat, self.mat, 2, 1),
            final(trafo).inv_mat.m22 == mat4_mul_entry(old(trafo).inv_mat, self.mat, 2, 2),
            final(trafo).inv_mat.m23 == mat4_mul_entry(old(trafo).inv_mat, self.mat, 2, 3),
            final(trafo).inv_mat.m30 == mat4_mul_entry(old(trafo).inv_mat, self.mat, 3, 0),
            final(trafo).inv_mat.m31 == mat4_mul_entry(old(trafo).inv_mat, self.mat, 3, 1),
            final(trafo).inv_mat.m32 == mat4_mul_entry(old(trafo).inv_mat, self.mat, 3, 2),
            final(trafo).inv_mat.m33 == mat4_mul_entry(old(trafo).inv_mat, self.mat, 3, 3),
    {
        let r = self.inv_trafo(trafo);
        *trafo = r;
    }

    /// An inverted copy: negated position and offset, conjugated rotation,
    /// reciprocal scale, and the cached matrices swapped.
    pub fn inverse(&self) -> (r: Transformer)
        requires
            self.wf(),
        ensures
            r.pos.x == -self.pos.x && r.pos.y == -self.pos.y && r.pos.z == -self.pos.z,
            r.offset.x == -self.offset.x && r.offset.y == -self.offset.y && r.offset.z
                == -self.offset.z,
            r.rot == self.rot.spec_conjugate(),
            r.scale.x == fx_div_s(FX_ONE as int, self.scale.x as int),
            r.scale.y == fx_div_s(FX_ONE as int, self.scale.y as int),
            r.scale.z == fx_div_s(FX_ONE as int, self.scale.z as int),
            r.mat == self.inv_mat,
            r.inv_mat == self.mat,
    {
        Transformer {
            pos: V3 { x: -self.pos.x, y: -self.pos.y, z: -self.pos.z },
            offset: V3 { x: -self.offset.x, y: -self.offset.y, z: -self.offset.z },
            rot: self.rot.conjugate(),
            scale: V3 {
                x: fx_div(FX_ONE, self.scale.x),
                y: fx_div(FX_ONE, self.scale.y),
                z: fx_div(FX_ONE, self.scale.z),
            },
            mat: self.inv_mat,
            inv_mat: self.mat,
        }
    }

    /// Inverts the state in place.
    pub fn inverse_mut(&mut self)
        requires
            old(self).wf(),
        ensures
            final(self).pos.x == -old(self).pos.x,
            final(self).pos.y == -old(self).pos.y,
            final(self).pos.z == -old(self).pos.z,
            final(self).offset.x == -old(self).offset.x,
            final(self).offset.y == -old(self).offset.y,
            final(self).offset.z == -old(self).offset.z,
            final(self).rot == old(self).rot.spec_conjugate(),
            final(self).scale.x == fx_div_s(FX_ONE as int, old(self).scale.x as int),
            final(self).scale.y == fx_div_s(FX_ONE as int, old(self).scale.y as int),
            final(self).scale.z == fx_div_s(FX_ONE as int, old(self).scale.z as int),
            final(self).mat == old(self).inv_mat,
            final(self).inv_mat == old(self).mat,
    {
        let r = self.inverse();
        *self = r;
    }

    /// The world-frame image of the positive x axis.
    pub fn right(&self) -> (r: V3)
        requires
            self.rot.wf(),
        ensures
            r.x == rot00_s(self.rot) && r.y == rot10_s(self.rot) && r.z == rot20_s(self.rot),
            r.in_lim(ROT_LIM as int),
    {
        right(&self.rot)
    }

    /// The world-frame image of the negative x axis.
    pub fn left(&self) -> (r: V3)
        requires
            self.rot.wf(),
        ensures
            r.x == -rot00_s(self.rot) && r.y == -rot10_s(self.rot) && r.z == -rot20_s(self.rot),
    {
        let v = right(&self.rot);
        V3 { x: -v.x, y: -v.y, z: -v.z }
    }

    /// The world-frame image of the positive y axis.
    pub fn up(&self) -> (r: V3)
        requires
            self.rot.wf(),
        ensures
            r.x == rot01_s(self.rot) && r.y == rot11_s(self.rot) && r.z == rot21_s(self.rot),
            r.in_lim(ROT_LIM as int),
    {
        up(&self.rot)
    }

    /// The world-frame image of the negative y axis.
    pub fn down(&self) -> (r: V3)
        requires
            self.rot.wf(),
        ensures
            r.x == -rot01_s(self.rot) && r.y == -rot11_s(self.rot) && r.z == -rot21_s(self.rot),
    {
        let v = up(&self.rot);
        V3 { x: -v.x, y: -v.y, z: -v.z }
    }

    /// The world-frame image of the positive z axis.
    pub fn forward(&self) -> (r: V3)
        requires
            self.rot.wf(),
        ensures
            r.x == rot02_s(self.rot) && r.y == rot12_s(self.rot) && r.z == rot22_s(self.rot),
            r.in_lim(ROT_LIM as int),
    {
        forward(&self.rot)
    }

    /// The world-frame image of the negative z axis.
    pub fn backward(&self) -> (r: V3)
        requires
            self.rot.wf(),
        ensures
            r.x == -rot02_s(self.rot) && r.y == -rot12_s(self.rot) && r.z == -rot22_s(self.rot),
    {
        let v = forward(&self.rot);
        V3 { x: -v.x, y: -v.y, z: -v.z }
    }
}

/// The image of a small point under a bounded affine row stays bounded.
proof fn lemma_row_apply_bound(m: Mat4, p: V3)
    requires
        iabs(m.m00 as int) <= 0x80_0000 && iabs(m.m01 as int) <= 0x80_0000 && iabs(m.m02 as int)
            <= 0x80_0000,
        iabs(m.m10 as int) <= 0x80_0000 && iabs(m.m11 as int) <= 0x80_0000 && iabs(m.m12 as int)
            <= 0x80_0000,
        iabs(m.m20 as int) <= 0x80_0000 && iabs(m.m21 as int) <= 0x80_0000 && iabs(m.m22 as int)
            <= 0x80_0000,
        iabs(m.m03 as int) <= 0x8_0000_0000 && iabs(m.m13 as int) <= 0x8_0000_0000 && iabs(
            m.m23 as int,
        ) <= 0x8_0000_0000,
        p.in_lim(0x400_0000),
    ensures
        iabs(mat4_point_x_s(m, p)) <= 0x10_0000_0000,
        iabs(mat4_point_y_s(m, p)) <= 0x10_0000_0000,
        iabs(mat4_point_z_s(m, p)) <= 0x10_0000_0000,
        iabs(mat4_vec_x_s(m, p)) <= 0x10_0000_0000,
        iabs(mat4_vec_y_s(m, p)) <= 0x10_0000_0000,
        iabs(mat4_vec_z_s(m, p)) <= 0x10_0000_0000,
{
    crate::fx::lemma_fx_mul_bound(m.m00 as int, 0x80_0000, p.x as int, 0x400_0000);
    crate::fx::lemma_fx_mul_bound(m.m01 as int, 0x80_0000, p.y as int, 0x400_0000);
    crate::fx::lemma_fx_mul_bound(m.m02 as int, 0x80_0000, p.z as int, 0x400_0000);
    crate::fx::lemma_fx_mul_bound(m.m10 as int, 0x80_0000, p.x as int, 0x400_0000);
    crate::fx::lemma_fx_mul_bound(m.m11 as int, 0x80_0000, p.y as int, 0x400_0000);
    crate::fx::lemma_fx_mul_bound(m.m12 as int, 0x80_0000, p.z as int, 0x400_0000);
    crate::fx::lemma_fx_mul_bound(m.m20 as int, 0x80_0000, p.x as int, 0x400_0000);
    crate::fx::lemma_fx_mul_bound(m.m21 as int, 0x80_0000, p.y as int, 0x400_0000);
    crate::fx::lemma_fx_mul_bound(m.m22 as int, 0x80_0000, p.z as int, 0x400_0000);
}


/// A physical inertial system: linear and angular momentum, the transformer
/// state and the mass distribution.
#[derive(Clone, Copy, PartialEq, Eq, Structural, Debug)]
pub struct IS {
    pub momentum: V3,
    pub angular_mom: V3,
    pub state: Transformer,
    pub mass: MassDistribution,
}

/// The x component of the fixed-point cross product.
pub open spec fn cross_x_s(a: V3, b: V3) -> int {
    fx_mul_s(a.y as int, b.z as int) - fx_mul_s(a.z as int, b.y as int)
}

pub open spec fn cross_y_s(a: V3, b: V3) -> int {
    fx_mul_s(a.z as int, b.x as int) - fx_mul_s(a.x as int, b.z as int)
}

pub open spec fn cross_z_s(a: V3, b: V3) -> int {
    fx_mul_s(a.x as int, b.y as int) - fx_mul_s(a.y as int, b.x as int)
}

impl IS {
    /// The dynamic state is inside the working ranges.
    pub open spec fn dynamics_wf(self) -> bool {
        &&& self.momentum.in_lim(0x1000_0000)
        &&& self.angular_mom.in_lim(0x1000_0000)
        &&& self.mass.inv_inertia.in_lim(0x100_0000)
        &&& self.mass.mass != 0
        &&& iabs(self.mass.mass as int) <= 0x1000_0000
    }

    /// Constructor for an inertial system.
    pub fn new(mom: V3, angular_mom: V3, state: Transformer, mass: MassDistribution) -> (r: IS)
        ensures
            r.momentum == mom,
            r.angular_mom == angular_mom,
            r.state == state,
            r.mass == mass,
    {
        IS { momentum: mom, angular_mom, state, mass }
    }

    /// The angular velocity in the body frame: the inverse inertia tensor
    /// applied to the angular momentum.
    pub fn get_angular_vel(&self) -> (r: V3)
        requires
            self.dynamics_wf(),
        ensures
            r.x == dot3_s(
                self.mass.inv_inertia.e00 as int,
                self.mass.inv_inertia.e01 as int,
                self.mass.inv_inertia.e02 as int,
                self.angular_mom.x as int,
                self.angular_mom.y as int,
                self.angular_mom.z as int,
            ),
            r.y == dot3_s(
                self.mass.inv_inertia.e10 as int,
                self.mass.inv_inertia.e11 as int,
                self.mass.inv_inertia.e12 as int,
                self.angular_mom.x as int,
                self.angular_mom.y as int,
                self.angular_mom.z as int,
            ),
            r.z == dot3_s(
                self.mass.inv_inertia.e20 as int,
                self.mass.inv_inertia.e21 as int,
                self.mass.inv_inertia.e22 as int,
                self.angular_mom.x as int,
                self.angular_mom.y as int,
                self.angular_mom.z as int,
            ),
            r.in_lim(0x40_0000_0000),
    {
        proof {
            lemma_mat3_vec_bound(self.mass.inv_inertia, self.angular_mom);
        }
        self.mass.inv_inertia.mul_vec(&self.angular_mom)
    }

    /// The velocity of a body-frame point: the angular velocity crossed with
    /// the point.
    pub fn get_point_vel(&self, point: &V3) -> (r: V3)
        requires
            self.dynamics_wf(),
            point.in_lim(0x1000_0000),
        ensures
            r.x == cross_x_s(self.spec_angular_vel(), *point),
            r.y == cross_y_s(self.spec_angular_vel(), *point),
            r.z == cross_z_s(self.spec_angular_vel(), *point),
    {
        let av = self.get_angular_vel();
        proof {
            assert(av == self.spec_angular_vel());
        }
        av.cross(point)
    }

    /// The angular velocity scaled by a time step, as a value: the axis of
    /// the rotation one integration step applies.
    pub open spec fn spec_scaled_axis(self, t: i64) -> V3 {
        V3 {
            x: fx_mul_s(self.spec_angular_vel().x as int, t as int) as i64,
            y: fx_mul_s(self.spec_angular_vel().y as int, t as int) as i64,
            z: fx_mul_s(self.spec_angular_vel().z as int, t as int) as i64,
        }
    }

    /// The angular velocity as a value.
    pub open spec fn spec_angular_vel(self) -> V3 {
        V3 {
            x: dot3_s(
                self.mass.inv_inertia.e00 as int,
                self.mass.inv_inertia.e01 as int,
                self.mass.inv_inertia.e02 as int,
                self.angular_mom.x as int,
                self.angular_mom.y as int,
                self.angular_mom.z as int,
            ) as i64,
            y: dot3_s(
                self.mass.inv_inertia.e10 as int,
                self.mass.inv_inertia.e11 as int,
                self.mass.inv_inertia.e12 as int,
                self.angular_mom.x as int,
                self.angular_mom.y as int,
                self.angular_mom.z as int,
            ) as i64,
            z: dot3_s(
                self.mass.inv_inertia.e20 as int,
                self.mass.inv_inertia.e21 as int,
                self.mass.inv_inertia.e22 as int,
                self.angular_mom.x as int,
                self.angular_mom.y as int,
                self.angular_mom.z as int,
            ) as i64,
        }
    }

    /// Applies an impulse at a body-frame point: the momentum grows by the
    /// impulse, the angular momentum by the point crossed with it.
    pub fn apply_impulse(&mut self, imp: &V3, point: &V3)
        requires
            old(self).momentum.in_lim(0x1000_0000),
            old(self).angular_mom.in_lim(0x1000_0000),
            imp.in_lim(0x80_0000),
            point.in_lim(0x80_0000),
        ensures
            final(self).momentum.x == old(self).momentum.x + imp.x,
            final(self).momentum.y == old(self).momentum.y + imp.y,
            final(self).momentum.z == old(self).momentum.z + imp.z,
            final(self).angular_mom.x == old(self).angular_mom.x + cross_x_s(*point, *imp),
            final(self).angular_mom.y == old(self).angular_mom.y + cross_y_s(*point, *imp),
            final(self).angular_mom.z == old(self).angular_mom.z + cross_z_s(*point, *imp),
            final(self).state == old(self).state,
            final(self).mass == old(self).mass,
    {
        self.momentum = self.momentum.add(imp);
        proof {
            crate::fx::lemma_fx_mul_bound(point.y as int, 0x80_0000, imp.z as int, 0x80_0000);
            crate::fx::lemma_fx_mul_bound(point.z as int, 0x80_0000, imp.y as int, 0x80_0000);
            crate::fx::lemma_fx_mul_bound(point.z as int, 0x80_0000, imp.x as int, 0x80_0000);
            crate::fx::lemma_fx_mul_bound(point.x as int, 0x80_0000, imp.z as int, 0x80_0000);
            crate::fx::lemma_fx_mul_bound(point.x as int, 0x80_0000, imp.y as int, 0x80_0000);
            crate::fx::lemma_fx_mul_bound(point.y as int, 0x80_0000, imp.x as int, 0x80_0000);
        }
        let torque = point.cross(imp);
        self.angular_mom = self.angular_mom.add(&torque);
    }

    /// One step of semi-implicit Euler integration over `t`: the position
    /// moves by the momentum scaled with `t` over the mass, and the rotation
    /// is advanced by the rotation of the angular velocity scaled with `t`.
    pub fn integrate(&mut self, t: i64)
        requires
            old(self).dynamics_wf(),
            old(self).state.params_wf(),
            iabs(t as int) <= FX_ONE,
            old(self).state.pos.in_lim((POS_LIM - 0x200_0000) as int),
        ensures
            final(self).momentum == old(self).momentum,
            final(self).angular_mom == old(self).angular_mom,
            final(self).mass == old(self).mass,
            final(self).state.offset == old(self).state.offset,
            final(self).state.scale == old(self).state.scale,
            final(self).state.pos.x == old(self).state.pos.x + fx_mul_s(
                old(self).momentum.x as int,
                fx_div_s(t as int, old(self).mass.mass as int),
            ),
            final(self).state.pos.y == old(self).state.pos.y + fx_mul_s(
                old(self).momentum.y as int,
                fx_div_s(t as int, old(self).mass.mass as int),
            ),
            final(self).state.pos.z == old(self).state.pos.z + fx_mul_s(
                old(self).momentum.z as int,
                fx_div_s(t as int, old(self).mass.mass as int),
            ),
            final(self).state.rot.wf(),
            final(self).state.params_wf() || !final(self).state.pos.in_lim(POS_LIM as int),
            // the rotation advances by the axis-angle quaternion of the
            // scaled angular velocity, left-multiplied onto the old rotation
            final(self).state.rot.i == quat_mul_i_s(
                from_scaled_axis_s(old(self).spec_scaled_axis(t)),
                old(self).state.rot,
            ),
            final(self).state.rot.j == quat_mul_j_s(
                from_scaled_axis_s(old(self).spec_scaled_axis(t)),
                old(self).state.rot,
            ),
            final(self).state.rot.k == quat_mul_k_s(
                from_scaled_axis_s(old(self).spec_scaled_axis(t)),
                old(self).state.rot,
            ),
            final(self).state.rot.w == quat_mul_w_s(
                from_scaled_axis_s(old(self).spec_scaled_axis(t)),
                old(self).state.rot,
            ),
            // the cached matrices are left stale: callers refresh them with
            // a sync
            final(self).state.mat == old(self).state.mat,
            final(self).state.inv_mat == old(self).state.inv_mat,
    {
        let f = fx_div(t, self.mass.mass);
        proof {
            crate::fx::lemma_fx_div_bound(t as int, FX_ONE as int, self.mass.mass as int, 1);
            crate::fx::lemma_fx_mul_bound(
                self.momentum.x as int,
                0x1000_0000,
                f as int,
                0x1_0000_0000_0000,
            );
            crate::fx::lemma_fx_mul_bound(
                self.momentum.y as int,
                0x1000_0000,
                f as int,
                0x1_0000_0000_0000,
            );
            crate::fx::lemma_fx_mul_bound(
                self.momentum.z as int,
                0x1000_0000,
                f as int,
                0x1_0000_0000_0000,
            );
        }
        let delta = self.momentum.scale(f);
        self.state.pos = self.state.pos.add(&delta);
        let av = self.get_angular_vel();
        proof {
            crate::fx::lemma_fx_mul_bound(av.x as int, 0x40_0000_0000, t as int, FX_ONE as int);
            crate::fx::lemma_fx_mul_bound(av.y as int, 0x40_0000_0000, t as int, FX_ONE as int);
            crate::fx::lemma_fx_mul_bound(av.z as int, 0x40_0000_0000, t as int, FX_ONE as int);
        }
        let scaled = av.scale(t);
        proof {
            assert(av == old(self).spec_angular_vel());
            assert(scaled == old(self).spec_scaled_axis(t));
        }
        let q = Quat::from_scaled_axis(&scaled);
        self.state.rot = q.mul(&self.state.rot);
    }

    /// Refreshes the transformer's cached matrices.
    pub fn sync(&mut self)
        requires
            old(self).state.params_wf(),
        ensures
            final(self).momentum == old(self).momentum,
            final(self).angular_mom == old(self).angular_mom,
            final(self).mass == old(self).mass,
            final(self).state.pos == old(self).state.pos,
            final(self).state.offset == old(self).state.offset,
            final(self).state.scale == old(self).state.scale,
            final(self).state.rot == old(self).state.rot,
            final(self).state.wf(),
    {
        self.state.update_transformation();
    }

    /// Transforms a direction from the world frame into the body frame.
    pub fn trafo_vec_into(&self, vec: &V3) -> (r: V3)
        requires
            self.state.wf(),
            vec.in_lim(0x10_0000_0000),
        ensures
            r.x == mat4_vec_x_s(self.state.inv_mat, *vec),
            r.y == mat4_vec_y_s(self.state.inv_mat, *vec),
            r.z == mat4_vec_z_s(self.state.inv_mat, *vec),
    {
        self.state.inv_trafo_vec(vec)
    }

    /// Transforms a point from the world frame into the body frame.
    pub fn trafo_point_into(&self, point: &V3) -> (r: V3)
        requires
            self.state.wf(),
            point.in_lim(0x10_0000_0000),
        ensures
            r.x == mat4_point_x_s(self.state.inv_mat, *point),
            r.y == mat4_point_y_s(self.state.inv_mat, *point),
            r.z == mat4_point_z_s(self.state.inv_mat, *point),
    {
        self.state.inv_trafo_point(point)
    }

    /// Rotates a rotation from the world frame into the body frame.
    pub fn trafo_rot_into(&self, rot: &Quat) -> (r: Quat)
        requires
            self.state.rot.wf(),
            rot.wf(),
        ensures
            r.w == quat_mul_w_s(self.state.rot.spec_conjugate(), *rot),
            r.wf(),
    {
        self.state.inv_trafo_rot(rot)
    }

    /// Transforms a transformer state into the body frame.
    pub fn trafo_state_into(&self, state: &Transformer) -> (r: Transformer)
        requires
            self.state.wf(),
            state.wf(),
            state.scale.in_lim(crate::fx::FX_LIM as int),
        ensures
            r.pos.x == mat4_point_x_s(self.state.inv_mat, state.pos),
    {
        self.state.inv_trafo(state)
    }

    /// Transforms a transformer state into the body frame, in place.
    pub fn trafo_state_into_mut(&self, state: &mut Transformer)
        requires
            self.state.wf(),
            old(state).wf(),
            old(state).scale.in_lim(crate::fx::FX_LIM as int),
        ensures
            final(state).pos.x == mat4_point_x_s(self.state.inv_mat, old(state).pos),
    {
        self.state.inv_trafo_mut(state);
    }

    /// Transforms a direction from the body frame into the world frame.
    pub fn trafo_vec_outof(&self, vec: &V3) -> (r: V3)
        requires
            self.state.wf(),
            vec.in_lim(0x10_0000_0000),
        ensures
            r.x == mat4_vec_x_s(self.state.mat, *vec),
            r.y == mat4_vec_y_s(self.state.mat, *vec),
            r.z == mat4_vec_z_s(self.state.mat, *vec),
    {
        self.state.trafo_vec(vec)
    }

    /// Transforms a point from the body frame into the world frame.
    pub fn trafo_point_outof(&self, point: &V3) -> (r: V3)
        requires
            self.state.wf(),
            point.in_lim(0x10_0000_0000),
        ensures
            r.x == mat4_point_x_s(self.state.mat, *point),
            r.y == mat4_point_y_s(self.state.mat, *point),
            r.z == mat4_point_z_s(self.state.mat, *point),
    {
        self.state.trafo_point(point)
    }

    /// Rotates a rotation from the body frame into the world frame.
    pub fn trafo_rot_outof(&self, rot: &Quat) -> (r: Quat)
        requires
            self.state.rot.wf(),
            rot.wf(),
        ensures
            r.w == quat_mul_w_s(self.state.rot, *rot),
            r.wf(),
    {
        self.state.trafo_rot(rot)
    }

    /// Transforms a transformer state into the world frame.
    pub fn trafo_state_outof(&self, state: &Transformer) -> (r: Transformer)
        requires
            self.state.wf(),
            state.wf(),
        ensures
            r.pos.x == mat4_point_x_s(self.state.mat, state.pos),
    {
        self.state.trafo(state)
    }

    /// Transforms a transformer state into the world frame, in place.
    pub fn trafo_state_outof_mut(&self, state: &mut Transformer)
        requires
            self.state.wf(),
            old(state).wf(),
        ensures
            final(state).pos.x == mat4_point_x_s(self.state.mat, old(state).pos),
    {
        self.state.trafo_mut(state);
    }
}

/// Bound of an inverse-inertia application.
proof fn lemma_mat3_vec_bound(m: Mat3, v: V3)
    requires
        m.in_lim(0x100_0000),
        v.in_lim(0x1000_0000),
    ensures
        iabs(
            dot3_s(
                m.e00 as int,
                m.e01 as int,
                m.e02 as int,
                v.x as int,
                v.y as int,
                v.z as int,
            ),
        ) <= 0x40_0000_0000,
        iabs(
            dot3_s(
                m.e10 as int,
                m.e11 as int,
                m.e12 as int,
                v.x as int,
                v.y as int,
                v.z as int,
            ),
        ) <= 0x40_0000_0000,
        iabs(
            dot3_s(
                m.e20 as int,
                m.e21 as int,
                m.e22 as int,
                v.x as int,
                v.y as int,
                v.z as int,
            ),
        ) <= 0x40_0000_0000,
{
    crate::fx::lemma_fx_mul_bound(m.e00 as int, 0x100_0000, v.x as int, 0x1000_0000);
    crate::fx::lemma_fx_mul_bound(m.e01 as int, 0x100_0000, v.y as int, 0x1000_0000);
    crate::fx::lemma_fx_mul_bound(m.e02 as int, 0x100_0000, v.z as int, 0x1000_0000);
    crate::fx::lemma_fx_mul_bound(m.e10 as int, 0x100_0000, v.x as int, 0x1000_0000);
    crate::fx::lemma_fx_mul_bound(m.e11 as int, 0x100_0000, v.y as int, 0x1000_0000);
    crate::fx::lemma_fx_mul_bound(m.e12 as int, 0x100_0000, v.z as int, 0x1000_0000);
    crate::fx::lemma_fx_mul_bound(m.e20 as int, 0x100_0000, v.x as int, 0x1000_0000);
    crate::fx::lemma_fx_mul_bound(m.e21 as int, 0x100_0000, v.y as int, 0x1000_0000);
    crate::fx::lemma_fx_mul_bound(m.e22 as int, 0x100_0000, v.z as int, 0x1000_0000);
}

/// Two opposite impulses at the same point cancel exactly: applying an
/// impulse and then its negation returns the momentum and the angular
/// momentum to their starting values.
pub proof fn lemma_apply_impulse_round_trip(m0: V3, l0: V3, p: V3, r: V3, np: V3)
    requires
        np.x == -p.x && np.y == -p.y && np.z == -p.z,
    ensures
        m0.x + p.x + np.x == m0.x,
        m0.y + p.y + np.y == m0.y,
        m0.z + p.z + np.z == m0.z,
        l0.x + cross_x_s(r, p) + cross_x_s(r, np) == l0.x,
        l0.y + cross_y_s(r, p) + cross_y_s(r, np) == l0.y,
        l0.z + cross_z_s(r, p) + cross_z_s(r, np) == l0.z,
{
    crate::fx::lemma_fx_mul_neg(r.y as int, p.z as int);
    crate::fx::lemma_fx_mul_neg(r.z as int, p.y as int);
    crate::fx::lemma_fx_mul_neg(r.z as int, p.x as int);
    crate::fx::lemma_fx_mul_neg(r.x as int, p.z as int);
    crate::fx::lemma_fx_mul_neg(r.x as int, p.y as int);
    crate::fx::lemma_fx_mul_neg(r.y as int, p.x as int);
}

/// For a pure translation (identity rotation, unit scale), the cached
/// forward and inverse matrices compose to the exact identity: every entry
/// of their fixed-point product is the identity's.
pub proof fn lemma_transformer_inverse_translation(t: Transformer)
    requires
        t.wf(),
        t.rot == (Quat { i: 0i64, j: 0i64, k: 0i64, w: FX_ONE }),
        t.scale == (V3 { x: FX_ONE, y: FX_ONE, z: FX_ONE }),
    ensures
        forall|r: int, c: int|
            0 <= r < 4 && 0 <= c < 4 ==> #[trigger] mat4_mul_entry(t.mat, t.inv_mat, r, c) == (
            if r == c {
                FX_ONE as int
            } else {
                0
            }),
{
    assert forall|r: int, c: int| 0 <= r < 4 && 0 <= c < 4 implies #[trigger] mat4_mul_entry(
        t.mat,
        t.inv_mat,
        r,
        c,
    ) == (if r == c {
        FX_ONE as int
    } else {
        0
    }) by {
        crate::fx::lemma_fx_mul_one(t.pos.x as int);
        crate::fx::lemma_fx_mul_one(t.pos.y as int);
        crate::fx::lemma_fx_mul_one(t.pos.z as int);
        crate::fx::lemma_fx_mul_one(-(t.pos.x as int));
        crate::fx::lemma_fx_mul_one(-(t.pos.y as int));
        crate::fx::lemma_fx_mul_one(-(t.pos.z as int));
        crate::fx::lemma_fx_mul_one(t.offset.x as int);
        crate::fx::lemma_fx_mul_one(t.offset.y as int);
        crate::fx::lemma_fx_mul_one(t.offset.z as int);
        crate::fx::lemma_fx_mul_one(FX_ONE as int);
        crate::fx::lemma_fx_mul_one(0);
        assert(t.mat.m00 == FX_ONE && t.mat.m11 == FX_ONE && t.mat.m22 == FX_ONE);
        assert(t.mat.m01 == 0 && t.mat.m02 == 0 && t.mat.m10 == 0 && t.mat.m12 == 0 && t.mat.m20
            == 0 && t.mat.m21 == 0);
        assert(t.inv_mat.m00 == FX_ONE && t.inv_mat.m11 == FX_ONE && t.inv_mat.m22 == FX_ONE);
        assert(t.inv_mat.m01 == 0 && t.inv_mat.m02 == 0 && t.inv_mat.m10 == 0 && t.inv_mat.m12
            == 0 && t.inv_mat.m20 == 0 && t.inv_mat.m21 == 0);
        assert(t.mat.m03 == t.offset.x + t.pos.x);
        assert(t.mat.m13 == t.offset.y + t.pos.y);
        assert(t.mat.m23 == t.offset.z + t.pos.z);
        assert(t.inv_mat.m03 == -t.pos.x - t.offset.x);
        assert(t.inv_mat.m13 == -t.pos.y - t.offset.y);
        assert(t.inv_mat.m23 == -t.pos.z - t.offset.z);
        crate::fx::lemma_fx_mul_one(t.mat.m03 as int);
        crate::fx::lemma_fx_mul_one(t.mat.m13 as int);
        crate::fx::lemma_fx_mul_one(t.mat.m23 as int);
        crate::fx::lemma_fx_mul_one(t.inv_mat.m03 as int);
        crate::fx::lemma_fx_mul_one(t.inv_mat.m13 as int);
        crate::fx::lemma_fx_mul_one(t.inv_mat.m23 as int);
    }
}


/// One entry of the fixed-point product of two 3x3 matrices.
pub open spec fn mat3_mul_entry(a: Mat3, b: Mat3, r: int, c: int) -> int {
    fx_mul_s(mat3_entry(a, r, 0), mat3_entry(b, 0, c)) + fx_mul_s(
        mat3_entry(a, r, 1),
        mat3_entry(b, 1, c),
    ) + fx_mul_s(mat3_entry(a, r, 2), mat3_entry(b, 2, c))
}

/// For the identity inertia tensor, the cached inverse is again the identity
/// and their fixed-point product is exactly the identity.
pub proof fn lemma_identity_inertia_inverse(m: Mat3)
    requires
        m.e00 == FX_ONE && m.e11 == FX_ONE && m.e22 == FX_ONE,
        m.e01 == 0 && m.e02 == 0 && m.e10 == 0 && m.e12 == 0 && m.e20 == 0 && m.e21 == 0,
    ensures
        det3_s(m) != 0,
        inv3_fits(m),
        forall|r: int, c: int|
            0 <= r < 3 && 0 <= c < 3 ==> #[trigger] inv3_s(m, r, c) == (if r == c {
                FX_ONE as int
            } else {
                0
            }),
        forall|r: int, c: int|
            0 <= r < 3 && 0 <= c < 3 ==> #[trigger] mat3_mul_entry(m, m, r, c) == (if r == c {
                FX_ONE as int
            } else {
                0
            }),
{
    crate::fx::lemma_fx_mul_one(FX_ONE as int);
    crate::fx::lemma_fx_mul_one(0);
    assert(det3_s(m) == 0x1_0000_0000_0000) by (nonlinear_arith)
        requires
            m.e00 == 65536 && m.e11 == 65536 && m.e22 == 65536,
            m.e01 == 0 && m.e02 == 0 && m.e10 == 0 && m.e12 == 0 && m.e20 == 0 && m.e21 == 0,
    ;
    assert forall|r: int, c: int| 0 <= r < 3 && 0 <= c < 3 implies #[trigger] inv3_s(m, r, c) == (
    if r == c {
        FX_ONE as int
    } else {
        0
    }) by {
        assert(adj3_s(m, r, c) == (if r == c {
            0x1_0000_0000int
        } else {
            0int
        })) by (nonlinear_arith)
            requires
                m.e00 == 65536 && m.e11 == 65536 && m.e22 == 65536,
                m.e01 == 0 && m.e02 == 0 && m.e10 == 0 && m.e12 == 0 && m.e20 == 0 && m.e21 == 0,
                0 <= r < 3 && 0 <= c < 3,
        ;
        if r == c {
            vstd::arithmetic::div_mod::lemma_div_by_multiple(65536int, 0x1_0000_0000_0000int);
            assert(0x1_0000_0000int * (65536int * 65536int) == 65536int * 0x1_0000_0000_0000int)
                by (nonlinear_arith);
            assert(inv3_s(m, r, c) == tdiv(65536int * 0x1_0000_0000_0000int, 0x1_0000_0000_0000int));
        } else {
            vstd::arithmetic::div_mod::lemma_div_of0(0x1_0000_0000_0000int);
            assert(0int * (65536int * 65536int) == 0int) by (nonlinear_arith);
        }
    }
    assert forall|r: int, c: int| 0 <= r < 3 && 0 <= c < 3 implies #[trigger] mat3_mul_entry(
        m,
        m,
        r,
        c,
    ) == (if r == c {
        FX_ONE as int
    } else {
        0
    }) by {
        crate::fx::lemma_fx_mul_one(FX_ONE as int);
        crate::fx::lemma_fx_mul_one(0);
    }
}

} // verus!
