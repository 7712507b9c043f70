//! Three-component fixed-point vectors, used for points, directions and
//! colors alike.
//!
//! The mathematical model of a vector is [`V3`], a triple of unbounded
//! integers in the fixed-point scale; every executable operation is pinned
//! to a spec twin over [`V3`].

use vstd::prelude::*;
use crate::fx::{
    FX_ONE, FX_MAX, in_range, sat, iabs, fxs_add, fxs_sub, fxs_mul, fxs_div, fxs_neg, fxs_abs,
    fxs_from_int, fxs_sqrt, fx_add, fx_sub, fx_mul, fx_div, fx_neg, fx_abs, fx_from_int, fx_sqrt,
    fx_sat, lemma_fxs_mul_comm, lemma_fxs_mul_neg_right, lemma_fxs_add_neg, lemma_fxs_sub_swap,
    lemma_fxs_div_one, lemma_fxs_square_nonneg, lemma_sqrt_floor_bounds,
};
use crate::utils::{random_scalar, random_scalar_custom};

verus! {

/// Components smaller than this in magnitude count as "near zero"; it is
/// the coarsest magnitude whose square still registers at the fixed-point
/// scale.
pub const NEAR_ZERO_EPS: i64 = 256;

/// Mathematical model of a vector: three unbounded integers carrying the
/// fixed-point scale.
pub struct V3 {
    pub x: int,
    pub y: int,
    pub z: int,
}

pub open spec fn in_range3(a: V3) -> bool {
    in_range(a.x) && in_range(a.y) && in_range(a.z)
}

pub open spec fn vadd(a: V3, b: V3) -> V3 {
    V3 { x: fxs_add(a.x, b.x), y: fxs_add(a.y, b.y), z: fxs_add(a.z, b.z) }
}

pub open spec fn vsub(a: V3, b: V3) -> V3 {
    V3 { x: fxs_sub(a.x, b.x), y: fxs_sub(a.y, b.y), z: fxs_sub(a.z, b.z) }
}

/// Component-wise product (used for color attenuation).
pub open spec fn vmul(a: V3, b: V3) -> V3 {
    V3 { x: fxs_mul(a.x, b.x), y: fxs_mul(a.y, b.y), z: fxs_mul(a.z, b.z) }
}

pub open spec fn vscale(a: V3, t: int) -> V3 {
    V3 { x: fxs_mul(a.x, t), y: fxs_mul(a.y, t), z: fxs_mul(a.z, t) }
}

pub open spec fn vdiv(a: V3, t: int) -> V3
    recommends
        t != 0,
{
    V3 { x: fxs_div(a.x, t), y: fxs_div(a.y, t), z: fxs_div(a.z, t) }
}

pub open spec fn vneg(a: V3) -> V3 {
    V3 { x: fxs_neg(a.x), y: fxs_neg(a.y), z: fxs_neg(a.z) }
}

pub open spec fn vdot(a: V3, b: V3) -> int {
    fxs_add(fxs_add(fxs_mul(a.x, b.x), fxs_mul(a.y, b.y)), fxs_mul(a.z, b.z))
}

pub open spec fn vcross(a: V3, b: V3) -> V3 {
    V3 {
        x: fxs_sub(fxs_mul(a.y, b.z), fxs_mul(a.z, b.y)),
        y: fxs_sub(fxs_mul(a.z, b.x), fxs_mul(a.x, b.z)),
        z: fxs_sub(fxs_mul(a.x, b.y), fxs_mul(a.y, b.x)),
    }
}

pub open spec fn vlen2(a: V3) -> int {
    vdot(a, a)
}

pub open spec fn vlen(a: V3) -> int {
    fxs_sqrt(vlen2(a))
}

pub open spec fn vunit(a: V3) -> V3
    recommends
        vlen(a) != 0,
{
    vdiv(a, vlen(a))
}

pub open spec fn vnear_zero(a: V3) -> bool {
    iabs(a.x) < NEAR_ZERO_EPS as int && iabs(a.y) < NEAR_ZERO_EPS as int && iabs(a.z)
        < NEAR_ZERO_EPS as int
}

/// What the unit-ball sampler can return: a point strictly inside the unit
/// ball whose squared length registers at this scale.
pub open spec fn ball_sample(p: V3) -> bool {
    1 <= vlen2(p) && vlen2(p) < FX_ONE as int
}

/// What the unit-vector sampler can return: some in-ball sample,
/// normalized.
pub open spec fn unit_sample(s: V3) -> bool {
    exists|p: V3| ball_sample(p) && s == vunit(p)
}

/// Mirror reflection of `v` about the normal `n`: `v - 2 * dot(v, n) * n`.
pub open spec fn vreflect(v: V3, n: V3) -> V3 {
    vsub(v, vscale(vscale(n, fxs_from_int(2)), vdot(v, n)))
}

/// Snell refraction of the unit direction `uv` at a surface with unit
/// normal `n`, with `ratio` the quotient of refractive indices.
pub open spec fn vrefract(uv: V3, n: V3, ratio: int) -> V3 {
    let d = vdot(vneg(uv), n);
    let cos_theta = if d > FX_ONE as int {
        FX_ONE as int
    } else {
        d
    };
    let r_out_perp = vscale(vadd(uv, vscale(n, cos_theta)), ratio);
    let r_out_parallel = vscale(n, fxs_neg(fxs_sqrt(fxs_abs(fxs_sub(FX_ONE as int, vlen2(r_out_perp))))));
    vadd(r_out_perp, r_out_parallel)
}

/// A vector in world or color space. Components are fixed-point scalars
/// kept inside the saturation range.
#[derive(Clone, Copy, Debug, PartialEq, Eq, Structural)]
pub struct Vec3 {
    x: i64,
    y: i64,
    z: i64,
}

impl View for Vec3 {
    type V = V3;

    closed spec fn view(&self) -> V3 {
        V3 { x: self.x as int, y: self.y as int, z: self.z as int }
    }
}

impl Vec3 {
    /// Every `Vec3` that exists at run time has in-range components.
    #[verifier::type_invariant]
    pub open spec fn wf(self) -> bool {
        in_range3(self@)
    }

    pub fn new(e0: i64, e1: i64, e2: i64) -> (r: Vec3)
        ensures
            r@ == (V3 { x: sat(e0 as int), y: sat(e1 as int), z: sat(e2 as int) }),
    {
        Vec3 { x: fx_sat(e0), y: fx_sat(e1), z: fx_sat(e2) }
    }

    pub fn x(self) -> (r: i64)
        ensures
            r as int == self@.x,
    {
        self.x
    }

    pub fn y(self) -> (r: i64)
        ensures
            r as int == self@.y,
    {
        self.y
    }

    pub fn z(self) -> (r: i64)
        ensures
            r as int == self@.z,
    {
        self.z
    }

    pub fn add(self, rhs: Vec3) -> (r: Vec3)
        ensures
            r@ == vadd(self@, rhs@),
    {
        Vec3 { x: fx_add(self.x, rhs.x), y: fx_add(self.y, rhs.y), z: fx_add(self.z, rhs.z) }
    }

    pub fn add_assign(&mut self, rhs: Vec3)
        ensures
            final(self)@ == vadd(old(self)@, rhs@),
    {
        *self = Vec3::add(*self, rhs);
    }

    pub fn sub(self, rhs: Vec3) -> (r: Vec3)
        ensures
            r@ == vsub(self@, rhs@),
    {
        Vec3 { x: fx_sub(self.x, rhs.x), y: fx_sub(self.y, rhs.y), z: fx_sub(self.z, rhs.z) }
    }

    /// Component-wise product.
    pub fn mul(self, rhs: Vec3) -> (r: Vec3)
        ensures
            r@ == vmul(self@, rhs@),
    {
        Vec3 { x: fx_mul(self.x, rhs.x), y: fx_mul(self.y, rhs.y), z: fx_mul(self.z, rhs.z) }
    }

    /// Scale by a fixed-point scalar.
    pub fn scale(self, t: i64) -> (r: Vec3)
        ensures
            r@ == vscale(self@, t as int),
    {
        Vec3 { x: fx_mul(self.x, t), y: fx_mul(self.y, t), z: fx_mul(self.z, t) }
    }

    /// Divide by a fixed-point scalar; dividing by zero is a caller error.
    pub fn div(self, t: i64) -> (r: Vec3)
        requires
            t != 0,
        ensures
            r@ == vdiv(self@, t as int),
    {
        Vec3 { x: fx_div(self.x, t), y: fx_div(self.y, t), z: fx_div(self.z, t) }
    }

    pub fn neg(self) -> (r: Vec3)
        ensures
            r@ == vneg(self@),
    {
        Vec3 { x: fx_neg(self.x), y: fx_neg(self.y), z: fx_neg(self.z) }
    }

    pub fn dot(self, v: Vec3) -> (r: i64)
        ensures
            r as int == vdot(self@, v@),
    {
        fx_add(fx_add(fx_mul(self.x, v.x), fx_mul(self.y, v.y)), fx_mul(self.z, v.z))
    }

    pub fn cross(u: Vec3, v: Vec3) -> (r: Vec3)
        ensures
            r@ == vcross(u@, v@),
    {
        Vec3 {
            x: fx_sub(fx_mul(u.y, v.z), fx_mul(u.z, v.y)),
            y: fx_sub(fx_mul(u.z, v.x), fx_mul(u.x, v.z)),
            z: fx_sub(fx_mul(u.x, v.y), fx_mul(u.y, v.x)),
        }
    }

    pub fn length_squared(self) -> (r: i64)
        ensures
            r as int == vlen2(self@),
            r >= 0,
    {
        proof {
            lemma_vlen2_nonneg(self@);
        }
        Vec3::dot(self, self)
    }

    pub fn length(self) -> (r: i64)
        ensures
            r as int == vlen(self@),
            r >= 0,
    {
        let lsq = self.length_squared();
        fx_sqrt(lsq)
    }

    pub fn near_zero(self) -> (r: bool)
        ensures
            r == vnear_zero(self@),
    {
        fx_abs(self.x) < NEAR_ZERO_EPS && fx_abs(self.y) < NEAR_ZERO_EPS && fx_abs(self.z)
            < NEAR_ZERO_EPS
    }

    /// Normalize; the zero vector is a caller error.
    pub fn unit_vector(u: Vec3) -> (r: Vec3)
        requires
            vlen(u@) != 0,
        ensures
            r@ == vunit(u@),
    {
        let l = u.length();
        u.div(l)
    }

    /// A vector with components drawn uniformly from `[0, 1)`.
    pub fn random() -> (r: Vec3)
        ensures
            0 <= r@.x < FX_ONE as int,
            0 <= r@.y < FX_ONE as int,
            0 <= r@.z < FX_ONE as int,
    {
        Vec3::new(random_scalar(), random_scalar(), random_scalar())
    }

    /// A vector with components drawn uniformly from `[min, max)`.
    pub fn random_custom(min: i64, max: i64) -> (r: Vec3)
        requires
            in_range(min as int),
            min < max,
        ensures
            min as int <= r@.x < max as int,
            min as int <= r@.y < max as int,
            min as int <= r@.z < max as int,
    {
        Vec3::new(
            random_scalar_custom(min, max),
            random_scalar_custom(min, max),
            random_scalar_custom(min, max),
        )
    }

    /// Rejection-sample a point strictly inside the unit ball, excluding
    /// points too small to normalize at this scale. About half of all draws
    /// are accepted, so the retry bound is hit only with vanishing
    /// probability; a fixed in-ball point covers that corner.
    pub fn random_in_unit_sphere() -> (r: Vec3)
        ensures
            ball_sample(r@),
    {
        let mut tries: u32 = 64;
        while tries > 0
            decreases tries,
        {
            let p = Self::random_custom(-FX_ONE, FX_ONE);
            let lsq = p.length_squared();
            if 0 < lsq && lsq < FX_ONE {
                return p;
            }
            tries = tries - 1;
        }
        let half = FX_ONE / 2;
        proof {
            assert(32768int * 32768int == 1073741824int) by (nonlinear_arith);
            assert(1073741824int / (FX_ONE as int) == 16384int) by (nonlinear_arith)
                requires
                    FX_ONE as int == 65536,
            ;
            assert(0int * 0int == 0int) by (nonlinear_arith);
            vstd::arithmetic::div_mod::lemma_div_of0(FX_ONE as int);
            assert(fxs_mul(32768, 32768) == 16384);
            assert(fxs_mul(0, 0) == 0);
        }
        Vec3::new(half, 0, 0)
    }

    /// A point on the unit sphere: some in-ball sample, normalized, and
    /// therefore never near zero.
    pub fn random_unit_vector() -> (r: Vec3)
        ensures
            unit_sample(r@),
            !vnear_zero(r@),
    {
        let p = Self::random_in_unit_sphere();
        proof {
            lemma_vlen_pos(p@);
            lemma_unit_sample_registers(p@);
        }
        let r = Self::unit_vector(p);
        proof {
            assert(ball_sample(p@) && r@ == vunit(p@));
        }
        r
    }

    /// A unit sample, or its negation, in the half-space of `normal`.
    pub fn random_on_hemisphere(normal: Vec3) -> (r: Vec3)
        ensures
            vdot(r@, normal@) >= 0,
            exists|s: V3|
                unit_sample(s) && r@ == (if vdot(s, normal@) > 0 {
                    s
                } else {
                    vneg(s)
                }),
    {
        let on_unit_sphere = Self::random_unit_vector();
        let result = if Vec3::dot(on_unit_sphere, normal) > 0 {
            on_unit_sphere
        } else {
            proof {
                use_type_invariant(on_unit_sphere);
                lemma_vdot_neg_left(on_unit_sphere@, normal@);
            }
            on_unit_sphere.neg()
        };
        proof {
            let s = on_unit_sphere@;
            assert(unit_sample(s) && result@ == (if vdot(s, normal@) > 0 {
                s
            } else {
                vneg(s)
            }));
        }
        result
    }

    pub fn reflect(v: Vec3, n: Vec3) -> (r: Vec3)
        ensures
            r@ == vreflect(v@, n@),
    {
        let two = fx_from_int(2);
        Vec3::sub(v, n.scale(two).scale(Vec3::dot(v, n)))
    }

    pub fn refract(uv: Vec3, n: Vec3, etai_over_etat: i64) -> (r: Vec3)
        ensures
            r@ == vrefract(uv@, n@, etai_over_etat as int),
    {
        let d = Vec3::dot(uv.neg(), n);
        let cos_theta = if d > FX_ONE {
            FX_ONE
        } else {
            d
        };
        let r_out_perp = Vec3::add(uv, n.scale(cos_theta)).scale(etai_over_etat);
        let back = fx_abs(fx_sub(FX_ONE, r_out_perp.length_squared()));
        let r_out_parallel = n.scale(fx_neg(fx_sqrt(back)));
        Vec3::add(r_out_perp, r_out_parallel)
    }
}

impl Default for Vec3 {
    /// The zero vector.
    fn default() -> (r: Vec3)
        ensures
            r@ == (V3 { x: 0, y: 0, z: 0 }),
    {
        Vec3::new(0, 0, 0)
    }
}

/// Every vector has a non-negative squared length.
pub proof fn lemma_vlen2_nonneg(a: V3)
    ensures
        vlen2(a) >= 0,
{
    lemma_fxs_square_nonneg(a.x);
    lemma_fxs_square_nonneg(a.y);
    lemma_fxs_square_nonneg(a.z);
}

/// A squared length that registers at this scale gives a positive length.
pub proof fn lemma_vlen_pos(a: V3)
    requires
        vlen2(a) >= 1,
    ensures
        vlen(a) >= 1,
{
    let n = (vlen2(a) * (FX_ONE as int)) as nat;
    lemma_sqrt_floor_bounds(n);
    let s = crate::fx::sqrt_floor(n);
    assert(n >= 65536);
    assert(s >= 1) by (nonlinear_arith)
        requires
            n < (s + 1) * (s + 1),
            n >= 65536,
    ;
}

/// A component whose square registers, divided by a length below one
/// whole unit, keeps a magnitude of at least one near-zero step.
proof fn lemma_unit_component_large(a: int, l: int)
    requires
        fxs_mul(a, a) >= 1,
        1 <= l <= 65535,
    ensures
        iabs(fxs_div(a, l)) >= NEAR_ZERO_EPS as int,
{
    let one = FX_ONE as int;
    if iabs(a) <= 255 {
        assert(iabs(a) * iabs(a) <= 65025) by (nonlinear_arith)
            requires
                0 <= iabs(a) <= 255,
        ;
        vstd::arithmetic::div_mod::lemma_basic_div(iabs(a) * iabs(a), one);
        assert(false);
    }
    let q = (iabs(a) * one) / l;
    assert(iabs(a) * one >= 256 * one) by (nonlinear_arith)
        requires
            iabs(a) >= 256,
            one > 0,
    ;
    vstd::arithmetic::div_mod::lemma_div_is_ordered(256 * one, iabs(a) * one, l);
    vstd::arithmetic::div_mod::lemma_div_is_ordered_by_denominator(256 * one, l, 65535);
    vstd::arithmetic::div_mod::lemma_fundamental_div_mod_converse(16777216, 65535, 256, 256);
    assert(q >= 256);
    crate::fx::lemma_sat_neg(q);
}

/// Normalizing an in-ball sample never yields a near-zero vector: some
/// component keeps a magnitude of at least one near-zero step.
pub proof fn lemma_unit_sample_registers(p: V3)
    requires
        ball_sample(p),
    ensures
        !vnear_zero(vunit(p)),
{
    let one = FX_ONE as int;
    let n = (vlen2(p) * one) as nat;
    let l = vlen(p);
    lemma_vlen_pos(p);
    lemma_sqrt_floor_bounds(n);
    assert(l <= 65535) by (nonlinear_arith)
        requires
            l * l <= n,
            n <= 65535 * 65536,
            l >= 1,
    ;
    lemma_fxs_square_nonneg(p.x);
    lemma_fxs_square_nonneg(p.y);
    lemma_fxs_square_nonneg(p.z);
    if fxs_mul(p.x, p.x) >= 1 {
        lemma_unit_component_large(p.x, l);
    } else if fxs_mul(p.y, p.y) >= 1 {
        lemma_unit_component_large(p.y, l);
    } else {
        lemma_unit_component_large(p.z, l);
    }
}

/// Negating the left operand negates the dot product.
pub proof fn lemma_vdot_neg_left(a: V3, b: V3)
    requires
        in_range3(a),
    ensures
        vdot(vneg(a), b) == fxs_neg(vdot(a, b)),
{
    lemma_fxs_mul_comm(fxs_neg(a.x), b.x);
    lemma_fxs_mul_comm(fxs_neg(a.y), b.y);
    lemma_fxs_mul_comm(fxs_neg(a.z), b.z);
    lemma_fxs_mul_neg_right(b.x, a.x);
    lemma_fxs_mul_neg_right(b.y, a.y);
    lemma_fxs_mul_neg_right(b.z, a.z);
    lemma_fxs_mul_comm(b.x, a.x);
    lemma_fxs_mul_comm(b.y, a.y);
    lemma_fxs_mul_comm(b.z, a.z);
    lemma_fxs_add_neg(fxs_mul(a.x, b.x), fxs_mul(a.y, b.y));
    lemma_fxs_add_neg(fxs_add(fxs_mul(a.x, b.x), fxs_mul(a.y, b.y)), fxs_mul(a.z, b.z));
}

/// Negating the right operand negates the dot product.
pub proof fn lemma_vdot_neg_right(a: V3, b: V3)
    requires
        in_range3(b),
    ensures
        vdot(a, vneg(b)) == fxs_neg(vdot(a, b)),
{
    lemma_fxs_mul_neg_right(a.x, b.x);
    lemma_fxs_mul_neg_right(a.y, b.y);
    lemma_fxs_mul_neg_right(a.z, b.z);
    lemma_fxs_add_neg(fxs_mul(a.x, b.x), fxs_mul(a.y, b.y));
    lemma_fxs_add_neg(fxs_add(fxs_mul(a.x, b.x), fxs_mul(a.y, b.y)), fxs_mul(a.z, b.z));
}

/// Vector addition is commutative.
pub proof fn lemma_add_commutes(u: V3, v: V3)
    ensures
        vadd(u, v) == vadd(v, u),
{
}

/// The dot product is symmetric.
pub proof fn lemma_dot_commutes(u: V3, v: V3)
    ensures
        vdot(u, v) == vdot(v, u),
{
    lemma_fxs_mul_comm(u.x, v.x);
    lemma_fxs_mul_comm(u.y, v.y);
    lemma_fxs_mul_comm(u.z, v.z);
}

/// The cross product is antisymmetric.
pub proof fn lemma_cross_antisymmetric(u: V3, v: V3)
    ensures
        vcross(u, v) == vneg(vcross(v, u)),
{
    lemma_fxs_mul_comm(u.y, v.z);
    lemma_fxs_mul_comm(u.z, v.y);
    lemma_fxs_mul_comm(u.z, v.x);
    lemma_fxs_mul_comm(u.x, v.z);
    lemma_fxs_mul_comm(u.x, v.y);
    lemma_fxs_mul_comm(u.y, v.x);
    lemma_fxs_sub_swap(fxs_mul(v.y, u.z), fxs_mul(v.z, u.y));
    lemma_fxs_sub_swap(fxs_mul(v.z, u.x), fxs_mul(v.x, u.z));
    lemma_fxs_sub_swap(fxs_mul(v.x, u.y), fxs_mul(v.y, u.x));
}

/// Dividing a vector by one is the identity.
pub proof fn lemma_div_by_one(u: V3)
    requires
        in_range3(u),
    ensures
        vdiv(u, FX_ONE as int) == u,
{
    lemma_fxs_div_one(u.x);
    lemma_fxs_div_one(u.y);
    lemma_fxs_div_one(u.z);
}

} // verus!
