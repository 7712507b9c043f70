//! Surface materials and their scattering behavior.
//!
//! The set of materials is closed, so the shared scattering capability is a
//! tagged sum: a diffuse (Lambertian) surface, a fuzzed metal, and a clear
//! dielectric. Scattering that consumes randomness is split in two: a
//! deterministic core with an exact contract that takes the random draw as
//! an argument, and a drawing wrapper that states what holds of every
//! outcome.

use vstd::prelude::*;
use crate::fx::{
    FX_ONE, in_range, fxs_add, fxs_sub, fxs_mul, fxs_div, fxs_sqrt, fxs_abs, fx_add, fx_sub,
    fx_mul, fx_div, fx_sqrt, fx_abs, lemma_fxs_mul_zero_right, lemma_fxs_div_nonneg,
};
use crate::vec3::{
    Vec3, V3, vadd, vscale, vdot, vneg, vunit, vreflect, vrefract, vlen2, vnear_zero, ball_sample,
    unit_sample, lemma_vlen_pos,
};
use crate::ray::{Ray, RayV};
use crate::hittable::{Hit, HitV};
use crate::utils::random_scalar;

verus! {

/// Model of a diffuse surface: its base color.
pub struct LambertianV {
    pub albedo: V3,
}

/// Model of a metal surface: base color and reflection roughness.
pub struct MetalV {
    pub albedo: V3,
    pub fuzz: int,
}

/// Model of a dielectric surface: its index of refraction.
pub struct DialectricV {
    pub ir: int,
}

/// Model of any material.
pub enum MaterialV {
    Lambertian(LambertianV),
    Metal(MetalV),
    Dialectric(DialectricV),
}

pub open spec fn opt_scatter_view(r: Option<(Vec3, Ray)>) -> Option<(V3, RayV)> {
    match r {
        Some((att, sc)) => Some((att@, sc@)),
        None => None,
    }
}

/// A diffuse surface that scatters into the hemisphere around the normal.
#[derive(Clone, Copy, Debug)]
pub struct Lambertian {
    albedo: Vec3,
}

/// A reflective surface whose reflection is perturbed by `fuzz`.
#[derive(Clone, Copy, Debug)]
pub struct Metal {
    albedo: Vec3,
    fuzz: i64,
}

/// A clear refractive surface (glass); attenuation is always white.
#[derive(Clone, Copy, Debug)]
pub struct Dialectric {
    ir: i64,
}

/// Any surface material, by value.
#[derive(Clone, Copy, Debug)]
pub enum Material {
    Lambertian(Lambertian),
    Metal(Metal),
    Dialectric(Dialectric),
}

impl View for Lambertian {
    type V = LambertianV;

    closed spec fn view(&self) -> LambertianV {
        LambertianV { albedo: self.albedo@ }
    }
}

impl View for Metal {
    type V = MetalV;

    closed spec fn view(&self) -> MetalV {
        MetalV { albedo: self.albedo@, fuzz: self.fuzz as int }
    }
}

impl View for Dialectric {
    type V = DialectricV;

    closed spec fn view(&self) -> DialectricV {
        DialectricV { ir: self.ir as int }
    }
}

impl View for Material {
    type V = MaterialV;

    open spec fn view(&self) -> MaterialV {
        match self {
            Material::Lambertian(m) => MaterialV::Lambertian(m@),
            Material::Metal(m) => MaterialV::Metal(m@),
            Material::Dialectric(m) => MaterialV::Dialectric(m@),
        }
    }
}

/// Scatter direction of a diffuse surface: the normal plus a unit sample,
/// falling back to the normal when the sum degenerates.
pub open spec fn lambertian_scatter_spec(m: LambertianV, h: HitV, unit: V3) -> (V3, RayV) {
    let d = vadd(h.normal, unit);
    let dir = if vnear_zero(d) {
        h.normal
    } else {
        d
    };
    (m.albedo, RayV { orig: h.p, dir })
}

/// The same diffuse scattering, as the always-`Some` outcome of a draw.
pub open spec fn lambertian_scatter_opt(m: LambertianV, h: HitV, unit: V3) -> Option<(V3, RayV)> {
    Some(lambertian_scatter_spec(m, h, unit))
}

impl Lambertian {
    pub fn new(albedo: Vec3) -> (r: Lambertian)
        ensures
            r@ == (LambertianV { albedo: albedo@ }),
    {
        Lambertian { albedo }
    }

    /// Deterministic scattering core, taking the drawn unit vector.
    pub fn scatter_with(&self, hit: &Hit, unit: Vec3) -> (r: (Vec3, Ray))
        ensures
            (r.0@, r.1@) == lambertian_scatter_spec(self@, hit@, unit@),
    {
        let mut scatter_direction = Vec3::add(hit.normal, unit);
        if scatter_direction.near_zero() {
            scatter_direction = hit.normal;
        }
        let scattered = Ray::new(hit.p, scatter_direction);
        (self.albedo, scattered)
    }

    /// Diffuse surfaces always scatter, by the direction law of
    /// `scatter_with` applied to some drawn unit sample; the attenuation
    /// is exactly the albedo, so no color component is ever amplified.
    pub fn scatter(&self, _ray: &Ray, hit: &Hit) -> (r: Option<(Vec3, Ray)>)
        ensures
            r is Some,
            r matches Some((att, sc)) ==> att@ == self@.albedo && sc@.orig == hit@.p,
            exists|unit: V3|
                unit_sample(unit) && opt_scatter_view(r) == Some(
                    lambertian_scatter_spec(self@, hit@, unit),
                ),
    {
        let unit = Vec3::random_unit_vector();
        let pair = self.scatter_with(hit, unit);
        proof {
            assert(unit_sample(unit@) && opt_scatter_view(Some(pair)) == Some(
                lambertian_scatter_spec(self@, hit@, unit@),
            ));
        }
        Some(pair)
    }
}

/// Reflection off a metal surface perturbed by a fuzz sample; absorbed when
/// the perturbed ray would enter the surface.
pub open spec fn metal_scatter_with_spec(m: MetalV, ray: RayV, h: HitV, sample: V3) -> Option<
    (V3, RayV),
> {
    let refl0 = vreflect(ray.dir, h.normal);
    let refl = if m.fuzz > 0 {
        vadd(refl0, vscale(sample, m.fuzz))
    } else {
        refl0
    };
    if vdot(refl, h.normal) > 0 {
        Some((m.albedo, RayV { orig: h.p, dir: refl }))
    } else {
        None
    }
}

/// Scattering of a perfectly polished metal (no fuzz).
pub open spec fn metal_scatter_spec(m: MetalV, ray: RayV, h: HitV) -> Option<(V3, RayV)> {
    let refl = vreflect(ray.dir, h.normal);
    if vdot(refl, h.normal) > 0 {
        Some((m.albedo, RayV { orig: h.p, dir: refl }))
    } else {
        None
    }
}

impl Metal {
    /// The fuzz factor is clamped into `[0, 1]` at construction.
    pub fn new(albedo: Vec3, f: i64) -> (r: Metal)
        ensures
            r@ == (MetalV {
                albedo: albedo@,
                fuzz: if f < 0 {
                    0
                } else if f > FX_ONE {
                    FX_ONE as int
                } else {
                    f as int
                },
            }),
    {
        let fuzz = if f < 0 {
            0
        } else if f > FX_ONE {
            FX_ONE
        } else {
            f
        };
        Metal { albedo, fuzz }
    }

    /// Deterministic scattering core, taking the drawn fuzz sample.
    pub fn scatter_with(&self, ray: &Ray, hit: &Hit, sample: Vec3) -> (r: Option<(Vec3, Ray)>)
        ensures
            opt_scatter_view(r) == metal_scatter_with_spec(self@, ray@, hit@, sample@),
    {
        let mut reflected = Vec3::reflect(ray.direction(), hit.normal);
        if self.fuzz > 0 {
            reflected = Vec3::add(reflected, sample.scale(self.fuzz));
        }
        if Vec3::dot(reflected, hit.normal) > 0 {
            let scattered = Ray::new(hit.p, reflected);
            Some((self.albedo, scattered))
        } else {
            None
        }
    }

    /// A metal either reflects with exactly its albedo as attenuation, or
    /// absorbs the ray; a reported scatter always points off the surface.
    /// Either way the result is `scatter_with` of some drawn fuzz sample.
    pub fn scatter(&self, ray: &Ray, hit: &Hit) -> (r: Option<(Vec3, Ray)>)
        ensures
            r matches Some((att, sc)) ==> att@ == self@.albedo && sc@.orig == hit@.p && vdot(
                sc@.dir,
                hit@.normal,
            ) > 0,
            self@.fuzz == 0 ==> opt_scatter_view(r) == metal_scatter_spec(self@, ray@, hit@),
            exists|sample: V3|
                ball_sample(sample) && opt_scatter_view(r) == metal_scatter_with_spec(
                    self@,
                    ray@,
                    hit@,
                    sample,
                ),
    {
        let sample = Vec3::random_in_unit_sphere();
        let r = self.scatter_with(ray, hit, sample);
        proof {
            assert(ball_sample(sample@) && opt_scatter_view(r) == metal_scatter_with_spec(
                self@,
                ray@,
                hit@,
                sample@,
            ));
        }
        r
    }
}

/// Reflectance at the head-on base: `((1 - ir) / (1 + ir))^2`.
pub open spec fn schlick_r0(ir: int) -> int {
    let q = fxs_div(fxs_sub(FX_ONE as int, ir), fxs_add(FX_ONE as int, ir));
    fxs_mul(q, q)
}

pub open spec fn fxs_pow5(x: int) -> int {
    fxs_mul(fxs_mul(fxs_mul(fxs_mul(x, x), x), x), x)
}

/// Schlick's approximation of Fresnel reflectance.
pub open spec fn schlick_spec(cosine: int, ir: int) -> int {
    let r0 = schlick_r0(ir);
    fxs_add(r0, fxs_mul(fxs_sub(FX_ONE as int, r0), fxs_pow5(fxs_sub(FX_ONE as int, cosine))))
}

/// Schlick's reflectance approximation; `1 + ir` must not vanish.
pub fn schlick(cosine: i64, ir: i64) -> (r: i64)
    requires
        fxs_add(FX_ONE as int, ir as int) != 0,
    ensures
        r as int == schlick_spec(cosine as int, ir as int),
{
    let denom = fx_add(FX_ONE, ir);
    let q = fx_div(fx_sub(FX_ONE, ir), denom);
    let r0 = fx_mul(q, q);
    let gap = fx_sub(FX_ONE, cosine);
    let gap5 = fx_mul(fx_mul(fx_mul(fx_mul(gap, gap), gap), gap), gap);
    fx_add(r0, fx_mul(fx_sub(FX_ONE, r0), gap5))
}

/// A ray striking the surface head-on (`cos_theta` equal to one) reflects
/// with exactly the base reflectance.
pub proof fn lemma_schlick_head_on(ir: int)
    ensures
        schlick_spec(FX_ONE as int, ir) == schlick_r0(ir),
{
    let r0 = schlick_r0(ir);
    assert(fxs_sub(FX_ONE as int, FX_ONE as int) == 0);
    lemma_fxs_mul_zero_right(0);
    lemma_fxs_mul_zero_right(fxs_mul(0, 0));
    lemma_fxs_mul_zero_right(fxs_mul(fxs_mul(0, 0), 0));
    lemma_fxs_mul_zero_right(fxs_mul(fxs_mul(fxs_mul(0, 0), 0), 0));
    assert(fxs_pow5(0) == 0);
    lemma_fxs_mul_zero_right(fxs_sub(FX_ONE as int, r0));
}

/// Energy non-creation for diffuse surfaces: the attenuation of a
/// Lambertian scatter never exceeds the albedo in any component (it is
/// exactly the albedo).
pub proof fn lemma_lambertian_energy(m: LambertianV, h: HitV, unit: V3)
    ensures
        lambertian_scatter_spec(m, h, unit).0.x <= m.albedo.x,
        lambertian_scatter_spec(m, h, unit).0.y <= m.albedo.y,
        lambertian_scatter_spec(m, h, unit).0.z <= m.albedo.z,
{
}

/// Energy non-creation for metals: when a metal scatters at all, its
/// attenuation never exceeds the albedo in any component (it is exactly
/// the albedo).
pub proof fn lemma_metal_energy(m: MetalV, ray: RayV, h: HitV, sample: V3)
    ensures
        metal_scatter_with_spec(m, ray, h, sample) matches Some(r) ==> r.0.x <= m.albedo.x
            && r.0.y <= m.albedo.y && r.0.z <= m.albedo.z,
{
}

/// The quotient of refractive indices: entering the medium from outside
/// uses `1 / ir`, leaving it uses `ir`.
pub open spec fn dialectric_ratio(m: DialectricV, front_face: bool) -> int {
    if front_face {
        fxs_div(FX_ONE as int, m.ir)
    } else {
        m.ir
    }
}

/// Deterministic dielectric scattering, given the reflectance draw `rv`:
/// reflect on total internal reflection or when `rv` falls below the
/// Schlick reflectance, refract otherwise. Attenuation is always white.
pub open spec fn dialectric_scatter_spec(m: DialectricV, ray: RayV, h: HitV, rv: int) -> (
    V3,
    RayV,
) {
    let ratio = dialectric_ratio(m, h.front_face);
    let unit = vunit(ray.dir);
    let d = vdot(vneg(unit), h.normal);
    let cos_theta = if d > FX_ONE as int {
        FX_ONE as int
    } else {
        d
    };
    let sin_theta = fxs_sqrt(fxs_abs(fxs_sub(FX_ONE as int, fxs_mul(cos_theta, cos_theta))));
    let cannot_refract = fxs_mul(ratio, sin_theta) > FX_ONE as int;
    let will_reflect = rv < schlick_spec(cos_theta, ratio);
    let dir = if cannot_refract || will_reflect {
        vreflect(unit, h.normal)
    } else {
        vrefract(unit, h.normal, ratio)
    };
    (V3 { x: FX_ONE as int, y: FX_ONE as int, z: FX_ONE as int }, RayV { orig: h.p, dir })
}

/// The same dielectric scattering, as the always-`Some` outcome of a draw.
pub open spec fn dialectric_scatter_opt(m: DialectricV, ray: RayV, h: HitV, rv: int) -> Option<
    (V3, RayV),
> {
    Some(dialectric_scatter_spec(m, ray, h, rv))
}

impl Dialectric {
    #[verifier::type_invariant]
    spec fn wf(self) -> bool {
        self.ir > 0
    }

    /// A non-positive index of refraction is a caller error.
    pub fn new(index_of_refraction: i64) -> (r: Dialectric)
        requires
            index_of_refraction > 0,
        ensures
            r@ == (DialectricV { ir: index_of_refraction as int }),
    {
        Dialectric { ir: index_of_refraction }
    }

    /// Deterministic scattering core, taking the drawn reflectance sample.
    pub fn scatter_with(&self, ray: &Ray, hit: &Hit, rv: i64) -> (r: (Vec3, Ray))
        requires
            vlen2(ray@.dir) >= 1,
        ensures
            (r.0@, r.1@) == dialectric_scatter_spec(self@, ray@, hit@, rv as int),
    {
        proof {
            use_type_invariant(*self);
        }
        let refraction_ratio = if hit.front_face {
            fx_div(FX_ONE, self.ir)
        } else {
            self.ir
        };
        proof {
            if hit.front_face {
                lemma_fxs_div_nonneg(FX_ONE as int, self.ir as int);
            }
        }
        proof {
            lemma_vlen_pos(ray@.dir);
        }
        let unit_direction = Vec3::unit_vector(ray.direction());
        let d = Vec3::dot(unit_direction.neg(), hit.normal);
        let cos_theta = if d > FX_ONE {
            FX_ONE
        } else {
            d
        };
        let sin_theta = fx_sqrt(fx_abs(fx_sub(FX_ONE, fx_mul(cos_theta, cos_theta))));
        let cannot_refract = fx_mul(refraction_ratio, sin_theta) > FX_ONE;
        let will_reflect = rv < schlick(cos_theta, refraction_ratio);
        let direction = if cannot_refract || will_reflect {
            Vec3::reflect(unit_direction, hit.normal)
        } else {
            Vec3::refract(unit_direction, hit.normal, refraction_ratio)
        };
        let scattered = Ray::new(hit.p, direction);
        (Vec3::new(FX_ONE, FX_ONE, FX_ONE), scattered)
    }

    /// Glass always scatters, with white attenuation; the outgoing ray is
    /// the reflection or the refraction of the unit incoming direction.
    pub fn scatter(&self, ray: &Ray, hit: &Hit) -> (r: Option<(Vec3, Ray)>)
        requires
            vlen2(ray@.dir) >= 1,
        ensures
            r is Some,
            r matches Some((att, sc)) ==> att@ == (V3 {
                x: FX_ONE as int,
                y: FX_ONE as int,
                z: FX_ONE as int,
            }) && sc@.orig == hit@.p && (sc@.dir == vreflect(vunit(ray@.dir), hit@.normal)
                || sc@.dir == vrefract(
                vunit(ray@.dir),
                hit@.normal,
                dialectric_ratio(self@, hit@.front_face),
            )),
            exists|rv: int|
                0 <= rv < FX_ONE as int && opt_scatter_view(r) == Some(
                    dialectric_scatter_spec(self@, ray@, hit@, rv),
                ),
    {
        let rv = random_scalar();
        let pair = self.scatter_with(ray, hit, rv);
        proof {
            assert(0 <= (rv as int) && (rv as int) < FX_ONE as int && opt_scatter_view(Some(pair))
                == Some(dialectric_scatter_spec(self@, ray@, hit@, rv as int)));
        }
        Some(pair)
    }
}

/// Everything a scatter call can return: the deterministic per-material
/// scattering of some admissible random draw. Diffuse and dielectric
/// surfaces always scatter; only a metal may absorb.
pub open spec fn scatter_outcome_valid(
    m: MaterialV,
    ray: RayV,
    h: HitV,
    out: Option<(V3, RayV)>,
) -> bool {
    match m {
        MaterialV::Lambertian(l) => exists|unit: V3|
            unit_sample(unit) && out == #[trigger] lambertian_scatter_opt(l, h, unit),
        MaterialV::Metal(mm) => exists|sample: V3|
            ball_sample(sample) && out == #[trigger] metal_scatter_with_spec(mm, ray, h, sample),
        MaterialV::Dialectric(d) => exists|rv: int|
            0 <= rv < FX_ONE as int && out == #[trigger] dialectric_scatter_opt(d, ray, h, rv),
    }
}

proof fn lemma_outcome_lambertian(l: LambertianV, ray: RayV, h: HitV, out: Option<(V3, RayV)>, unit: V3)
    requires
        unit_sample(unit),
        out == Some(lambertian_scatter_spec(l, h, unit)),
    ensures
        scatter_outcome_valid(MaterialV::Lambertian(l), ray, h, out),
{
    assert(out == lambertian_scatter_opt(l, h, unit));
}

proof fn lemma_outcome_metal(mm: MetalV, ray: RayV, h: HitV, out: Option<(V3, RayV)>, sample: V3)
    requires
        ball_sample(sample),
        out == metal_scatter_with_spec(mm, ray, h, sample),
    ensures
        scatter_outcome_valid(MaterialV::Metal(mm), ray, h, out),
{
}

proof fn lemma_outcome_dialectric(d: DialectricV, ray: RayV, h: HitV, out: Option<(V3, RayV)>, rv: int)
    requires
        0 <= rv < FX_ONE as int,
        out == Some(dialectric_scatter_spec(d, ray, h, rv)),
    ensures
        scatter_outcome_valid(MaterialV::Dialectric(d), ray, h, out),
{
    assert(out == dialectric_scatter_opt(d, ray, h, rv));
}

impl Material {
    /// Dispatch scattering to the concrete material. The result is the
    /// deterministic scattering of some admissible draw; a reported
    /// scatter starts at the hit point, and diffuse and metal surfaces
    /// attenuate by exactly their albedo.
    #[verifier::rlimit(50)]
    pub fn scatter(&self, ray: &Ray, hit: &Hit) -> (r: Option<(Vec3, Ray)>)
        requires
            self@ is Dialectric ==> vlen2(ray@.dir) >= 1,
        ensures
            scatter_outcome_valid(self@, ray@, hit@, opt_scatter_view(r)),
            r matches Some((att, sc)) ==> sc@.orig == hit@.p,
            self@ matches MaterialV::Lambertian(m) ==> r is Some && (r matches Some((att, sc))
                ==> att@ == m.albedo),
            self@ matches MaterialV::Metal(m) ==> (r matches Some((att, sc)) ==> att@ == m.albedo
                && vdot(sc@.dir, hit@.normal) > 0),
            self@ matches MaterialV::Dialectric(m) ==> r is Some && (r matches Some((att, sc))
                ==> att@ == (V3 { x: FX_ONE as int, y: FX_ONE as int, z: FX_ONE as int })),
    {
        match self {
            Material::Lambertian(m) => {
                let r = m.scatter(ray, hit);
                proof {
                    let u = choose|unit: V3|
                        unit_sample(unit) && opt_scatter_view(r) == Some(
                            lambertian_scatter_spec(m@, hit@, unit),
                        );
                    assert(unit_sample(u) && opt_scatter_view(r) == Some(
                        lambertian_scatter_spec(m@, hit@, u),
                    ));
                    lemma_outcome_lambertian(m@, ray@, hit@, opt_scatter_view(r), u);
                    assert(self@ == MaterialV::Lambertian(m@));
                }
                return r;
            },
            Material::Metal(m) => {
                let r = m.scatter(ray, hit);
                proof {
                    let s = choose|sample: V3|
                        ball_sample(sample) && opt_scatter_view(r) == metal_scatter_with_spec(
                            m@,
                            ray@,
                            hit@,
                            sample,
                        );
                    assert(ball_sample(s) && opt_scatter_view(r) == metal_scatter_with_spec(
                        m@,
                        ray@,
                        hit@,
                        s,
                    ));
                    lemma_outcome_metal(m@, ray@, hit@, opt_scatter_view(r), s);
                    assert(self@ == MaterialV::Metal(m@));
                }
                return r;
            },
            Material::Dialectric(m) => {
                let r = m.scatter(ray, hit);
                proof {
                    let v = choose|rv: int|
                        0 <= rv < FX_ONE as int && opt_scatter_view(r) == Some(
                            dialectric_scatter_spec(m@, ray@, hit@, rv),
                        );
                    assert(0 <= v < FX_ONE as int && opt_scatter_view(r) == Some(
                        dialectric_scatter_spec(m@, ray@, hit@, v),
                    ));
                    lemma_outcome_dialectric(m@, ray@, hit@, opt_scatter_view(r), v);
                    assert(self@ == MaterialV::Dialectric(m@));
                }
                return r;
            },
        }
    }
}

} // verus!
