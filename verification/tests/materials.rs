use rstracer::fx::{fx_add, fx_div, fx_mul, fx_sub, FX_ONE};
use rstracer::hittable::Hit;
use rstracer::material::{schlick, Dialectric, Lambertian, Material, Metal};
use rstracer::ray::Ray;
use rstracer::vec3::Vec3;

fn hit_at_origin(material: Material, front_face: bool) -> Hit {
    Hit {
        p: Vec3::new(0, 0, 0),
        normal: Vec3::new(0, 0, FX_ONE),
        t: FX_ONE,
        material,
        front_face,
    }
}

#[test]
fn lambertian_attenuation_is_albedo() {
    let albedo = Vec3::new(52428, 39321, 26214);
    let lam = Lambertian::new(albedo);
    let material = Material::Lambertian(lam);
    let hit = hit_at_origin(material, true);
    let ray = Ray::new(Vec3::new(0, 0, FX_ONE), Vec3::new(0, 0, -FX_ONE));
    let (att, scattered) = lam.scatter(&ray, &hit).expect("diffuse always scatters");
    assert_eq!(att, albedo);
    assert_eq!(scattered.origin(), hit.p);
}

#[test]
fn metal_reflects_or_absorbs() {
    let albedo = Vec3::new(FX_ONE / 2, FX_ONE / 2, FX_ONE / 2);
    let polished = Metal::new(albedo, 0);
    let material = Material::Metal(polished);
    let hit = hit_at_origin(material, true);
    // Incoming along -z against a +z normal: reflected straight back out.
    let ray = Ray::new(Vec3::new(0, 0, FX_ONE), Vec3::new(0, 0, -FX_ONE));
    let (att, scattered) = polished.scatter(&ray, &hit).expect("head-on reflection leaves");
    assert_eq!(att, albedo);
    assert_eq!(scattered.direction(), Vec3::new(0, 0, FX_ONE));
    // Incoming along +z: its reflection points into the surface, so the
    // ray is absorbed.
    let grazing = Ray::new(Vec3::new(0, 0, -FX_ONE), Vec3::new(0, 0, FX_ONE));
    assert!(polished.scatter(&grazing, &hit).is_none());
}

#[test]
fn metal_fuzz_is_clamped_to_one() {
    let albedo = Vec3::new(FX_ONE, FX_ONE, FX_ONE);
    let rough = Metal::new(albedo, 3 * FX_ONE);
    let material = Material::Metal(rough);
    let hit = hit_at_origin(material, true);
    let ray = Ray::new(Vec3::new(0, 0, FX_ONE), Vec3::new(0, 0, -FX_ONE));
    let sample = Vec3::new(0, 0, FX_ONE);
    let (_, scattered) = rough
        .scatter_with(&ray, &hit, sample)
        .expect("perturbed reflection still leaves the surface");
    // reflect gives (0, 0, 1); a fuzz of one (not three) adds the sample
    // once.
    assert_eq!(scattered.direction(), Vec3::new(0, 0, 2 * FX_ONE));
}

#[test]
fn dielectric_attenuation_is_white() {
    let glass = Dialectric::new(98304);
    let material = Material::Dialectric(glass);
    let hit = hit_at_origin(material, true);
    let ray = Ray::new(Vec3::new(0, 0, FX_ONE), Vec3::new(0, 0, -FX_ONE));
    let (att, scattered) = glass.scatter(&ray, &hit).expect("glass always scatters");
    assert_eq!(att, Vec3::new(FX_ONE, FX_ONE, FX_ONE));
    assert_eq!(scattered.origin(), hit.p);
}

#[test]
fn dielectric_reflects_when_draw_is_low() {
    let glass = Dialectric::new(98304);
    let material = Material::Dialectric(glass);
    let hit = hit_at_origin(material, true);
    let ray = Ray::new(Vec3::new(0, 0, FX_ONE), Vec3::new(0, 0, -FX_ONE));
    // A draw of zero is below any positive reflectance, so the ray
    // reflects deterministically.
    let (_, scattered) = glass.scatter_with(&ray, &hit, 0);
    let unit = Vec3::unit_vector(ray.direction());
    assert_eq!(scattered.direction(), Vec3::reflect(unit, hit.normal));
}

#[test]
fn schlick_head_on_equals_base_reflectance() {
    let ir = 98304;  // one and a half
    let q = fx_div(fx_sub(FX_ONE, ir), fx_add(FX_ONE, ir));
    let r0 = fx_mul(q, q);
    assert_eq!(schlick(FX_ONE, ir), r0);
    assert_eq!(r0, 2621);
}

#[test]
fn schlick_grows_toward_grazing() {
    let ir = 98304;
    let head_on = schlick(FX_ONE, ir);
    let grazing = schlick(FX_ONE / 10, ir);
    assert!(grazing > head_on);
}
