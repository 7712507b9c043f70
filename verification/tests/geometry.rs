use rstracer::camera::SHADOW_EPS;
use rstracer::fx::FX_ONE;
use rstracer::hittable::Hittable;
use rstracer::hittable_list::HittableList;
use rstracer::interval::Interval;
use rstracer::material::{Lambertian, Material};
use rstracer::ray::Ray;
use rstracer::sphere::Sphere;
use rstracer::utils::INFINITY;
use rstracer::vec3::Vec3;

fn gray() -> Material {
    Material::Lambertian(Lambertian::new(Vec3::new(FX_ONE / 2, FX_ONE / 2, FX_ONE / 2)))
}

fn forward_interval() -> Interval {
    Interval::new(SHADOW_EPS, INFINITY)
}

#[test]
fn sphere_head_on_hit_distance() {
    // Origin two units from the center, radius one: the hit parameter is
    // exactly distance minus radius.
    let s = Sphere::new(Vec3::new(0, 0, -2 * FX_ONE), FX_ONE, gray());
    let toward = Ray::new(Vec3::new(0, 0, 0), Vec3::new(0, 0, -FX_ONE));
    let hit = s.hit(&toward, &forward_interval()).expect("head-on ray must hit");
    assert_eq!(hit.t, FX_ONE);
    assert!(hit.front_face);

    let away = Ray::new(Vec3::new(0, 0, 0), Vec3::new(0, 0, FX_ONE));
    assert!(s.hit(&away, &forward_interval()).is_none());
}

#[test]
fn front_face_normal_opposes_ray() {
    let s = Sphere::new(Vec3::new(0, 0, -2 * FX_ONE), FX_ONE, gray());
    // From outside.
    let outside = Ray::new(Vec3::new(0, 0, 0), Vec3::new(0, 0, -FX_ONE));
    let hit = s.hit(&outside, &forward_interval()).unwrap();
    assert!(outside.direction().dot(hit.normal) <= 0);
    // From the center of the sphere: the hit is on the back face and the
    // normal is flipped inward.
    let inside = Ray::new(Vec3::new(0, 0, -2 * FX_ONE), Vec3::new(0, 0, -FX_ONE));
    let hit2 = s.hit(&inside, &forward_interval()).unwrap();
    assert!(!hit2.front_face);
    assert!(inside.direction().dot(hit2.normal) <= 0);
}

#[test]
fn aggregate_reports_nearest_hit() {
    let near = Sphere::new(Vec3::new(0, 0, -2 * FX_ONE), FX_ONE / 2, gray());
    let middle = Sphere::new(Vec3::new(0, 0, -4 * FX_ONE), FX_ONE / 2, gray());
    let far = Sphere::new(Vec3::new(0, 0, -6 * FX_ONE), FX_ONE / 2, gray());
    let mut world = HittableList::new();
    // Farthest first, so the scan must replace its best hit twice.
    world.push(far);
    world.push(middle);
    world.push(near);

    let ray = Ray::new(Vec3::new(0, 0, 0), Vec3::new(0, 0, -FX_ONE));
    let itv = forward_interval();
    let best = world.hit(&ray, &itv).expect("the ray runs through all three");
    assert_eq!(best.t, 3 * FX_ONE / 2);
    for s in [near, middle, far] {
        let individual = s.hit(&ray, &itv).expect("each sphere is on the ray");
        assert!(best.t <= individual.t);
    }
}

#[test]
fn empty_and_cleared_scene_hits_nothing() {
    let ray = Ray::new(Vec3::new(0, 0, 0), Vec3::new(0, 0, -FX_ONE));
    let itv = forward_interval();
    let mut world = HittableList::new();
    assert!(world.hit(&ray, &itv).is_none());
    world.push(Sphere::new(Vec3::new(0, 0, -2 * FX_ONE), FX_ONE, gray()));
    assert!(world.hit(&ray, &itv).is_some());
    world.clear();
    assert!(world.hit(&ray, &itv).is_none());
}

#[test]
fn ray_at_walks_the_line() {
    let r = Ray::new(Vec3::new(FX_ONE, 0, 0), Vec3::new(0, 2 * FX_ONE, 0));
    assert_eq!(r.at(0), Vec3::new(FX_ONE, 0, 0));
    assert_eq!(r.at(FX_ONE), Vec3::new(FX_ONE, 2 * FX_ONE, 0));
    assert_eq!(r.at(FX_ONE / 2), Vec3::new(FX_ONE, FX_ONE, 0));
    assert_eq!(r.origin(), Vec3::new(FX_ONE, 0, 0));
    assert_eq!(r.direction(), Vec3::new(0, 2 * FX_ONE, 0));
}
