use rstracer::camera::{Camera, SHADOW_EPS};
use rstracer::color::write_color;
use rstracer::fx::{fx_add, fx_mul, fx_sub, FX_ONE};
use rstracer::hittable::Hittable;
use rstracer::hittable_list::HittableList;
use rstracer::interval::Interval;
use rstracer::material::{Lambertian, Material};
use rstracer::ray::Ray;
use rstracer::sphere::Sphere;
use rstracer::utils::INFINITY;
use rstracer::vec3::Vec3;

const FX_HALF: i64 = 32768;

fn gray() -> Material {
    Material::Lambertian(Lambertian::new(Vec3::new(FX_ONE / 2, FX_ONE / 2, FX_ONE / 2)))
}

#[test]
fn ray_color_depth_zero_is_black() {
    let mut world = HittableList::new();
    world.push(Sphere::new(Vec3::new(0, 0, -FX_ONE), FX_HALF, gray()));
    let rays = [
        Ray::new(Vec3::new(0, 0, 0), Vec3::new(0, 0, -FX_ONE)),
        Ray::new(Vec3::new(FX_ONE, -FX_ONE, 0), Vec3::new(3, 1, 4)),
        Ray::new(Vec3::new(0, 0, 0), Vec3::new(0, 0, 0)),
    ];
    for ray in rays {
        assert_eq!(Camera::ray_color(ray, &world, 0), Vec3::new(0, 0, 0));
    }
    let empty = HittableList::new();
    for ray in rays {
        assert_eq!(Camera::ray_color(ray, &empty, 0), Vec3::new(0, 0, 0));
    }
}

#[test]
fn degenerate_direction_misses_to_black() {
    // A direction too short to register at the fixed-point scale cannot
    // be normalized into the background gradient; its color is black.
    let empty = HittableList::new();
    let stuck = Ray::new(Vec3::new(FX_ONE, 0, 0), Vec3::new(0, 0, 0));
    assert_eq!(Camera::ray_color(stuck, &empty, 3), Vec3::new(0, 0, 0));
    let tiny = Ray::new(Vec3::new(0, 0, 0), Vec3::new(5, -7, 2));
    assert_eq!(Camera::ray_color(tiny, &empty, 3), Vec3::new(0, 0, 0));
}

#[test]
fn gamma_full_white_and_black_bytes() {
    for n in [1i64, 2, 3, 7, 100, 999] {
        let sum = Vec3::new(n * FX_ONE, n * FX_ONE, n * FX_ONE);
        assert_eq!(write_color(sum, n as i32), "255 255 255\n");
        assert_eq!(write_color(Vec3::new(0, 0, 0), n as i32), "0 0 0\n");
    }
}

#[test]
fn write_color_line_shape() {
    // Half intensity, one sample: sqrt(0.5) ~ 0.7071 -> byte 181.
    let pixel = Vec3::new(FX_HALF, FX_HALF, FX_HALF);
    assert_eq!(write_color(pixel, 1), "181 181 181\n");
}

#[test]
fn render_emits_ppm_header_and_one_line_per_pixel() {
    let cam = Camera::new(FX_ONE, 4, 1, 2);
    assert_eq!(cam.image_width(), 4);
    assert_eq!(cam.image_height(), 4);
    let mut world = HittableList::new();
    world.push(Sphere::new(Vec3::new(0, 0, -FX_ONE), FX_HALF, gray()));
    let ppm = cam.render(&world);
    assert!(ppm.starts_with("P3\n4 4\n255\n"));
    let lines: Vec<&str> = ppm.lines().collect();
    assert_eq!(lines.len(), 3 + 16);
    for line in &lines[3..] {
        let parts: Vec<&str> = line.split(' ').collect();
        assert_eq!(parts.len(), 3);
        for p in parts {
            let byte: i64 = p.parse().unwrap();
            assert!((0..=255).contains(&byte));
        }
    }
}

#[test]
fn single_sphere_scene_center_and_corner() {
    // A sphere of radius one half, one unit in front of a 400-wide
    // sixteen-by-nine camera with one sample and depth one.
    let aspect = 116508;  // sixteen ninths
    let cam = Camera::new(aspect, 400, 1, 1);
    assert_eq!(cam.image_height(), 225);
    let mut world = HittableList::new();
    world.push(Sphere::new(Vec3::new(0, 0, -FX_ONE), FX_HALF, gray()));

    // The center ray hits the sphere nearly head-on: the hit parameter is
    // about one half and the corrected normal points back at the camera.
    let center_ray = cam.get_ray_at(200, 112, 0, 0);
    let itv = Interval::new(SHADOW_EPS, INFINITY);
    let hit = world.hit(&center_ray, &itv).expect("center ray hits the sphere");
    assert!((hit.t - FX_HALF).abs() <= 2000, "t = {}", hit.t);
    assert!(hit.normal.x().abs() <= 1000);
    assert!(hit.normal.y().abs() <= 1000);
    assert!((hit.normal.z() - FX_ONE).abs() <= 2000);
    // Mapping the normal as a color, (normal + white) / 2, gives about
    // (0.5, 0.5, 1.0).
    let mapped = hit.normal.add(Vec3::new(FX_ONE, FX_ONE, FX_ONE)).scale(FX_HALF);
    assert!((mapped.x() - FX_HALF).abs() <= 1000);
    assert!((mapped.y() - FX_HALF).abs() <= 1000);
    assert!((mapped.z() - FX_ONE).abs() <= 1000);
    // Under the scattering recursion with depth one, the scattered ray
    // contributes black.
    assert_eq!(Camera::ray_color(center_ray, &world, 1), Vec3::new(0, 0, 0));

    // A corner ray misses the sphere and must reproduce the background
    // gradient exactly.
    let corner_ray = cam.get_ray_at(0, 0, 0, 0);
    assert!(world.hit(&corner_ray, &itv).is_none());
    let unit = Vec3::unit_vector(corner_ray.direction());
    let a = fx_mul(fx_add(unit.y(), FX_ONE), FX_HALF);
    let expected = Vec3::new(FX_ONE, FX_ONE, FX_ONE)
        .scale(fx_sub(FX_ONE, a))
        .add(Vec3::new(FX_HALF, 45875, FX_ONE).scale(a));
    assert_eq!(Camera::ray_color(corner_ray, &world, 1), expected);
}
