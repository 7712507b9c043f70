use rstracer::fx::{fx_div, fx_from_int, fx_sqrt, FX_ONE};
use rstracer::vec3::Vec3;

fn inc() -> Vec3 {
    Vec3::new(FX_ONE, 2 * FX_ONE, 3 * FX_ONE)
}

fn vec_zero() -> Vec3 {
    Vec3::new(0, 0, 0)
}

fn ones() -> Vec3 {
    Vec3::new(FX_ONE, FX_ONE, FX_ONE)
}

#[test]
fn add() {
    assert_eq!(vec_zero().add(vec_zero()), vec_zero());
    assert_eq!(vec_zero().add(inc()), inc().clone());
    assert_eq!(inc().add(inc()), Vec3::new(2 * FX_ONE, 4 * FX_ONE, 6 * FX_ONE));
}

#[test]
fn sub() {
    let ones = Vec3::new(-FX_ONE, -FX_ONE, -FX_ONE);
    assert_eq!(vec_zero().sub(vec_zero()), vec_zero());
    assert_eq!(vec_zero().sub(ones), Vec3::new(FX_ONE, FX_ONE, FX_ONE));
    assert_eq!(ones.sub(ones), vec_zero());
}

#[test]
fn mul() {
    assert_eq!(vec_zero().mul(vec_zero()), vec_zero());
    assert_eq!(vec_zero().mul(inc()), vec_zero());
    assert_eq!(inc().mul(inc()), Vec3::new(FX_ONE, 4 * FX_ONE, 9 * FX_ONE));
    assert_eq!(inc().scale(3 * FX_ONE), Vec3::new(3 * FX_ONE, 6 * FX_ONE, 9 * FX_ONE));
}

#[test]
fn div() {
    assert_eq!(vec_zero().div(5 * FX_ONE), vec_zero());
    assert_eq!(vec_zero().div(2 * FX_ONE), vec_zero());
    assert_eq!(
        inc().div(2 * FX_ONE),
        Vec3::new(FX_ONE / 2, FX_ONE, 3 * FX_ONE / 2)
    );
    assert_eq!(inc().div(FX_ONE), Vec3::new(FX_ONE, 2 * FX_ONE, 3 * FX_ONE));
}

#[test]
fn dot() {
    let a = inc();
    let b = Vec3::new(4 * FX_ONE, -5 * FX_ONE, 6 * FX_ONE);
    assert_eq!(a.dot(b), 12 * FX_ONE);
    assert_eq!(vec_zero().dot(inc()), 0);
}

#[test]
fn cross() {
    let u = Vec3::new(3 * FX_ONE, -3 * FX_ONE, FX_ONE);
    let v = Vec3::new(4 * FX_ONE, 9 * FX_ONE, 2 * FX_ONE);
    let ans = Vec3::new(-15 * FX_ONE, -2 * FX_ONE, 39 * FX_ONE);
    assert_eq!(Vec3::cross(u, v), ans);
    assert_eq!(Vec3::cross(vec_zero(), vec_zero()), vec_zero());
    assert_eq!(Vec3::cross(ones(), ones()), vec_zero());
}

#[test]
fn unit_vector() {
    let x = fx_div(FX_ONE, fx_sqrt(fx_from_int(3)));
    let unit = Vec3::new(x, x, x);
    assert_eq!(Vec3::unit_vector(ones()), unit);
}

#[test]
fn neg() {
    assert_eq!(vec_zero().neg(), vec_zero());
    assert_eq!(ones().neg(), Vec3::new(-FX_ONE, -FX_ONE, -FX_ONE));
    assert_eq!(inc().neg(), Vec3::new(-FX_ONE, -2 * FX_ONE, -3 * FX_ONE));
    assert_eq!(inc().neg(), inc().neg());
    assert_eq!(
        Vec3::new(-FX_ONE, -5 * FX_ONE, 4 * FX_ONE).neg(),
        Vec3::new(FX_ONE, 5 * FX_ONE, -4 * FX_ONE)
    );
}

#[test]
fn add_assign() {
    let mut zeroes = Vec3::default();
    assert_eq!(vec_zero(), vec_zero());
    zeroes.add_assign(ones());
    assert_eq!(vec_zero().add(ones()), zeroes);
    zeroes.add_assign(ones());
    assert_eq!(ones().add(ones()), Vec3::new(2 * FX_ONE, 2 * FX_ONE, 2 * FX_ONE));
}

#[test]
fn algebra_commutativity_concrete() {
    let a = Vec3::new(7 * FX_ONE, -2 * FX_ONE, FX_ONE / 4);
    let b = Vec3::new(-3 * FX_ONE, FX_ONE / 2, 11 * FX_ONE);
    assert_eq!(a.add(b), b.add(a));
    assert_eq!(a.dot(b), b.dot(a));
    assert_eq!(Vec3::cross(a, b), Vec3::cross(b, a).neg());
}

#[test]
fn unit_vector_length_near_one() {
    let samples = [
        Vec3::new(FX_ONE, 0, 0),
        Vec3::new(FX_ONE, FX_ONE, FX_ONE),
        Vec3::new(3 * FX_ONE, -5 * FX_ONE, 2 * FX_ONE),
        Vec3::new(0, 0, 42 * FX_ONE),
        Vec3::new(-FX_ONE / 2, FX_ONE / 3, -FX_ONE / 7),
    ];
    for v in samples.iter() {
        let len = Vec3::unit_vector(*v).length();
        assert!((len - FX_ONE).abs() <= 64, "unit length {} too far from one", len);
    }
}

#[test]
fn reflect_and_refract_head_on() {
    // Reflecting -z off a +z normal sends the ray straight back.
    let down = Vec3::new(0, 0, -FX_ONE);
    let n = Vec3::new(0, 0, FX_ONE);
    assert_eq!(Vec3::reflect(down, n), Vec3::new(0, 0, FX_ONE));
    // Refracting head-on with an index ratio of one passes straight
    // through.
    assert_eq!(Vec3::refract(down, n, FX_ONE), down);
}

#[test]
fn div_by_one_identity() {
    let samples = [
        Vec3::new(FX_ONE, -2 * FX_ONE, 3),
        Vec3::new(0, 0, 0),
        Vec3::new(-12345, 67890, 1),
    ];
    for v in samples.iter() {
        assert_eq!(v.div(FX_ONE), *v);
    }
}
