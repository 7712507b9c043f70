use rstracer::fx::{fx_from_int, FX_ONE};
use rstracer::utils::{degrees_to_radians, random_scalar, random_scalar_custom, PI};

#[test]
fn random() {
    for _ in 0..1000000 {
        let r = random_scalar();
        assert!(r < FX_ONE);
        assert!(r >= 0);
    }
}

#[test]
fn random_custom() {
    for max in 1..1000000 {
        let r = random_scalar_custom(0, (max as i64) * FX_ONE);
        assert!(r < (max as i64) * FX_ONE);
        assert!(r >= 0);
    }
}

#[test]
fn half_turn_is_pi() {
    let r = degrees_to_radians(fx_from_int(180));
    assert!((r - PI).abs() <= 2, "expected about pi, got {}", r);
}
