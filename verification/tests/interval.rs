use rstracer::fx::FX_ONE;
use rstracer::interval::Interval;
use rstracer::utils::INFINITY;

#[test]
fn clamp_idempotent_concrete() {
    let i = Interval::new(2 * FX_ONE, 5 * FX_ONE);
    for x in [-10 * FX_ONE, 0, 2 * FX_ONE, 3 * FX_ONE, 5 * FX_ONE, 9 * FX_ONE] {
        assert_eq!(i.clamp(i.clamp(x)), i.clamp(x));
    }
}

#[test]
fn contains_endpoints_concrete() {
    let i = Interval::new(-FX_ONE, 7 * FX_ONE);
    assert!(i.contains(i.min));
    assert!(i.contains(i.max));
    assert!(!i.contains(i.min - 1));
    assert!(!i.contains(i.max + 1));
}

#[test]
fn surrounds_excludes_endpoints_concrete() {
    let i = Interval::new(-FX_ONE, 7 * FX_ONE);
    assert!(!i.surrounds(i.min));
    assert!(!i.surrounds(i.max));
    assert!(i.surrounds(0));
}

#[test]
fn default_interval_is_empty() {
    let d = Interval::default();
    assert_eq!(d.min, INFINITY);
    assert_eq!(d.max, -INFINITY);
    assert!(!d.contains(0));
    assert!(!d.contains(INFINITY));
}
