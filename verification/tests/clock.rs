use lofi::clock::{ClockModel, DisciplineConfig};

#[test]
fn offset_converges() {
    let mut clock = ClockModel::new();
    let cfg = DisciplineConfig::default();
    for t in (0..2_000_000).step_by(100_000) {
        clock.observe(t + 12_000, t, cfg);
    }
    assert!(clock.offset_us() < -8_000);
    assert!(clock.offset_us() > -13_000);
}

#[test]
fn far_observation_is_rejected_after_the_first() {
    let mut clock = ClockModel::new();
    let cfg = DisciplineConfig::default();
    let first = clock.observe(0, 1_000_000, cfg);
    assert!(first.accepted);
    let wild = clock.observe(100_000, 100_000 + 10_000_000, cfg);
    assert!(!wild.accepted);
    assert_eq!(wild.offset_us, first.offset_us);
}

#[test]
fn with_offset_maps_both_ways() {
    let clock = ClockModel::with_offset(250);
    assert_eq!(clock.offset_us(), 250);
    assert_eq!(clock.rate_ppb(), 0);
    assert_eq!(clock.root_from_local(1_000), 1_250);
    assert_eq!(clock.local_from_root(1_250), 1_000);
}
