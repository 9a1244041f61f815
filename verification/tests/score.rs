use lofi::music::score::{event_hash, humanize_us, swing_us};

#[test]
fn swing_delays_offbeats_only() {
    assert_eq!(swing_us(0, 18, 100_000), 0);
    assert_eq!(swing_us(4, 18, 100_000), 0);
    assert_eq!(swing_us(2, 18, 100_000), 18_000);
    assert_eq!(swing_us(3, 18, 100_000), 9_000);
}

#[test]
fn humanisation_stays_within_its_bound() {
    assert_eq!(humanize_us(1, 2, 3, 0), 0);
    for step in 0..500 {
        let h = humanize_us(77, 5, step, 800);
        assert!((-800..=800).contains(&h));
    }
    assert_eq!(event_hash(1, 2, 3), event_hash(1, 2, 3));
    assert_ne!(event_hash(1, 2, 3), event_hash(1, 2, 4));
}
