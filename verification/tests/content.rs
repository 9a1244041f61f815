use lofi::music::content::{motif, motif_for, signature, signature_for, steps, StepPattern, MOTIF_COUNT};

#[test]
fn content_is_bounded_and_ordered() {
    for index in 0..MOTIF_COUNT {
        let motif = motif(index);
        assert!((7..=12).contains(&motif.events.len()));
        assert!(motif
            .events
            .windows(2)
            .all(|pair| pair[0].step < pair[1].step));
        assert!(motif.events.iter().all(|event| event.step < 64));
        for step in 0..64 {
            assert_eq!(motif.active_at(step), motif.event_at(step).is_some());
        }
    }
}

#[test]
fn every_signature_is_reachable() {
    let mut seen = [false; 3];
    for seed in 0..500 {
        let selected = signature_for(seed).name;
        let index = (0..3u64)
            .position(|i| signature(i).name == selected)
            .unwrap();
        seen[index] = true;
    }
    assert!(seen.iter().all(|value| *value));
}

#[test]
fn distributed_roles_share_a_tight_timing_pocket() {
    for index in 0..3u64 {
        let signature = signature(index);
        let delays = [
            signature.kick_delay_us,
            signature.snare_delay_us,
            signature.hat_delay_us,
            signature.tonal_delay_us,
        ];
        let minimum = delays.iter().min().unwrap();
        let maximum = delays.iter().max().unwrap();
        assert!(
            maximum - minimum <= 2_000,
            "{} timing spread",
            signature.name
        );
        assert!(
            signature.humanize_us <= 1_000,
            "{} humanization",
            signature.name
        );
    }
}

#[test]
fn step_patterns_wrap_round_the_cycle() {
    let p = steps(&[0, 7, 63]);
    assert!(p.active(0) && p.active(7) && p.active(63));
    assert!(p.active(64) && p.active(-1) && p.active(71));
    assert!(!p.active(1) && !p.active(62));
    let q = StepPattern::new(1 << 5);
    assert!(q.active(5) && !q.active(6));
}

#[test]
fn motif_for_shifts_by_variation() {
    let floating = signature(0);
    assert_eq!(motif_for(&floating, 0).name, "FLOATING A");
    assert_eq!(motif_for(&floating, 1).name, "WINDOWLIGHT");
    assert_eq!(motif_for(&floating, 6).name, "FLOATING A");
    let polaroid = signature(2);
    assert_eq!(motif_for(&polaroid, 4).name, "FLOATING A");
    let first = motif(0);
    assert_eq!(first.event_at(4).unwrap().degree, 4);
    assert_eq!(first.event_at(68).unwrap().velocity, 62);
    assert!(first.event_at(5).is_none());
}
