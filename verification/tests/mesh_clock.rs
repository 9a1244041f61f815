use lofi::clock::DisciplineConfig;
use lofi::mesh::clock::MeshClock;

fn cfg() -> DisciplineConfig {
    DisciplineConfig {
        reject_offset_us: 50_000,
        ..DisciplineConfig::default()
    }
}

#[test]
fn cold_start_steps_onto_timeline() {
    let mut clock = MeshClock::new();
    clock.observe(1_000_000, 5_000_000, cfg());
    // Immediately reads close to the reference, no slow slew-in.
    assert_eq!(clock.mesh_from_local(1_000_000), 5_000_000);
}

#[test]
fn converges_under_drift() {
    // Reference runs 80us per 100ms faster than our local clock.
    let mut clock = MeshClock::new();
    let mut err_late = 0;
    for step in 0..400 {
        let local = step * 100_000;
        let reference = local + 50_000 + step * 80; // offset + drift
        let obs = clock.observe(local, reference, cfg());
        if step > 200 {
            err_late = err_late.max(obs.error_us.abs());
        }
    }
    assert!(err_late < 1_500, "late error too large: {err_late}");
}

#[test]
fn schedule_now_never_goes_backwards() {
    let mut clock = MeshClock::new();
    clock.observe(0, 1_000_000, cfg());
    let mut last = clock.schedule_now(0);
    // Hammer it with observations that jerk the offset both ways.
    for step in 1..2_000 {
        let local = step * 1_000;
        let jitter = if step % 2 == 0 { 9_000 } else { -9_000 };
        clock.observe(local, local + 1_000_000 + jitter, cfg());
        let now = clock.schedule_now(local);
        assert!(now >= last, "mesh went backwards at step {step}");
        last = now;
    }
}

#[test]
fn schedule_now_slews_instead_of_stepping_after_discipline() {
    let mut clock = MeshClock::new();
    clock.observe(0, 0, cfg());
    let block_us = 2_667;
    let first = clock.schedule_now(0);
    let second = clock.schedule_now(block_us);
    assert_eq!(second - first, block_us);

    let mut immediate = cfg();
    immediate.offset_smoothing_shift = 0;
    clock.observe(block_us, block_us + 20_000, immediate);
    let third = clock.schedule_now(block_us * 2);
    let advance = third - second;
    assert!(advance > block_us * 99 / 100);
    assert!(advance < block_us * 101 / 100);
    assert!(clock.mesh_from_local(block_us * 2) - third > 19_000);
}

#[test]
fn fresh_clock_has_no_reference_until_observed_or_anchored() {
    let mut clock = MeshClock::new();
    assert!(!clock.has_reference());
    clock.anchor_as_root();
    assert!(clock.has_reference());
    assert_eq!(clock.mesh_from_local(42), 42);
    assert_eq!(clock.local_from_mesh(42), 42);
}

#[test]
fn schedule_slew_stays_limited_across_a_resync_and_a_step() {
    let mut clock = MeshClock::new();
    clock.observe(0, 0, cfg());
    let first = clock.schedule_now(0);
    assert_eq!(first, clock.mesh_from_local(0));
    clock.request_resync();
    clock.observe(1_000_000, 50_000_000, cfg());
    clock.anchor_as_root();
    assert_eq!(clock.mesh_from_local(1_000_000), 50_000_000);
    // One second of local time may move the output by at most 0.5% extra.
    let second = clock.schedule_now(1_000_000);
    assert_eq!(second - first, 1_000_000 + 5_000);
    assert_eq!(clock.schedule_now(1_000_000), second);
}
