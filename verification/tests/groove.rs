use lofi::event::Section;
use lofi::groove::{sample_i16, try_sample_i16, GrooveConfig, GroovePart};
use lofi::mode::{DustyTape, GrooveContext, GrooveModeEngine, GrooveModeId};
use lofi::transport::Transport;

#[test]
fn groove_is_deterministic_and_audible() {
    let transport = Transport::default_at(0);
    let cfg = GrooveConfig {
        sample_rate: 48_000,
        seed: 1,
        part: GroovePart::Full,
    };
    let a = sample_i16(1_000, transport, Section::Groove, cfg);
    let b = sample_i16(1_000, transport, Section::Groove, cfg);
    assert_eq!(a, b);
    assert_ne!(a, 0);
}

#[test]
fn parts_render_within_the_crushed_range() {
    let transport = Transport::default_at(0);
    for part in [
        GroovePart::Full,
        GroovePart::Drums,
        GroovePart::Harmony,
        GroovePart::Bass,
        GroovePart::ArpUp,
        GroovePart::ArpDown,
    ] {
        for section in [Section::Intro, Section::Groove, Section::Drop, Section::Breakdown] {
            let cfg = GrooveConfig { sample_rate: 48_000, seed: 7, part };
            for t in (0..2_000_000).step_by(997) {
                let s = sample_i16(t, transport, section, cfg);
                // Crushing drops the low nine bits (unless clamped at the top).
                assert!(s == i16::MAX || s & 0x1ff == 0);
            }
        }
    }
}

#[test]
fn dusty_tape_folds_the_variation_into_the_seed() {
    let transport = Transport::default_at(0);
    let ctx = GrooveContext {
        root_time_us: 1_000,
        transport,
        section: Section::Groove,
        sample_rate: 48_000,
        seed: 1,
        density_milli: 500,
        swing_milli: 0,
        variation: 0,
    };
    let mode = DustyTape;
    assert_eq!(mode.id(), GrooveModeId::DustyTape);
    let direct = sample_i16(
        1_000,
        transport,
        Section::Groove,
        GrooveConfig { sample_rate: 48_000, seed: 1, part: GroovePart::Drums },
    );
    assert_eq!(mode.sample_i16(ctx, GroovePart::Drums), direct);
    let varied = GrooveContext { variation: 6, ..ctx };
    let shifted = sample_i16(
        1_000,
        transport,
        Section::Groove,
        GrooveConfig { sample_rate: 48_000, seed: 7, part: GroovePart::Drums },
    );
    assert_eq!(mode.sample_i16(varied, GroovePart::Drums), shifted);
}

#[test]
fn the_checked_sample_agrees_where_the_groove_is_defined() {
    let transport = Transport::default_at(0);
    for part in [GroovePart::Full, GroovePart::Drums, GroovePart::Bass] {
        let cfg = GrooveConfig { sample_rate: 48_000, seed: 3, part };
        for t in (0..1_000_000).step_by(4_999) {
            assert_eq!(try_sample_i16(t, transport, Section::Drop, cfg), Some(sample_i16(t, transport, Section::Drop, cfg)));
        }
    }
}

#[test]
fn a_sample_whose_phase_saturates_is_refused() {
    // An origin at the end of the clock, sampled at its start: the step's
    // phase saturates and the hat's envelope arithmetic overflows.
    let transport = Transport::new(i64::MAX, 90_000, 96);
    let cfg = GrooveConfig { sample_rate: 48_000, seed: 1, part: GroovePart::Drums };
    assert_eq!(try_sample_i16(i64::MIN, transport, Section::Groove, cfg), None);
}
