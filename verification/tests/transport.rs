use lofi::transport::Transport;

#[test]
fn maps_time_to_ticks() {
    let t = Transport::new(1_000_000, 120_000, 96);
    assert_eq!(t.tick_at(1_500_000), 96);
    assert_eq!(t.root_time_for_tick(96), 1_500_000);
}

#[test]
fn tempo_change_keeps_tick_continuous() {
    let old = Transport::new(0, 120_000, 96);
    let changed = old.retimed(1_000_000, 90_000);
    assert_eq!(old.tick_at(1_000_000), changed.tick_at(1_000_000));
}

#[test]
fn decomposed_math_matches_wide_reference() {
    for bpm_milli in [40_000, 72_000, 80_000, 123_456, 200_000] {
        let transport = Transport::new(-123_456, bpm_milli, 96);
        for elapsed in [
            -86_400_000_000_i64,
            -2_666,
            0,
            2_666,
            86_400_000_000,
            432_000_000_000,
        ] {
            let root = transport.song_zero_us + elapsed;
            let expected =
                (elapsed as i128 * i128::from(bpm_milli) * 96 / 60_000_000_000_i128) as i64;
            assert_eq!(transport.tick_at(root), expected);
        }
        for tick in [-1_000_000_i64, -1, 0, 1, 1_000_000] {
            let numerator = i128::from(tick) * 60_000_000_000_i128;
            let denominator = i128::from(bpm_milli) * 96;
            let quotient = numerator / denominator;
            let remainder = numerator % denominator;
            let expected =
                quotient + i128::from(remainder != 0 && ((numerator > 0) == (denominator > 0)));
            assert_eq!(
                transport.root_time_for_tick(tick),
                transport.song_zero_us + expected as i64,
            );
        }
    }
}

#[test]
fn default_transport_is_ninety_bpm() {
    let t = Transport::default_at(5);
    assert_eq!(t.song_zero_us, 5);
    assert_eq!(t.bpm_milli, 90_000);
    assert_eq!(t.ticks_per_beat, 96);
    // One beat at 90 BPM is 666_666.6 us: tick 96 starts at its ceiling.
    assert_eq!(t.root_time_for_tick(96), 5 + 666_667);
    assert_eq!(t.tick_at(5 + 666_667), 96);
}

#[test]
fn each_tick_starts_at_its_root_time() {
    for bpm_milli in [40_000u32, 80_000, 123_456, 200_000] {
        let t = Transport::new(-7_777, bpm_milli, 96);
        for k in [1i64, 2, 95, 96, 1_000, 123_457, 10_000_000] {
            let start = t.root_time_for_tick(k);
            assert_eq!(t.tick_at(start), k);
            assert_eq!(t.tick_at(start - 1), k - 1);
        }
    }
}

#[test]
fn negative_ticks_start_at_their_rounded_up_instant() {
    // 90 BPM at 96 ticks per beat: 8_640_000 ticks per milli-minute, so a
    // tick lasts 60_000_000_000 / 8_640_000 = 6944.44 us.
    let t = Transport::default_at(1_000);
    assert_eq!(t.root_time_for_tick(-1), 1_000 - 6_944);
    assert_eq!(t.root_time_for_tick(-96), 1_000 - 666_666);
    assert_eq!(t.root_time_for_tick(1), 1_000 + 6_945);
}
