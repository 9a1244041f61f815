use lofi::device::countdown;
use lofi::music::arrangement::Arrangement;
use lofi::music::beat::{bass_step, hat_step, is_fill_bar, kick_step, snare_step};
use lofi::sim::args::{parse_args, parse_i64, parse_u64, ArgsError};

fn words(list: &[&str]) -> Vec<String> {
    list.iter().map(|w| w.to_string()).collect()
}

#[test]
fn no_flags_gives_the_default_run() {
    let args = parse_args(&[]).unwrap();
    assert_eq!(args.nodes, 8);
    assert_eq!(args.duration_ms, 18_000);
    assert_eq!(args.settle_ms, 0);
    assert_eq!(args.sync_start_ms, 2_500);
    assert_eq!(args.group_join_ms, 8_000);
    assert_eq!(args.seed, 0x10f1);
    assert_eq!(args.wav_path, "target/lofi-two-clusters-merge.wav");
}

#[test]
fn flags_set_their_fields() {
    let args = parse_args(&words(&[
        "--nodes", "0", "--duration-ms", "5000", "--seed", "42", "--settle-ms", "-7", "--wav", "out.wav",
    ]))
    .unwrap();
    assert_eq!(args.nodes, 1);
    assert_eq!(args.duration_ms, 5_000);
    assert_eq!(args.seed, 42);
    assert_eq!(args.settle_ms, -7);
    assert_eq!(args.wav_path, "out.wav");
}

#[test]
fn bad_command_lines_are_refused() {
    assert!(matches!(parse_args(&words(&["--nodes"])), Err(ArgsError::MissingValue(f)) if f == "--nodes"));
    assert!(matches!(parse_args(&words(&["--seed", "x1"])), Err(ArgsError::InvalidValue(f)) if f == "--seed"));
    assert!(matches!(parse_args(&words(&["--loud"])), Err(ArgsError::Unknown(a)) if a == "--loud"));
    assert!(matches!(parse_args(&words(&["-h"])), Err(ArgsError::Help)));
    assert!(matches!(parse_args(&words(&["--wav"])), Err(ArgsError::MissingValue(f)) if f == "--wav"));
}

#[test]
fn numbers_parse_in_range_only() {
    assert_eq!(parse_u64("18446744073709551615"), Some(u64::MAX));
    assert_eq!(parse_u64("18446744073709551616"), None);
    assert_eq!(parse_u64("-1"), None);
    assert_eq!(parse_i64("-9223372036854775808"), Some(i64::MIN));
    assert_eq!(parse_i64("+12"), Some(12));
    assert_eq!(parse_i64(""), None);
}

#[test]
fn countdown_reaches_the_phrase_boundary() {
    assert_eq!(countdown(0, 96), (0, 8, 32_000, 0));
    assert_eq!(countdown(3_071, 96), (0, 1, 10, 997));
    assert_eq!(countdown(3_072, 96), (1, 8, 32_000, 0));
    assert_eq!(countdown(-1, 96), (-1, 1, 10, 997));
}

#[test]
fn loop_patterns_keep_the_backbeat_and_downbeat() {
    let params = Arrangement::at(3, &[1, 2], 0).params;
    for bar in 0..4 {
        if !params.half_time {
            assert!(snare_step(4, &params, bar) && snare_step(12, &params, bar));
        }
        assert!(!snare_step(5, &params, bar));
        assert!(kick_step(0, &params, bar));
        assert!(!kick_step(1, &params, bar));
        let _ = (hat_step(0, &params, bar), bass_step(0, &params));
    }
    assert!(is_fill_bar(3) && is_fill_bar(-1) && !is_fill_bar(4));
}
