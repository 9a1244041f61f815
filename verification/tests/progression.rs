use lofi::music::progression::Progression;

#[test]
fn deterministic() {
    assert_eq!(Progression::generate(42), Progression::generate(42));
    assert_ne!(Progression::generate(1), Progression::generate(2));
}

#[test]
fn voicings_in_register() {
    let prog = Progression::generate(7);
    for bar in 0..4 {
        let slot = prog.slot_for_bar(bar);
        assert!(slot.bass >= 28 && slot.bass <= 48);
        for n in slot.voicing.notes {
            assert!((48..=84).contains(&n), "voiced note {n} out of register");
        }
    }
}

#[test]
fn scale_degrees_are_ordered_and_in_register() {
    let progression = Progression::generate(9);
    for degree in -1..10 {
        assert!((55..=84).contains(&progression.scale_note(degree)));
    }
    assert!(progression.scale_note(0) < progression.scale_note(1));
    assert!(progression.scale_note(6) < progression.scale_note(7));
}

#[test]
fn bars_wrap_round_the_progression() {
    let prog = Progression::generate(11);
    assert_eq!(prog.len(), 4);
    assert!(!prog.is_empty());
    assert_eq!(prog.slot_for_bar(5), prog.slot_for_bar(1));
    assert_eq!(prog.slot_for_bar(-1), prog.slot_for_bar(3));
}

#[test]
fn every_seed_in_a_sweep_stays_in_register() {
    for seed in 0..256u64 {
        let prog = Progression::generate(seed);
        for bar in 0..4 {
            let slot = prog.slot_for_bar(bar);
            assert!((36..=47).contains(&slot.bass));
            for n in slot.voicing.notes {
                assert!((48..=84).contains(&n), "seed {seed} voiced note {n} out of register");
            }
        }
    }
}

#[test]
fn every_seed_voices_in_register() {
    for seed in 0..500u64 {
        let prog = Progression::generate(seed);
        for bar in 0..4 {
            let slot = prog.slot_for_bar(bar);
            assert!((28..=48).contains(&slot.bass), "seed {seed} bass {}", slot.bass);
            for n in slot.voicing.notes {
                assert!((48..=84).contains(&n), "seed {seed} voiced note {n} out of register");
            }
        }
    }
}

#[test]
fn seven_degrees_up_is_an_octave_up() {
    for seed in 0..64u64 {
        let p = Progression::generate(seed);
        assert_eq!(p.scale_note(7), p.scale_note(0) + 12);
        for d in -20i8..20 {
            assert!(p.scale_note(d) <= p.scale_note(d + 1));
        }
    }
}
