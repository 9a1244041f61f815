use lofi::music::theory::{snap_to_scale, Chord, ChordQuality, Voicing, DORIAN};

#[test]
fn min7_spelling() {
    let c = ChordQuality::Min7;
    assert_eq!(c.third(), 3);
    assert_eq!(c.fifth(), 7);
    assert_eq!(c.seventh(), 10);
}

#[test]
fn voicing_lands_near_center() {
    let chord = Chord {
        root: 50,
        quality: ChordQuality::Min9,
    }; // D min9
    let v = chord.voicing(64);
    for n in v.notes {
        assert!((n as i32 - 64).abs() <= 9, "note {n} too far from center");
    }
}

#[test]
fn voicing_keeps_pitch_classes() {
    let chord = Chord {
        root: 50,
        quality: ChordQuality::Min9,
    };
    let v = chord.voicing(64);
    // D minor 9 around middle E: F, C, E, and A below.
    assert_eq!(v.notes, [65, 60, 64, 57]);
    assert_eq!(Chord::center_of(&v), 61);
    let next = Chord {
        root: 55,
        quality: ChordQuality::Dom9,
    }
    .voicing_near(&v);
    assert_eq!(next.notes, Chord { root: 55, quality: ChordQuality::Dom9 }.voicing(61).notes);
    assert_eq!(next.iter(), next.notes);
    assert_eq!(ChordQuality::Maj69.extension(), 9);
    assert_eq!(ChordQuality::HalfDim7.fifth(), 6);
    assert_eq!(ChordQuality::Maj7.seventh(), 11);
}

#[test]
fn snapping_goes_up_to_the_next_scale_tone() {
    // Key root 60, Dorian: 61 is off the scale; the next tone up is 62.
    assert_eq!(snap_to_scale(61, 60, &DORIAN), 62);
    // Key root 50: scale tones stay put, others rise to the next tone.
    assert_eq!(snap_to_scale(51, 50, &DORIAN), 52);
    assert_eq!(snap_to_scale(56, 50, &DORIAN), 57);
    assert_eq!(snap_to_scale(62, 50, &DORIAN), 62);
    // Past the scale's last degree the snap wraps to the next octave's first.
    assert_eq!(snap_to_scale(71, 60, &DORIAN), 72);
    assert_eq!(snap_to_scale(49, 50, &DORIAN), 50);
    let _ = Voicing { notes: [0; 4] };
}
