use lofi::music::arrangement::{Arrangement, Params};
use lofi::music::catalog::{ElementKind, PackedCatalog, RECORDS_OFFSET, RECORD_SIZE};
use lofi::music::score::drums::{hat_at, kick_at, snare_at, SNARE_GHOST, SNARE_MAIN};
use lofi::music::score::render::{BeatEvolution, ScoreCtx};
use lofi::music::score::scene::{SymbolicScene, CHORD_SLOTS, SHELL_VOICES};
use lofi::music::score::session::{has_source, Session};
use lofi::music::score::tonal::{bass_at, keys_at, lead_at, scale_intervals};
use lofi::music::score::{LEVEL_UNITY, STEPS_PER_BAR, STEPS_PER_CYCLE};
use lofi::transport::Transport;

/// A synthetic sample pack: records of (kind code, source, phase, root or
/// 0xff, energy, audio length, key class), grouped by kind in the file with
/// the kind index and the root tables filled in.
fn pack_bytes(records: &[(u8, u32, u8, u8, u8, u32, u8)]) -> Vec<u8> {
    let mut sorted: Vec<(u8, u32, u8, u8, u8, u32, u8)> = records.to_vec();
    sorted.sort_by_key(|r| r.0);
    let count = sorted.len();
    let data_offset = RECORDS_OFFSET + count * RECORD_SIZE;
    let mut bytes = vec![0u8; data_offset];
    bytes[0..4].copy_from_slice(&[0x4c, 0x46, 0x50, 0x4b]);
    bytes[4] = 2;
    bytes[5] = 1;
    bytes[6..8].copy_from_slice(&(count as u16).to_le_bytes());
    bytes[8..12].copy_from_slice(&22_050u32.to_le_bytes());
    bytes[12..16].copy_from_slice(&(data_offset as u32).to_le_bytes());
    for kind in 0..11u8 {
        let start = sorted.iter().position(|r| r.0 == kind).unwrap_or(0);
        let n = sorted.iter().filter(|r| r.0 == kind).count();
        let at = 16 + kind as usize * 4;
        bytes[at..at + 2].copy_from_slice(&(start as u16).to_le_bytes());
        bytes[at + 2..at + 4].copy_from_slice(&(n as u16).to_le_bytes());
    }
    for slot in 0..3 * 128 * 8 {
        let at = 60 + slot * 2;
        bytes[at..at + 2].copy_from_slice(&u16::MAX.to_le_bytes());
    }
    let mut audio = Vec::new();
    let mut variants = [[0usize; 128]; 3];
    for (ix, (kind, source, phase, root, energy, len, key)) in sorted.iter().enumerate() {
        let base = RECORDS_OFFSET + ix * RECORD_SIZE;
        bytes[base] = *kind;
        bytes[base + 1] = if matches!(kind, 3 | 5 | 7 | 9 | 10) { 1 } else { 0 };
        bytes[base + 2] = 4;
        bytes[base + 3] = *phase;
        bytes[base + 4..base + 6].copy_from_slice(&80u16.to_le_bytes());
        bytes[base + 6] = *key;
        bytes[base + 8..base + 12].copy_from_slice(&source.to_le_bytes());
        bytes[base + 16] = *root;
        bytes[base + 17] = *energy;
        bytes[base + 18..base + 20].copy_from_slice(&16_384u16.to_le_bytes());
        let offset = (data_offset + audio.len()) as u32;
        bytes[base + 20..base + 24].copy_from_slice(&offset.to_le_bytes());
        bytes[base + 24..base + 28].copy_from_slice(&len.to_le_bytes());
        for j in 0..*len {
            audio.push(if j % 2 == 0 { 0x20 } else { 0xa0 });
        }
        let table = match kind {
            4 => Some(0),
            6 => Some(1),
            8 => Some(2),
            _ => None,
        };
        if let (Some(t), true) = (table, *root < 128) {
            let v = variants[t][*root as usize];
            if v < 8 {
                let at = 60 + ((t * 128 + *root as usize) * 8 + v) * 2;
                bytes[at..at + 2].copy_from_slice(&(ix as u16).to_le_bytes());
                variants[t][*root as usize] += 1;
            }
        }
    }
    bytes.extend_from_slice(&audio);
    bytes
}

/// Two complete drum families (sources 101 and 202) and a kick-only one
/// (303); bass notes of source 11 across B0 to Bb1 and two of source 12;
/// keys of source 21 and lead notes of source 31 over an octave and a half;
/// and one source's loop stems (7) anchoring every loop scene.
fn pack() -> PackedCatalog {
    let mut records: Vec<(u8, u32, u8, u8, u8, u32, u8)> = Vec::new();
    for (i, energy) in [40u8, 90, 60, 75].iter().enumerate() {
        records.push((0, 101, 0, 0xff, *energy, 16 + i as u32, 0));
    }
    for (i, energy) in [30u8, 80, 55, 70].iter().enumerate() {
        records.push((1, 101, 0, 0xff, *energy, 16 + i as u32, 0));
    }
    for (i, len) in [12u32, 40, 20].iter().enumerate() {
        records.push((2, 101, 0, 0xff, 20 + i as u8, *len, 0));
    }
    records.push((0, 202, 0, 0xff, 50, 16, 0));
    records.push((0, 202, 0, 0xff, 65, 18, 0));
    records.push((1, 202, 0, 0xff, 45, 16, 0));
    records.push((1, 202, 0, 0xff, 85, 16, 0));
    records.push((2, 202, 0, 0xff, 25, 30, 0));
    records.push((2, 202, 0, 0xff, 35, 10, 0));
    records.push((0, 303, 0, 0xff, 70, 16, 0));
    for root in 23u8..35 {
        records.push((4, 11, 0, root, 60, 24, 0));
    }
    records.push((4, 12, 0, 40, 60, 24, 0));
    records.push((4, 12, 0, 45, 60, 24, 0));
    for root in (46u8..76).step_by(2) {
        records.push((8, 21, 0, root, 60, 24, 0));
    }
    for root in 50u8..66 {
        records.push((6, 31, 0, root, 60, 24, 0));
    }
    for phase in 0..4u8 {
        records.push((3, 7, phase, 0xff, 60, 32, 9));
    }
    records.push((5, 7, 0, 0xff, 60, 32, 9));
    records.push((7, 7, 0, 0xff, 60, 32, 9));
    records.push((9, 7, 0, 0xff, 60, 32, 9));
    records.push((10, 7, 0, 0xff, 60, 32, 9));
    PackedCatalog::new(Box::leak(pack_bytes(&records).into_boxed_slice()))
}

const STEPS_PER_PHRASE: i64 = STEPS_PER_BAR * 8;

/// The signatures' snare gains, by signature.
fn snare_gain(session: &Session) -> f64 {
    [0.56, 0.61, 0.58][session.signature.motif.min(2) as usize]
}

fn level(units: u32) -> f64 {
    units as f64 / LEVEL_UNITY as f64
}

fn drum_fixture() -> (Session, Params) {
    let session = Session::new(7, &pack());
    (session, Arrangement::at(7, &[1, 2, 3], 0).params)
}

fn tonal_fixture(seed: u64) -> (Session, Params) {
    (Session::new(seed, &pack()), Arrangement::at(seed, &[1, 2, 3], 1).params)
}

fn scene(seed: u64) -> SymbolicScene {
    let catalog = pack();
    let session = Session::new(seed, &catalog);
    SymbolicScene::resolve(&catalog, &session)
}

#[test]
fn backbeat_is_inviolable() {
    let (session, mut params) = drum_fixture();
    params.half_time = false;
    for bar in 0..32 {
        for &pos in &[4_i64, 12] {
            let step = bar * STEPS_PER_BAR + pos;
            let hit = snare_at(&session, &params, step, 190_000).unwrap();
            assert_eq!(hit.bind, SNARE_MAIN);
            assert!(level(hit.level) * snare_gain(&session) > 0.3);
        }
    }
}

#[test]
fn ghosts_never_replace_the_backbeat() {
    let (session, mut params) = drum_fixture();
    params.ghosts = true;
    let gain = snare_gain(&session);
    for step in 0..256 {
        if let Some(hit) = snare_at(&session, &params, step, 190_000) {
            let pos = step.rem_euclid(STEPS_PER_BAR);
            if hit.bind == SNARE_GHOST {
                assert!(!matches!(pos, 4 | 12));
                assert!(level(hit.level) * gain < 0.3 * gain + 0.2);
            }
        }
    }
}

#[test]
fn half_time_thins_every_drum_lane() {
    let (session, mut params) = drum_fixture();
    params.half_time = true;
    let mut kicks = 0;
    let mut snares = 0;
    let mut hats = 0;
    for step in 0..STEPS_PER_CYCLE {
        kicks += kick_at(&session, &params, step, 190_000).is_some() as u32;
        snares += snare_at(&session, &params, step, 190_000).is_some() as u32;
        hats += hat_at(&session, &params, step, 190_000).is_some() as u32;
    }
    assert_eq!(kicks, 4);
    assert_eq!(snares, 4);
    assert_eq!(hats, 16);
}

#[test]
fn drum_lanes_stay_deterministic() {
    let (session, params) = drum_fixture();
    for step in 0..128 {
        assert_eq!(kick_at(&session, &params, step, 190_000), kick_at(&session, &params, step, 190_000));
    }
}

#[test]
fn kick_accent_and_levels_follow_the_grid() {
    let (session, mut params) = drum_fixture();
    params.half_time = true;
    let downbeat = kick_at(&session, &params, 0, 190_000).unwrap();
    assert_eq!(downbeat.bind, 1);
    assert_eq!(downbeat.level, LEVEL_UNITY);
    let next_bar = kick_at(&session, &params, 16, 190_000).unwrap();
    assert_eq!(next_bar.bind, 0);
    assert!(kick_at(&session, &params, 4, 190_000).is_none());
}

#[test]
fn bass_downbeat_is_always_the_chord_root() {
    for seed in 0..16 {
        let (session, params) = tonal_fixture(seed);
        for bar in 0..16 {
            let event = bass_at(&session, &params, bar * STEPS_PER_BAR, 190_000).expect("downbeat bass");
            let root = session.progression.slot_for_bar(bar).chord.root.rem_euclid(12);
            assert_eq!(event.bind, root, "seed {seed} bar {bar}");
        }
    }
}

#[test]
fn approach_tones_are_diatonic() {
    for seed in 0..16 {
        let (session, params) = tonal_fixture(seed);
        let intervals = scale_intervals(&session);
        let tonic = i32::from(session.progression.scale_note(0)).rem_euclid(12);
        for step in 0..256_i64 {
            let cycle = step.rem_euclid(STEPS_PER_CYCLE);
            if session.signature.bass_approach.active(cycle) && !session.signature.bass.active(cycle) {
                if let Some(event) = bass_at(&session, &params, step, 190_000) {
                    let rel = (i32::from(event.bind) - tonic).rem_euclid(12);
                    assert!(intervals.contains(&rel), "seed {seed} step {step}: approach pc {} not in scale", event.bind);
                }
            }
        }
    }
}

#[test]
fn keys_leave_space() {
    for seed in 0..8 {
        let (session, params) = tonal_fixture(seed);
        let mut strikes = 0;
        for step in 0..STEPS_PER_CYCLE {
            if keys_at(&session, &params, step, 190_000)[0].is_some() {
                strikes += 1;
            }
        }
        assert!((2..=8).contains(&strikes), "seed {seed}: {strikes} keys strikes per four bars");
    }
}

#[test]
fn anticipation_pushes_voice_the_next_chord() {
    for seed in 0..8 {
        let (session, mut params) = tonal_fixture(seed);
        params.keys_sparse = false;
        let step = STEPS_PER_BAR + 14;
        let voices = keys_at(&session, &params, step, 190_000);
        if let Some(event) = voices[0] {
            let expected_slot = 2_i64.rem_euclid(session.progression.len().max(1) as i64) as u8;
            assert_eq!(event.bind / 3, expected_slot);
        }
    }
}

#[test]
fn lead_rests_more_in_quiet_phrases() {
    for seed in 0..8 {
        let (session, mut params) = tonal_fixture(seed);
        params.lead_on = true;
        params.lead_busy = false;
        let mut peak = 0;
        let mut quiet = 0;
        for step in 0..STEPS_PER_PHRASE {
            peak += lead_at(&session, &params, STEPS_PER_PHRASE * 2 + step, 190_000).is_some() as u32;
            quiet += lead_at(&session, &params, step, 190_000).is_some() as u32;
        }
        assert!(quiet <= peak, "seed {seed}: quiet phrase busier than peak");
    }
}

#[test]
fn tonal_lanes_are_deterministic() {
    let (session, params) = tonal_fixture(3);
    for step in 0..128 {
        assert_eq!(bass_at(&session, &params, step, 190_000), bass_at(&session, &params, step, 190_000));
        assert_eq!(lead_at(&session, &params, step, 190_000), lead_at(&session, &params, step, 190_000));
    }
}

#[test]
fn sessions_are_deterministic_and_fully_cast() {
    let catalog = pack();
    for seed in 0..24 {
        let a = Session::new(seed, &catalog);
        let b = Session::new(seed, &catalog);
        assert_eq!(a.drum_source, b.drum_source);
        assert_eq!(a.bass_source, b.bass_source);
        assert_eq!(a.keys_source, b.keys_source);
        assert_eq!(a.lead_source, b.lead_source);
        assert_ne!(a.drum_source, 0, "seed {seed} has no drum family");
        assert_ne!(a.bass_source, 0, "seed {seed} has no bass source");
        assert_ne!(a.keys_source, 0, "seed {seed} has no keys source");
        assert_ne!(a.lead_source, 0, "seed {seed} has no lead source");
    }
}

#[test]
fn drum_family_is_complete() {
    let catalog = pack();
    for seed in 0..24 {
        let session = Session::new(seed, &catalog);
        for kind in [ElementKind::Kick, ElementKind::Snare, ElementKind::Hat] {
            assert!(has_source(&catalog, kind, session.drum_source), "seed {seed} drum family missing {kind:?}");
        }
    }
}

#[test]
fn seeds_reach_more_than_one_drum_family() {
    let catalog = pack();
    let mut distinct = [0u32; 8];
    let mut len = 0;
    for seed in 0..64 {
        let source = Session::new(seed, &catalog).drum_source;
        if !distinct[..len].contains(&source) && len < distinct.len() {
            distinct[len] = source;
            len += 1;
        }
    }
    assert!(len >= 2, "drum casting is stuck on one source");
}

#[test]
fn tonal_casting_prefers_the_best_covered_source() {
    let session = Session::new(5, &pack());
    assert_eq!(session.bass_source, 11);
    assert_eq!(session.keys_source, 21);
    assert_eq!(session.lead_source, 31);
}

#[test]
fn every_voice_is_bound() {
    for seed in 0..24 {
        let scene = scene(seed);
        assert!(scene.kick_main.is_some() && scene.kick_accent.is_some());
        assert!(scene.snare_main.is_some() && scene.snare_ghost.is_some());
        assert!(scene.hat_closed.is_some() && scene.hat_open.is_some());
        assert!(scene.bass.iter().all(Option::is_some));
        assert!(scene.lead.iter().all(Option::is_some));
        for slot in &scene.keys {
            assert!(slot.iter().all(Option::is_some));
        }
    }
}

#[test]
fn repitch_ratios_stay_musical() {
    for seed in 0..24 {
        let worst = scene(seed).worst_repitch_semitones();
        assert!(worst <= 6, "seed {seed} repitches {worst} semitones");
    }
}

#[test]
fn lanes_keep_one_instrument_voice() {
    for seed in 0..24 {
        let scene = scene(seed);
        let source = scene.bass[0].unwrap().element.source_hash;
        assert!(scene.bass.iter().flatten().all(|bind| bind.element.source_hash == source));
        let lead_source = scene.lead[0].unwrap().element.source_hash;
        assert!(scene.lead.iter().flatten().all(|bind| bind.element.source_hash == lead_source));
    }
}

#[test]
fn shell_voices_lead_smoothly_between_chords() {
    for seed in 0..24 {
        let scene = scene(seed);
        for voice in 0..SHELL_VOICES {
            for slot in 1..CHORD_SLOTS {
                let previous = scene.keys[slot - 1][voice].unwrap().midi as i32;
                let current = scene.keys[slot][voice].unwrap().midi as i32;
                assert!((previous - current).abs() <= 6, "seed {seed} voice {voice} jumps {previous}->{current}");
            }
        }
    }
}

#[test]
fn ghost_snare_is_no_louder_than_the_backbeat() {
    for seed in 0..8 {
        let scene = scene(seed);
        assert!(
            scene.snare_ghost.unwrap().energy <= scene.snare_main.unwrap().energy,
            "seed {seed} ghost snare out-hits the backbeat"
        );
    }
}

#[test]
fn energy_ranks_pick_the_expected_hits() {
    let catalog = pack();
    let mut seed = 0;
    while Session::new(seed, &catalog).drum_source != 101 {
        seed += 1;
    }
    let scene = scene(seed);
    // Kicks of family 101 by energy: 40, 60, 75, 90.
    assert_eq!(scene.kick_main.unwrap().energy, 75);
    assert_eq!(scene.kick_accent.unwrap().energy, 90);
    // Snares: 30, 55, 70, 80. Rank one of four over three hats lands on
    // the quietest (20); the longest hat (40 bytes) is the open one.
    assert_eq!(scene.snare_main.unwrap().energy, 70);
    assert_eq!(scene.snare_ghost.unwrap().energy, 30);
    assert_eq!(scene.hat_closed.unwrap().energy, 20);
    assert_eq!(scene.hat_open.unwrap().sample.len(), 40);
}

#[test]
fn bass_binds_hug_the_recorded_roots() {
    let scene = scene(4);
    for (pc, bind) in scene.bass.iter().enumerate() {
        let bind = bind.unwrap();
        assert_eq!(bind.midi as usize % 12, pc);
        assert_eq!(bind.element.root_semitone, Some(bind.midi));
    }
}

#[test]
fn score_context_binds_events_to_voices() {
    let catalog = pack();
    let session = Session::new(9, &catalog);
    let scene = SymbolicScene::resolve(&catalog, &session);
    let mut params = Arrangement::at(9, &[1], 0).params;
    params.half_time = true;
    let ctx = ScoreCtx {
        transport: Transport::new(0, 80_000, 96),
        session,
        scene,
        evolution: BeatEvolution { previous: params, current: params, phrase: 0, spotlight: lofi::music::arrangement::Role::Pulse },
    };
    assert_eq!(ctx.step_us(), 187_500);
    let (event, element) = ctx.kick_hit(0).unwrap();
    assert_eq!(event.bind, 1);
    assert_eq!(element.energy, scene.kick_accent.unwrap().energy);
    assert!(ctx.kick_hit(3).is_none());
    let (bass, bind) = ctx.bass_hit(16).unwrap();
    assert_eq!(bind.midi as u8 % 12, bass.bind % 12);
    assert_eq!(ctx.current_step(2_000_000), 10);
    assert_eq!(ctx.onset_us(1, 0), 187_500);
}

#[test]
fn keys_strike_eight_times_a_cycle_or_twice_when_sparse() {
    for seed in 0..4 {
        let (session, mut params) = tonal_fixture(seed);
        for sparse in [false, true] {
            params.keys_sparse = sparse;
            for cycle in [-1i64, 0, 5] {
                let strikes = (0..STEPS_PER_CYCLE)
                    .filter(|s| keys_at(&session, &params, cycle * STEPS_PER_CYCLE + s, 190_000).iter().any(|v| v.is_some()))
                    .count();
                assert_eq!(strikes, if sparse { 2 } else { 8 }, "seed {seed} sparse {sparse} cycle {cycle}");
            }
        }
    }
}
