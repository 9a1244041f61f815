use lofi::device::voice::{ArpDirection, DeviceVoice};
use lofi::device::Device;
use lofi::mesh::wire::{MeshMessage, MESH_WIRE_MAX};
use lofi::music::beat::{kit_index, KIT_COUNT};
use lofi::music::catalog::{ElementKind, PackedCatalog, RECORDS_OFFSET, RECORD_SIZE};
use lofi::sim::kernel::Simulation;
use lofi::transport::{Transport, DEFAULT_TICKS_PER_BEAT};
use lofi::web::{init_device, join_micros, status_fields, BPM_MILLI, RENDER_FRAMES, STATUS_FIELDS};

/// A synthetic sample pack: records of (kind code, source, phase, root or
/// 0xff, energy, audio length, key class), grouped by kind in the file with
/// the kind index and the root tables filled in.
fn pack_bytes(records: &[(u8, u32, u8, u8, u8, u32, u8)]) -> Vec<u8> {
    let mut sorted: Vec<(u8, u32, u8, u8, u8, u32, u8)> = records.to_vec();
    sorted.sort_by_key(|r| r.0);
    let count = sorted.len();
    let data_offset = RECORDS_OFFSET + count * RECORD_SIZE;
    let mut bytes = vec![0u8; data_offset];
    bytes[0..4].copy_from_slice(&[0x4c, 0x46, 0x50, 0x4b]);
    bytes[4] = 2;
    bytes[5] = 1;
    bytes[6..8].copy_from_slice(&(count as u16).to_le_bytes());
    bytes[8..12].copy_from_slice(&22_050u32.to_le_bytes());
    bytes[12..16].copy_from_slice(&(data_offset as u32).to_le_bytes());
    for kind in 0..11u8 {
        let start = sorted.iter().position(|r| r.0 == kind).unwrap_or(0);
        let n = sorted.iter().filter(|r| r.0 == kind).count();
        let at = 16 + kind as usize * 4;
        bytes[at..at + 2].copy_from_slice(&(start as u16).to_le_bytes());
        bytes[at + 2..at + 4].copy_from_slice(&(n as u16).to_le_bytes());
    }
    for slot in 0..3 * 128 * 8 {
        let at = 60 + slot * 2;
        bytes[at..at + 2].copy_from_slice(&u16::MAX.to_le_bytes());
    }
    let mut audio = Vec::new();
    let mut variants = [[0usize; 128]; 3];
    for (ix, (kind, source, phase, root, energy, len, key)) in sorted.iter().enumerate() {
        let base = RECORDS_OFFSET + ix * RECORD_SIZE;
        bytes[base] = *kind;
        bytes[base + 1] = if matches!(kind, 3 | 5 | 7 | 9 | 10) { 1 } else { 0 };
        bytes[base + 2] = 4;
        bytes[base + 3] = *phase;
        bytes[base + 4..base + 6].copy_from_slice(&80u16.to_le_bytes());
        bytes[base + 6] = *key;
        bytes[base + 8..base + 12].copy_from_slice(&source.to_le_bytes());
        bytes[base + 16] = *root;
        bytes[base + 17] = *energy;
        bytes[base + 18..base + 20].copy_from_slice(&16_384u16.to_le_bytes());
        let offset = (data_offset + audio.len()) as u32;
        bytes[base + 20..base + 24].copy_from_slice(&offset.to_le_bytes());
        bytes[base + 24..base + 28].copy_from_slice(&len.to_le_bytes());
        for j in 0..*len {
            audio.push(if j % 2 == 0 { 0x20 } else { 0xa0 });
        }
        let table = match kind {
            4 => Some(0),
            6 => Some(1),
            8 => Some(2),
            _ => None,
        };
        if let (Some(t), true) = (table, *root < 128) {
            let v = variants[t][*root as usize];
            if v < 8 {
                let at = 60 + ((t * 128 + *root as usize) * 8 + v) * 2;
                bytes[at..at + 2].copy_from_slice(&(ix as u16).to_le_bytes());
                variants[t][*root as usize] += 1;
            }
        }
    }
    bytes.extend_from_slice(&audio);
    bytes
}

/// A pack with complete drums, pitched notes round middle C from two
/// sources each, and one source's four-phase loop stems.
fn pack() -> PackedCatalog {
    let mut records: Vec<(u8, u32, u8, u8, u8, u32, u8)> = Vec::new();
    for (i, energy) in [40u8, 90, 60, 75].iter().enumerate() {
        records.push((0, 101, 0, 0xff, *energy, 16 + i as u32, 0));
        records.push((1, 101, 0, 0xff, *energy - 10, 16 + i as u32, 0));
    }
    for (i, len) in [12u32, 40, 20].iter().enumerate() {
        records.push((2, 101, 0, 0xff, 20 + i as u8, *len, 0));
    }
    for root in 24u8..48 {
        records.push((4, 11, 0, root, 60, 24, 0));
    }
    for (kind, first, second) in [(4u8, 11u32, 12u32), (6, 31, 32), (8, 21, 22)] {
        records.push((kind, first, 0, 60, 60, 24, 0));
        records.push((kind, second, 0, 60, 60, 30, 0));
    }
    for root in (48u8..76).step_by(2) {
        records.push((8, 21, 0, root, 60, 24, 0));
        records.push((6, 31, 0, root + 1, 60, 24, 0));
    }
    for phase in 0..4u8 {
        records.push((3, 7, phase, 0xff, 60, 32, 9));
    }
    records.push((5, 7, 0, 0xff, 60, 32, 9));
    records.push((7, 7, 0, 0xff, 60, 32, 9));
    records.push((9, 7, 0, 0xff, 60, 32, 9));
    records.push((10, 7, 0, 0xff, 60, 32, 9));
    PackedCatalog::new(Box::leak(pack_bytes(&records).into_boxed_slice()))
}

fn device() -> Device {
    Device::new(1, DeviceVoice::new(880, ArpDirection::Up), Transport::default_at(0), 1, pack())
}

fn split_micros(micros: i64) -> (u32, i32) {
    (micros as u32, (micros >> 32) as i32)
}

fn web_device(anchor_us: i64, bpm_milli: u32, start_phrase: u32) -> Device {
    let (low, high) = split_micros(anchor_us);
    init_device(48_000, 2, 7, low, high, bpm_milli, start_phrase, pack())
}

#[test]
fn stopped_device_is_silent() {
    let mut dev = device();
    dev.set_running(false);
    assert!(dev.begin_block(0).is_none());
}

#[test]
fn running_device_is_audible() {
    let mut dev = device();
    let plan = dev.begin_block(0).unwrap();
    assert_eq!(plan.role_plan.mask(), 0b1_1111);
    assert!(plan.score.snare_hit(4).is_some());
}

#[test]
fn display_reflects_play_state() {
    let mut dev = device();
    assert!(dev.display_state(0).playing);
    dev.toggle_running();
    let state = dev.display_state(0);
    assert!(!state.playing);
    assert_eq!(state.node_id, 1);
    assert_eq!(state.peers, 0);
}

#[test]
fn display_counts_down_to_the_shared_phrase_boundary() {
    let dev = Device::new(1, DeviceVoice::new(880, ArpDirection::Up), Transport::new(0, 80_000, 96), 1, pack());
    assert_eq!(dev.display_state(0).beats_to_next_milli, 32_000);
    assert_eq!(dev.display_state(3_000_000).beats_to_next_milli, 28_000);
    assert_eq!(dev.display_state(23_500_000).beats_to_next_milli, 666);
    assert_eq!(dev.display_state(24_000_000).beats_to_next_milli, 32_000);
}

#[test]
fn emits_real_mesh_wire_frames() {
    let mut dev = web_device(0, BPM_MILLI, 0);
    let message = dev.poll_beacon(0).unwrap();
    let (frame, length) = message.encode();
    assert!(length > 0 && length <= MESH_WIRE_MAX);
    let decoded = MeshMessage::decode(&frame[..length]).unwrap();
    assert!(matches!(decoded, MeshMessage::Beacon(beacon) if beacon.sender == 7));
}

#[test]
fn status_exposes_the_complete_role_mask() {
    let dev = web_device(0, BPM_MILLI, 0);
    assert_eq!(STATUS_FIELDS, 15);
    let status = status_fields(&dev, 0);
    assert_eq!(status[11], 0b1_1111);
}

#[test]
fn timestamped_init_starts_on_the_requested_boundary() {
    let song_zero = 2_000_000_i64;
    let dev = web_device(song_zero, BPM_MILLI, 0);
    let status = status_fields(&dev, song_zero);
    assert_eq!(status[7], 0);
    assert_eq!(status[9], 32_000);
}

#[test]
fn positioned_init_starts_on_the_requested_phrase_and_tempo() {
    let anchor = 2_000_000_i64;
    let dev = web_device(anchor, 72_000, 7);
    assert_eq!(dev.transport().bpm_milli, 72_000);
    assert_eq!(dev.transport().tick_at(anchor), 7 * 8 * 4 * i64::from(DEFAULT_TICKS_PER_BEAT));
    let status = status_fields(&dev, anchor);
    assert_eq!(status[7], 0);
    assert_eq!(status[9], 32_000);
}

#[test]
fn web_clock_halves_join_into_one_timestamp() {
    assert_eq!(join_micros(5, 0), 5);
    assert_eq!(join_micros(0, 1), 1 << 32);
    assert_eq!(join_micros(u32::MAX, -1), -1);
    assert_eq!(RENDER_FRAMES, 128);
}

#[test]
fn add_and_remove_change_node_count() {
    let mut sim = Simulation::new(8, 1, 0, 0, pack());
    assert_eq!(sim.node_count(), 8);
    sim.add_node();
    assert_eq!(sim.node_count(), 9);
    sim.remove_node(0);
    assert_eq!(sim.node_count(), 8);
}

#[test]
fn a_running_mesh_stays_in_phase() {
    let mut sim = Simulation::new(4, 1, 0, 0, pack());
    sim.run(6_000_000);
    assert_eq!(sim.global_us(), 6_000_000);
    let stats = sim.phase_stats().unwrap();
    assert!(stats.max_spread_us < 5_000, "spread {}", stats.max_spread_us);
}

#[test]
fn every_kit_is_reachable_and_stable() {
    let mut seen = [false; KIT_COUNT as usize];
    for seed in 0..500_u64 {
        let kit = kit_index(seed);
        assert_eq!(kit, kit_index(seed));
        seen[kit] = true;
    }
    assert!(seen.iter().all(|selected| *selected));
}

#[test]
fn selectors_are_stable() {
    let catalog = pack();
    let a = catalog.select(ElementKind::Hat, 987).unwrap();
    let b = catalog.select(ElementKind::Hat, 987).unwrap();
    assert_eq!(a.sample.len(), b.sample.len());
    assert_eq!(a.energy, b.energy);
}

#[test]
fn pitched_note_tables_offer_real_variation() {
    let catalog = pack();
    for kind in [ElementKind::BassNote, ElementKind::LeadNote] {
        let first = catalog.nearest_note(kind, 60, 0).unwrap();
        let varied = (1..8u64).any(|selector| {
            let candidate = catalog.nearest_note(kind, 60, selector).unwrap();
            candidate.source_hash != first.source_hash
                || candidate.root_semitone != first.root_semitone
                || candidate.sample.len() != first.sample.len()
        });
        assert!(varied, "{kind:?} root table repeats one element");
    }
}

#[test]
fn loop_scenes_never_mix_source_performances() {
    let catalog = pack();
    for selector in 0..16 {
        let scene = catalog.loop_scene(selector).unwrap();
        assert!(scene.drums.into_iter().all(|element| element.is_some()));
        assert!(scene.bass.is_some());
        assert!(scene.texture.is_some());
        assert!(scene.melody.is_some() || scene.harmony.is_some());
        let elements = scene.drums.into_iter().chain([scene.bass, scene.melody, scene.harmony, scene.texture]);
        assert!(elements.flatten().all(|element| element.source_hash == scene.source_hash));
    }
}
