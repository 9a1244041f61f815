use lofi::music::catalog::{ElementKind, PackedCatalog, RECORDS_OFFSET, RECORD_SIZE};

/// A little catalogue: a kick, two melody loops from sources 7 and 9, a
/// drum loop, bass loop and texture loop from source 7, and a bass note
/// filed under middle C.
fn fixture_bytes() -> Vec<u8> {
    let records: [(u8, u32, u8, u8); 6] = [
        (0, 1, 0, 0xff),  // kick, source 1
        (7, 7, 0, 0xff),  // melody loop, source 7
        (7, 9, 0, 0xff),  // melody loop, source 9
        (3, 7, 0, 0xff),  // drum loop, source 7, phase 0
        (5, 7, 0, 0xff),  // bass loop, source 7
        (4, 3, 0, 60),    // bass note, root C4
    ];
    let count = records.len();
    let data_offset = RECORDS_OFFSET + count * RECORD_SIZE;
    let mut bytes = vec![0u8; data_offset];
    bytes[0..4].copy_from_slice(b"LFPK");
    bytes[4] = 2;
    bytes[5] = 1;
    bytes[6..8].copy_from_slice(&(count as u16).to_le_bytes());
    bytes[8..12].copy_from_slice(&22_050u32.to_le_bytes());
    bytes[12..16].copy_from_slice(&(data_offset as u32).to_le_bytes());
    // Kind index: (start, count) per kind.
    let index: [(u16, u16); 11] = [
        (0, 1),
        (0, 0),
        (0, 0),
        (3, 1),
        (5, 1),
        (4, 1),
        (0, 0),
        (1, 2),
        (0, 0),
        (0, 0),
        (0, 0),
    ];
    for (kind, (start, n)) in index.iter().enumerate() {
        let at = 16 + kind * 4;
        bytes[at..at + 2].copy_from_slice(&start.to_le_bytes());
        bytes[at + 2..at + 4].copy_from_slice(&n.to_le_bytes());
    }
    // Root tables: empty except the bass note at MIDI 60, variant 0.
    for slot in 0..3 * 128 * 8 {
        let at = 60 + slot * 2;
        bytes[at..at + 2].copy_from_slice(&u16::MAX.to_le_bytes());
    }
    let bass_slot = 60 + (60 * 8) * 2;
    bytes[bass_slot..bass_slot + 2].copy_from_slice(&5u16.to_le_bytes());
    let mut audio = Vec::new();
    for (ix, (kind, source, phase, root)) in records.iter().enumerate() {
        let base = RECORDS_OFFSET + ix * RECORD_SIZE;
        bytes[base] = *kind;
        bytes[base + 1] = 1;
        bytes[base + 2] = 4;
        bytes[base + 3] = *phase;
        bytes[base + 4..base + 6].copy_from_slice(&80u16.to_le_bytes());
        bytes[base + 8..base + 12].copy_from_slice(&source.to_le_bytes());
        bytes[base + 16] = *root;
        bytes[base + 17] = 10 + ix as u8;
        bytes[base + 18..base + 20].copy_from_slice(&16_384u16.to_le_bytes());
        let offset = (data_offset + audio.len()) as u32;
        bytes[base + 20..base + 24].copy_from_slice(&offset.to_le_bytes());
        bytes[base + 24..base + 28].copy_from_slice(&3u32.to_le_bytes());
        audio.extend_from_slice(&[0xff, 0x80 + ix as u8, 0xff]);
    }
    bytes.extend_from_slice(&audio);
    bytes
}

fn fixture() -> PackedCatalog {
    PackedCatalog::new(Box::leak(fixture_bytes().into_boxed_slice()))
}

#[test]
fn a_packed_catalogue_reads_back() {
    let catalog = fixture();
    assert!(catalog.is_valid());
    assert_eq!(catalog.len(), 6);
    assert!(!catalog.is_empty());
    assert_eq!(catalog.len_for_kind(ElementKind::MelodyLoop), 2);
    assert_eq!(catalog.len_for_kind(ElementKind::Snare), 0);
    assert!(catalog.select(ElementKind::Snare, 3).is_none());
    let kick = catalog.select(ElementKind::Kick, 42).unwrap();
    assert_eq!(kick.kind, ElementKind::Kick);
    assert_eq!(kick.source_hash, 1);
    assert_eq!(kick.sample.len(), 3);
    assert_eq!(kick.sample.sample_rate(), 22_050);
    assert_eq!(kick.sample.gain_q15(), 16_384);
    assert_eq!(kick.root_semitone, None);
    assert!(kick.looped);
    assert_eq!(kick.bpm, 80);
    assert_eq!(kick.energy, 10);
    assert!(catalog.element(6).is_none());
}

#[test]
fn pitched_lookups_use_the_root_table() {
    let catalog = fixture();
    let bass = catalog.nearest_note(ElementKind::BassNote, 60, 0).unwrap();
    assert_eq!(bass.root_semitone, Some(60));
    assert_eq!(bass.source_hash, 3);
    assert!(catalog.nearest_note(ElementKind::BassNote, 60, 1).is_none());
    assert!(catalog.nearest_note(ElementKind::Kick, 60, 0).is_none());
}

#[test]
fn loop_scene_keeps_one_source() {
    let catalog = fixture();
    let scene = catalog.loop_scene(0).unwrap();
    assert_eq!(scene.source_hash, 7);
    assert_eq!(scene.drums[0].unwrap().source_hash, 7);
    assert!(scene.drums[1].is_none());
    assert_eq!(scene.bass.unwrap().source_hash, 7);
    assert_eq!(scene.melody.unwrap().source_hash, 7);
    assert!(scene.harmony.is_none());
    assert!(scene.texture.is_none());
    let other = catalog.loop_scene(1).unwrap();
    assert_eq!(other.source_hash, 9);
    assert!(other.bass.is_none());
    assert_eq!(other.melody.unwrap().source_hash, 9);
}

#[test]
fn damaged_catalogues_are_invalid() {
    let mut short = vec![0u8; 10];
    short[0..4].copy_from_slice(b"LFPK");
    assert!(!PackedCatalog::new(Box::leak(short.into_boxed_slice())).is_valid());
    let mut bytes = fixture_bytes();
    bytes[4] = 3;
    assert!(!PackedCatalog::new(Box::leak(bytes.into_boxed_slice())).is_valid());
}

#[test]
fn a_catalogue_with_loop_anchors_serves_every_seed() {
    assert!(fixture().serves());
}

#[test]
fn a_catalogue_without_loop_anchors_serves_no_seed() {
    let mut bytes = fixture_bytes();
    // No melody loops: the kind index of melody loops counts none.
    let at = 16 + 7 * 4;
    bytes[at + 2..at + 4].copy_from_slice(&0u16.to_le_bytes());
    let c = PackedCatalog::new(Box::leak(bytes.into_boxed_slice()));
    assert!(c.is_valid());
    assert!(!c.serves());
}

#[test]
fn a_damaged_catalogue_serves_no_seed() {
    let mut bytes = fixture_bytes();
    bytes[5] = 9;
    assert!(!PackedCatalog::new(Box::leak(bytes.into_boxed_slice())).serves());
}
