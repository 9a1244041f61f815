//! The fixed binary sample catalogue.
//!
//! Layout: a 16-byte header ("LFPK", version 2, flags 1, the element count at
//! 6, the source rate at 8, the data offset at 12), a kind index of 11
//! (start, count) pairs, three root tables of 128 notes by 8 variants, fixed
//! 28-byte element records, then mu-law audio. All fields are little-endian.
//! Reading borrows straight from read-only memory and never allocates.
use crate::le::{get_u16, get_u32, u16_at, u32_at};
use crate::music::sample::Sample;
use vstd::prelude::*;

verus! {

pub const HEADER_SIZE: usize = 16;

pub const KIND_COUNT: usize = 11;

pub const KIND_TABLE_SIZE: usize = KIND_COUNT * 4;

pub const ROOT_KIND_COUNT: usize = 3;

pub const ROOT_VARIANTS: usize = 8;

pub const ROOT_TABLE_SIZE: usize = ROOT_KIND_COUNT * 128 * ROOT_VARIANTS * 2;

pub const RECORD_SIZE: usize = 28;

pub const RECORDS_OFFSET: usize = HEADER_SIZE + KIND_TABLE_SIZE + ROOT_TABLE_SIZE;

/// What an element of the catalogue is.
#[derive(Clone, Copy, Debug, PartialEq, Eq, Structural)]
pub enum ElementKind {
    Kick,
    Snare,
    Hat,
    DrumLoop,
    BassNote,
    BassLoop,
    LeadNote,
    MelodyLoop,
    KeysNote,
    HarmonyLoop,
    TextureLoop,
}

/// The kind's code in the catalogue: its position in the list above.
pub open spec fn kind_code(k: ElementKind) -> int {
    match k {
        ElementKind::Kick => 0,
        ElementKind::Snare => 1,
        ElementKind::Hat => 2,
        ElementKind::DrumLoop => 3,
        ElementKind::BassNote => 4,
        ElementKind::BassLoop => 5,
        ElementKind::LeadNote => 6,
        ElementKind::MelodyLoop => 7,
        ElementKind::KeysNote => 8,
        ElementKind::HarmonyLoop => 9,
        ElementKind::TextureLoop => 10,
    }
}

/// The kind a record's code names, if any.
pub open spec fn kind_of_code(code: u8) -> Option<ElementKind> {
    if code == 0 {
        Some(ElementKind::Kick)
    } else if code == 1 {
        Some(ElementKind::Snare)
    } else if code == 2 {
        Some(ElementKind::Hat)
    } else if code == 3 {
        Some(ElementKind::DrumLoop)
    } else if code == 4 {
        Some(ElementKind::BassNote)
    } else if code == 5 {
        Some(ElementKind::BassLoop)
    } else if code == 6 {
        Some(ElementKind::LeadNote)
    } else if code == 7 {
        Some(ElementKind::MelodyLoop)
    } else if code == 8 {
        Some(ElementKind::KeysNote)
    } else if code == 9 {
        Some(ElementKind::HarmonyLoop)
    } else if code == 10 {
        Some(ElementKind::TextureLoop)
    } else {
        None
    }
}

/// The root table of a pitched kind.
pub open spec fn root_table_of(k: ElementKind) -> Option<usize> {
    match k {
        ElementKind::BassNote => Some(0),
        ElementKind::LeadNote => Some(1),
        ElementKind::KeysNote => Some(2),
        _ => None,
    }
}

impl ElementKind {
    pub fn code(self) -> (r: usize)
        ensures
            r == kind_code(self),
    {
        match self {
            ElementKind::Kick => 0,
            ElementKind::Snare => 1,
            ElementKind::Hat => 2,
            ElementKind::DrumLoop => 3,
            ElementKind::BassNote => 4,
            ElementKind::BassLoop => 5,
            ElementKind::LeadNote => 6,
            ElementKind::MelodyLoop => 7,
            ElementKind::KeysNote => 8,
            ElementKind::HarmonyLoop => 9,
            ElementKind::TextureLoop => 10,
        }
    }

    pub fn from_code(code: u8) -> (r: Option<ElementKind>)
        ensures
            r == kind_of_code(code),
    {
        match code {
            0 => Some(ElementKind::Kick),
            1 => Some(ElementKind::Snare),
            2 => Some(ElementKind::Hat),
            3 => Some(ElementKind::DrumLoop),
            4 => Some(ElementKind::BassNote),
            5 => Some(ElementKind::BassLoop),
            6 => Some(ElementKind::LeadNote),
            7 => Some(ElementKind::MelodyLoop),
            8 => Some(ElementKind::KeysNote),
            9 => Some(ElementKind::HarmonyLoop),
            10 => Some(ElementKind::TextureLoop),
            _ => None,
        }
    }

    pub fn root_table(self) -> (r: Option<usize>)
        ensures
            r == root_table_of(self),
    {
        match self {
            ElementKind::BassNote => Some(0),
            ElementKind::LeadNote => Some(1),
            ElementKind::KeysNote => Some(2),
            _ => None,
        }
    }
}

/// One catalogue element: its audio and its metadata.
#[derive(Clone, Copy, Debug)]
pub struct PackedElement {
    pub sample: Sample,
    pub kind: ElementKind,
    pub looped: bool,
    pub bars: u8,
    pub phase: u8,
    pub bpm: u16,
    pub key_class: u8,
    pub mode: u8,
    pub source_hash: u32,
    pub progression_hash: u32,
    pub root_semitone: Option<u8>,
    pub energy: u8,
}

/// One phase-aligned set of stems harvested from the same source performance.
#[derive(Clone, Copy, Debug)]
pub struct LoopScene {
    pub source_hash: u32,
    /// The key the anchor loop was recorded in, as a pitch class.
    pub key_class: u8,
    pub drums: [Option<PackedElement>; 4],
    pub bass: Option<PackedElement>,
    pub melody: Option<PackedElement>,
    pub harmony: Option<PackedElement>,
    pub texture: Option<PackedElement>,
}

/// The 16-bit field at `off`, or 0 past the end.
pub open spec fn rd16(s: Seq<u8>, off: int) -> u16 {
    if off + 2 <= s.len() { u16_at(s, off) } else { 0 }
}

/// The 32-bit field at `off`, or 0 past the end.
pub open spec fn rd32(s: Seq<u8>, off: int) -> u32 {
    if off + 4 <= s.len() { u32_at(s, off) } else { 0 }
}

/// The catalogue's element count.
pub open spec fn count_of(s: Seq<u8>) -> int {
    rd16(s, 6) as int
}

/// A well-formed catalogue: magic "LFPK", version 2, flags 1, and the data
/// starting right after the element records, inside the bytes.
pub open spec fn catalog_valid(s: Seq<u8>) -> bool {
    &&& s.len() >= RECORDS_OFFSET
    &&& s[0] == 0x4c && s[1] == 0x46 && s[2] == 0x50 && s[3] == 0x4b
    &&& s[4] == 2
    &&& s[5] == 1
    &&& rd32(s, 12) as int == RECORDS_OFFSET + count_of(s) * RECORD_SIZE
    &&& rd32(s, 12) <= s.len()
}

/// Offset of the element record `index`.
pub open spec fn record_at(index: int) -> int {
    RECORDS_OFFSET + index * RECORD_SIZE
}

/// Reading element `index` stays inside the bytes wherever it indexes them
/// directly (past the count it reads nothing; an unknown kind or an audio
/// range outside the bytes ends the read before the metadata).
pub open spec fn element_readable(s: Seq<u8>, index: int) -> bool {
    let base = record_at(index);
    let off = rd32(s, base + 20) as int;
    let len = rd32(s, base + 24) as int;
    index >= count_of(s) || (base < s.len() && (kind_of_code(s[base]) is None || off + len > usize::MAX
        || off + len > s.len() || base + 17 < s.len()))
}

/// Element `index` exists: it is within the count, its kind is known and its
/// audio lies inside the bytes.
pub open spec fn element_present(s: Seq<u8>, index: int) -> bool {
    let base = record_at(index);
    let off = rd32(s, base + 20) as int;
    let len = rd32(s, base + 24) as int;
    &&& 0 <= index < count_of(s)
    &&& kind_of_code(s[base]) is Some
    &&& off + len <= usize::MAX
    &&& off + len <= s.len()
}

/// Element `e` is what record `index` describes.
pub open spec fn element_is(e: PackedElement, s: Seq<u8>, index: int) -> bool {
    let base = record_at(index);
    let off = rd32(s, base + 20) as int;
    let len = rd32(s, base + 24) as int;
    let root = s[base + 16];
    &&& e.sample.bytes() == s.subrange(off, off + len)
    &&& e.sample.rate() == rd32(s, 8)
    &&& e.sample.gain() == rd16(s, base + 18)
    &&& Some(e.kind) == kind_of_code(s[base])
    &&& e.looped == (s[base + 1] & 1 != 0)
    &&& e.bars == s[base + 2]
    &&& e.phase == s[base + 3]
    &&& e.bpm == rd16(s, base + 4)
    &&& e.key_class == s[base + 6]
    &&& e.mode == s[base + 7]
    &&& e.source_hash == rd32(s, base + 8)
    &&& e.progression_hash == rd32(s, base + 12)
    &&& e.root_semitone == if root < 128 { Some(root) } else { None }
    &&& e.energy == s[base + 17]
}

/// Offset of a kind's (start, count) entry in the kind index.
pub open spec fn kind_entry(k: ElementKind) -> int {
    HEADER_SIZE + kind_code(k) * 4
}

/// Index of the element `select` picks: the selector taken round-robin over
/// the kind's elements.
pub open spec fn chosen_index(s: Seq<u8>, k: ElementKind, selector: u64) -> int {
    let start = rd16(s, kind_entry(k)) as int;
    let count = rd16(s, kind_entry(k) + 2) as int;
    start + (selector % (count as u64)) as int
}

/// Offset of a root-table slot: the table, the (clamped) note, the variant.
pub open spec fn root_slot(table: int, note: u8, variant: int) -> int {
    HEADER_SIZE + KIND_TABLE_SIZE + ((table * 128 + if note > 127 { 127 } else { note as int }) * ROOT_VARIANTS
        + variant) * 2
}

/// The first index in `from..to` whose element exists with the given source
/// and phase, scanning upward.
pub open spec fn first_match(s: Seq<u8>, from: int, to: int, hash: u32, phase: u8) -> Option<int>
    decreases to - from,
{
    if from >= to {
        None
    } else if element_present(s, from) && rd32(s, record_at(from) + 8) == hash && s[record_at(from) + 3] == phase {
        Some(from)
    } else {
        first_match(s, from + 1, to, hash, phase)
    }
}

/// Scanning `from..to` for a match reads only readable elements.
pub open spec fn scan_readable(s: Seq<u8>, from: int, to: int, hash: u32, phase: u8) -> bool
    decreases to - from,
{
    if from >= to {
        true
    } else if !element_readable(s, from) {
        false
    } else if element_present(s, from) && rd32(s, record_at(from) + 8) == hash && s[record_at(from) + 3] == phase {
        true
    } else {
        scan_readable(s, from + 1, to, hash, phase)
    }
}

/// The catalogue of mu-law elements, borrowed from read-only memory.
#[derive(Clone, Copy, Debug)]
pub struct PackedCatalog {
    bytes: &'static [u8],
}

impl PackedCatalog {
    pub closed spec fn bytes(self) -> Seq<u8> {
        self.bytes@
    }

    pub fn new(bytes: &'static [u8]) -> (r: Self)
        ensures
            r.bytes() == bytes@,
    {
        Self { bytes }
    }

    fn u16(&self, offset: usize) -> (r: u16)
        requires
            offset <= usize::MAX - 2,
        ensures
            r == rd16(self.bytes(), offset as int),
    {
        if offset + 2 <= self.bytes.len() {
            get_u16(self.bytes, offset)
        } else {
            0
        }
    }

    fn u32(&self, offset: usize) -> (r: u32)
        requires
            offset <= usize::MAX - 4,
        ensures
            r == rd32(self.bytes(), offset as int),
    {
        if offset + 4 <= self.bytes.len() {
            get_u32(self.bytes, offset)
        } else {
            0
        }
    }

    pub fn is_valid(&self) -> (r: bool)
        ensures
            r == catalog_valid(self.bytes()),
    {
        if self.bytes.len() < RECORDS_OFFSET || self.bytes[0] != 0x4c || self.bytes[1] != 0x46 || self.bytes[2]
            != 0x50 || self.bytes[3] != 0x4b {
            return false;
        }
        let count = self.len();
        let data_offset = self.u32(12) as usize;
        self.bytes[4] == 2 && self.bytes[5] == 1 && data_offset == RECORDS_OFFSET + count * RECORD_SIZE
            && data_offset <= self.bytes.len()
    }

    pub fn len(&self) -> (r: usize)
        ensures
            r == count_of(self.bytes()),
    {
        self.u16(6) as usize
    }

    pub fn is_empty(&self) -> (r: bool)
        ensures
            r == (count_of(self.bytes()) == 0),
    {
        self.len() == 0
    }

    /// Number of elements available for a role, read from the kind index.
    pub fn len_for_kind(&self, kind: ElementKind) -> (r: usize)
        ensures
            r == rd16(self.bytes(), kind_entry(kind) + 2),
    {
        let table = HEADER_SIZE + kind.code() * 4;
        self.u16(table + 2) as usize
    }

    /// Element `index`, when it exists.
    pub fn element(&self, index: usize) -> (r: Option<PackedElement>)
        requires
            element_readable(self.bytes(), index as int),
        ensures
            r is Some <==> element_present(self.bytes(), index as int),
            r matches Some(e) ==> element_is(e, self.bytes(), index as int),
    {
        if index >= self.len() {
            return None;
        }
        let base = RECORDS_OFFSET + index * RECORD_SIZE;
        let kind = match ElementKind::from_code(self.bytes[base]) {
            Some(k) => k,
            None => return None,
        };
        let offset = self.u32(base + 20) as usize;
        let length = self.u32(base + 24) as usize;
        let end = match offset.checked_add(length) {
            Some(e) => e,
            None => return None,
        };
        if end > self.bytes.len() {
            return None;
        }
        let data = vstd::slice::slice_subrange(self.bytes, offset, end);
        let gain = self.u16(base + 18);
        let root = self.bytes[base + 16];
        Some(
            PackedElement {
                sample: Sample::mulaw(data, self.u32(8), gain),
                kind,
                looped: self.bytes[base + 1] & 1 != 0,
                bars: self.bytes[base + 2],
                phase: self.bytes[base + 3],
                bpm: self.u16(base + 4),
                key_class: self.bytes[base + 6],
                mode: self.bytes[base + 7],
                source_hash: self.u32(base + 8),
                progression_hash: self.u32(base + 12),
                root_semitone: if root < 128 {
                    Some(root)
                } else {
                    None
                },
                energy: self.bytes[base + 17],
            },
        )
    }

    /// An element of a kind, the selector taken round-robin over the kind's
    /// elements; none when the kind has none.
    pub fn select(&self, kind: ElementKind, selector: u64) -> (r: Option<PackedElement>)
        requires
            rd16(self.bytes(), kind_entry(kind) + 2) > 0 ==> element_readable(
                self.bytes(),
                chosen_index(self.bytes(), kind, selector),
            ),
        ensures
            rd16(self.bytes(), kind_entry(kind) + 2) == 0 ==> r is None,
            rd16(self.bytes(), kind_entry(kind) + 2) > 0 ==> {
                let index = chosen_index(self.bytes(), kind, selector);
                &&& (r is Some <==> element_present(self.bytes(), index))
                &&& (r matches Some(e) ==> element_is(e, self.bytes(), index))
            },
    {
        let table = HEADER_SIZE + kind.code() * 4;
        let start = self.u16(table) as usize;
        let count = self.len_for_kind(kind);
        if count == 0 {
            return None;
        }
        let pick = (selector % (count as u64)) as usize;
        self.element(start + pick)
    }

    /// The element of a pitched kind filed under the (clamped) note and the
    /// selector's variant; none for unpitched kinds or an empty slot.
    pub fn nearest_note(&self, kind: ElementKind, target_semitone: u8, selector: u64) -> (r: Option<
        PackedElement,
    >)
        requires
            root_table_of(kind) matches Some(t) ==> {
                let slot = rd16(self.bytes(), root_slot(t as int, target_semitone, (selector % 8) as int));
                slot != u16::MAX ==> element_readable(self.bytes(), slot as int)
            },
        ensures
            root_table_of(kind) is None ==> r is None,
            root_table_of(kind) matches Some(t) ==> {
                let slot = rd16(self.bytes(), root_slot(t as int, target_semitone, (selector % 8) as int));
                &&& (slot == u16::MAX ==> r is None)
                &&& (slot != u16::MAX ==> (r is Some <==> element_present(self.bytes(), slot as int)))
                &&& (r matches Some(e) ==> element_is(e, self.bytes(), slot as int))
            },
    {
        let table = match kind.root_table() {
            Some(t) => t,
            None => return None,
        };
        let variant = (selector % (ROOT_VARIANTS as u64)) as usize;
        let note: usize = if target_semitone > 127 {
            127
        } else {
            target_semitone as usize
        };
        let offset = HEADER_SIZE + KIND_TABLE_SIZE + ((table * 128 + note) * ROOT_VARIANTS + variant) * 2;
        let index = self.u16(offset);
        if index == u16::MAX {
            None
        } else {
            self.element(index as usize)
        }
    }

    /// The first element of a kind from the given source performance at the
    /// given phase.
    fn matching_loop(&self, kind: ElementKind, source_hash: u32, phase: u8) -> (r: Option<PackedElement>)
        requires
            ({
                let start = rd16(self.bytes(), kind_entry(kind)) as int;
                let count = rd16(self.bytes(), kind_entry(kind) + 2) as int;
                scan_readable(self.bytes(), start, start + count, source_hash, phase)
            }),
        ensures
            ({
                let start = rd16(self.bytes(), kind_entry(kind)) as int;
                let count = rd16(self.bytes(), kind_entry(kind) + 2) as int;
                let found = first_match(self.bytes(), start, start + count, source_hash, phase);
                &&& (r is Some <==> found is Some)
                &&& (r matches Some(e) ==> element_is(e, self.bytes(), found->0))
            }),
    {
        let table = HEADER_SIZE + kind.code() * 4;
        let start = self.u16(table) as usize;
        let count = self.len_for_kind(kind);
        let end = start + count;
        let mut index = start;
        while index < end
            invariant
                start <= index <= end,
                end == start + count,
                start == rd16(self.bytes(), kind_entry(kind)),
                count == rd16(self.bytes(), kind_entry(kind) + 2),
                scan_readable(self.bytes(), index as int, end as int, source_hash, phase),
                first_match(self.bytes(), start as int, end as int, source_hash, phase) == first_match(
                    self.bytes(),
                    index as int,
                    end as int,
                    source_hash,
                    phase,
                ),
            decreases end - index,
        {
            match self.element(index) {
                Some(e) => {
                    if e.source_hash == source_hash && e.phase == phase {
                        return Some(e);
                    }
                },
                None => {},
            }
            index = index + 1;
        }
        None
    }

    /// Select a coherent source and resolve all of its aligned loop stems:
    /// the selector picks a melody or harmony loop as the anchor, and every
    /// stem is the first of its kind from the anchor's source performance
    /// (drums at each of four phases, the rest at phase 0).
    pub fn loop_scene(&self, selector: u64) -> (r: Option<LoopScene>)
        requires
            self.scene_readable(selector),
        ensures
            r is Some <==> self.scene_anchor(selector) is Some,
            r matches Some(scene) ==> {
                let hash = self.scene_anchor(selector)->0;
                &&& scene.source_hash == hash
                &&& scene.key_class == self.bytes()[record_at(self.anchor_index(selector)->0) + 6]
                &&& self.stem_is(scene.bass, ElementKind::BassLoop, hash, 0)
                &&& self.stem_is(scene.melody, ElementKind::MelodyLoop, hash, 0)
                &&& self.stem_is(scene.harmony, ElementKind::HarmonyLoop, hash, 0)
                &&& self.stem_is(scene.texture, ElementKind::TextureLoop, hash, 0)
                &&& forall|p: int| 0 <= p < 4 ==> self.stem_is(#[trigger] scene.drums@[p], ElementKind::DrumLoop, hash, p as u8)
            },
    {
        let melodies = self.len_for_kind(ElementKind::MelodyLoop);
        let harmonies = self.len_for_kind(ElementKind::HarmonyLoop);
        let anchor_count = melodies + harmonies;
        if anchor_count == 0 {
            return None;
        }
        let selected = (selector % (anchor_count as u64)) as usize;
        let anchor = if selected < melodies {
            match self.select(ElementKind::MelodyLoop, selected as u64) {
                Some(a) => a,
                None => return None,
            }
        } else {
            match self.select(ElementKind::HarmonyLoop, (selected - melodies) as u64) {
                Some(a) => a,
                None => return None,
            }
        };
        let source_hash = anchor.source_hash;
        assert(self.all_stems_readable(source_hash));
        let mut drums: [Option<PackedElement>; 4] = [None; 4];
        let mut phase: usize = 0;
        while phase < 4
            invariant
                phase <= 4,
                self.all_stems_readable(source_hash),
                self.scene_anchor(selector) == Some(source_hash),
                forall|p: int| 0 <= p < phase ==> self.stem_is(#[trigger] drums@[p], ElementKind::DrumLoop, source_hash, p as u8),
            decreases 4 - phase,
        {
            assert(self.stems_readable(ElementKind::DrumLoop, source_hash, phase as u8));
            let found = self.matching_loop(ElementKind::DrumLoop, source_hash, phase as u8);
            drums[phase] = found;
            phase = phase + 1;
        }
        Some(
            LoopScene {
                source_hash,
                key_class: anchor.key_class,
                drums,
                bass: self.matching_loop(ElementKind::BassLoop, source_hash, 0),
                melody: self.matching_loop(ElementKind::MelodyLoop, source_hash, 0),
                harmony: self.matching_loop(ElementKind::HarmonyLoop, source_hash, 0),
                texture: self.matching_loop(ElementKind::TextureLoop, source_hash, 0),
            },
        )
    }

    /// Whether the catalogue can serve a device: it is well formed and every
    /// seed resolves to a coherent loop scene.
    pub fn serves(&self) -> (r: bool)
        ensures
            r == crate::device::catalog_serves(*self),
    {
        if !self.is_valid() {
            return false;
        }
        let melodies = self.len_for_kind(ElementKind::MelodyLoop);
        let harmonies = self.len_for_kind(ElementKind::HarmonyLoop);
        let total = melodies + harmonies;
        if total == 0 {
            proof {
                assert(self.scene_anchor(0) is None);
            }
            return false;
        }
        let mut k: usize = 0;
        while k < total
            invariant
                catalog_valid(self.bytes()),
                total == rd16(self.bytes(), kind_entry(ElementKind::MelodyLoop) + 2) + rd16(
                    self.bytes(),
                    kind_entry(ElementKind::HarmonyLoop) + 2,
                ),
                0 < total <= 0x20000,
                k <= total,
                forall|j: u64| j < k ==> (#[trigger] self.scene_anchor(j)) is Some,
            decreases total - k,
        {
            proof {
                lemma_valid_scene_readable(*self, k as u64);
            }
            if self.loop_scene(k as u64).is_none() {
                return false;
            }
            k += 1;
        }
        proof {
            assert forall|sel: u64| #[trigger] self.scene_anchor(sel) is Some by {
                let j = sel % (total as u64);
                assert(j < k);
                assert(self.scene_anchor(j) is Some);
                vstd::arithmetic::div_mod::lemma_small_mod(j as nat, total as nat);
                assert(self.anchor_index(sel) == self.anchor_index(j));
            }
        }
        true
    }

    /// The index of the anchor `loop_scene` picks: the selector taken over
    /// the melody loops, then the harmony loops; none when there are neither.
    pub open spec fn anchor_index(self, selector: u64) -> Option<int> {
        let s = self.bytes();
        let melodies = rd16(s, kind_entry(ElementKind::MelodyLoop) + 2) as int;
        let harmonies = rd16(s, kind_entry(ElementKind::HarmonyLoop) + 2) as int;
        let total = melodies + harmonies;
        if total == 0 {
            None
        } else {
            let selected = (selector % (total as u64)) as int;
            if selected < melodies {
                Some(chosen_index(s, ElementKind::MelodyLoop, selected as u64))
            } else {
                Some(chosen_index(s, ElementKind::HarmonyLoop, (selected - melodies) as u64))
            }
        }
    }

    /// The source hash of the anchor `loop_scene` picks, if it resolves.
    pub open spec fn scene_anchor(self, selector: u64) -> Option<u32> {
        match self.anchor_index(selector) {
            None => None,
            Some(index) => if element_present(self.bytes(), index) {
                Some(rd32(self.bytes(), record_at(index) + 8))
            } else {
                None
            },
        }
    }

    /// `stem` is the first element of `kind` from source `hash` at `phase`.
    pub open spec fn stem_is(self, stem: Option<PackedElement>, kind: ElementKind, hash: u32, phase: u8) -> bool {
        let s = self.bytes();
        let start = rd16(s, kind_entry(kind)) as int;
        let count = rd16(s, kind_entry(kind) + 2) as int;
        let found = first_match(s, start, start + count, hash, phase);
        &&& (stem is Some <==> found is Some)
        &&& (stem matches Some(e) ==> element_is(e, s, found->0))
    }

    /// `scene` is the loop scene the selector resolves to: the anchor's
    /// source and key, and each stem that source's first of its kind.
    pub open spec fn scene_is(self, selector: u64, scene: LoopScene) -> bool {
        let hash = self.scene_anchor(selector)->0;
        &&& scene.source_hash == hash
        &&& scene.key_class == self.bytes()[record_at(self.anchor_index(selector)->0) + 6]
        &&& self.stem_is(scene.bass, ElementKind::BassLoop, hash, 0)
        &&& self.stem_is(scene.melody, ElementKind::MelodyLoop, hash, 0)
        &&& self.stem_is(scene.harmony, ElementKind::HarmonyLoop, hash, 0)
        &&& self.stem_is(scene.texture, ElementKind::TextureLoop, hash, 0)
        &&& forall|p: int| 0 <= p < 4 ==> self.stem_is(#[trigger] scene.drums@[p], ElementKind::DrumLoop, hash, p as u8)
    }

    /// Every read `loop_scene` makes stays inside the bytes.
    pub open spec fn scene_readable(self, selector: u64) -> bool {
        match self.anchor_index(selector) {
            None => true,
            Some(index) => {
                &&& element_readable(self.bytes(), index)
                &&& element_present(self.bytes(), index) ==> self.all_stems_readable(
                    rd32(self.bytes(), record_at(index) + 8),
                )
            },
        }
    }

    /// Every stem scan for source `hash` stays inside the bytes.
    pub open spec fn all_stems_readable(self, hash: u32) -> bool {
        &&& forall|p: u8| p < 4 ==> #[trigger] self.stems_readable(ElementKind::DrumLoop, hash, p)
        &&& self.stems_readable(ElementKind::BassLoop, hash, 0)
        &&& self.stems_readable(ElementKind::MelodyLoop, hash, 0)
        &&& self.stems_readable(ElementKind::HarmonyLoop, hash, 0)
        &&& self.stems_readable(ElementKind::TextureLoop, hash, 0)
    }

    /// Scanning a kind's elements for a stem stays inside the bytes.
    pub open spec fn stems_readable(self, kind: ElementKind, hash: u32, phase: u8) -> bool {
        let s = self.bytes();
        let start = rd16(s, kind_entry(kind)) as int;
        let count = rd16(s, kind_entry(kind) + 2) as int;
        scan_readable(s, start, start + count, hash, phase)
    }
}

/// In a well-formed catalogue every element can be read.
pub proof fn lemma_valid_catalog_readable(s: Seq<u8>, index: int)
    requires
        catalog_valid(s),
        0 <= index,
    ensures
        element_readable(s, index),
{
    if 0 <= index < count_of(s) {
        assert(record_at(index) + RECORD_SIZE <= rd32(s, 12)) by (nonlinear_arith)
            requires
                0 <= index < count_of(s),
                rd32(s, 12) as int == RECORDS_OFFSET + count_of(s) * RECORD_SIZE,
        ;
    }
}

/// In a well-formed catalogue every scan reads only readable elements.
pub proof fn lemma_valid_scan_readable(s: Seq<u8>, from: int, to: int, hash: u32, phase: u8)
    requires
        catalog_valid(s),
        0 <= from,
    ensures
        scan_readable(s, from, to, hash, phase),
    decreases to - from,
{
    if from < to {
        lemma_valid_catalog_readable(s, from);
        lemma_valid_scan_readable(s, from + 1, to, hash, phase);
    }
}

/// In a well-formed catalogue every loop scene can be resolved.
pub proof fn lemma_valid_scene_readable(c: PackedCatalog, selector: u64)
    requires
        catalog_valid(c.bytes()),
    ensures
        c.scene_readable(selector),
{
    let s = c.bytes();
    if let Some(index) = c.anchor_index(selector) {
        lemma_valid_catalog_readable(s, index);
        if element_present(s, index) {
            let hash = rd32(s, record_at(index) + 8);
            assert forall|p: u8| p < 4 implies #[trigger] c.stems_readable(ElementKind::DrumLoop, hash, p) by {
                lemma_valid_scan_readable(s, rd16(s, kind_entry(ElementKind::DrumLoop)) as int, rd16(s, kind_entry(ElementKind::DrumLoop)) + rd16(s, kind_entry(ElementKind::DrumLoop) + 2), hash, p);
            }
            lemma_valid_scan_readable(s, rd16(s, kind_entry(ElementKind::BassLoop)) as int, rd16(s, kind_entry(ElementKind::BassLoop)) + rd16(s, kind_entry(ElementKind::BassLoop) + 2), hash, 0);
            lemma_valid_scan_readable(s, rd16(s, kind_entry(ElementKind::MelodyLoop)) as int, rd16(s, kind_entry(ElementKind::MelodyLoop)) + rd16(s, kind_entry(ElementKind::MelodyLoop) + 2), hash, 0);
            lemma_valid_scan_readable(s, rd16(s, kind_entry(ElementKind::HarmonyLoop)) as int, rd16(s, kind_entry(ElementKind::HarmonyLoop)) + rd16(s, kind_entry(ElementKind::HarmonyLoop) + 2), hash, 0);
            lemma_valid_scan_readable(s, rd16(s, kind_entry(ElementKind::TextureLoop)) as int, rd16(s, kind_entry(ElementKind::TextureLoop)) + rd16(s, kind_entry(ElementKind::TextureLoop) + 2), hash, 0);
        }
    }
}

/// A match found by the scan is an element of the range from the given
/// source at the given phase.
pub proof fn lemma_first_match_matches(s: Seq<u8>, from: int, to: int, hash: u32, phase: u8)
    ensures
        first_match(s, from, to, hash, phase) matches Some(i) ==> {
            &&& from <= i < to
            &&& element_present(s, i)
            &&& rd32(s, record_at(i) + 8) == hash
            &&& s[record_at(i) + 3] == phase
        },
    decreases to - from,
{
    if from < to {
        lemma_first_match_matches(s, from + 1, to, hash, phase);
    }
}

/// Loop scenes never mix source performances: every stem a scene resolves
/// comes from the anchor's source, at the phase it was asked for.
pub proof fn lemma_stems_share_source(c: PackedCatalog, stem: Option<PackedElement>, kind: ElementKind, hash: u32, phase: u8)
    requires
        c.stem_is(stem, kind, hash, phase),
    ensures
        stem matches Some(e) ==> e.source_hash == hash && e.phase == phase,
{
    let s = c.bytes();
    let start = rd16(s, kind_entry(kind)) as int;
    let count = rd16(s, kind_entry(kind) + 2) as int;
    lemma_first_match_matches(s, start, start + count, hash, phase);
}

} // verus!
