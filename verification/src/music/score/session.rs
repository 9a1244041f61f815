//! Seed to the session's musical identity: key, progression, groove
//! signature, and which sampled source performance voices each lane.
//!
//! Casting sources is a bounded scan over fixed catalogue metadata; it runs
//! only when a device starts or changes seed, never in the render loop.
use crate::music::catalog::{
    catalog_valid, chosen_index, element_is, element_present, kind_entry, lemma_valid_catalog_readable,
    rd16, rd32, record_at, ElementKind, PackedCatalog, PackedElement,
};
use crate::music::content::{signature_for, signature_index, signature_is, GrooveSignature};
use crate::music::progression::{generated_from, Progression};
use crate::music::score::{event_hash, spec_event_hash};
use vstd::arithmetic::div_mod::lemma_small_mod;
use vstd::prelude::*;

verus! {

/// The most distinct source performances a lane can cast from.
pub const MAX_SOURCES: usize = 8;

/// Number of catalogue elements of a kind.
pub open spec fn kind_count(s: Seq<u8>, k: ElementKind) -> int {
    rd16(s, kind_entry(k) + 2) as int
}

/// Catalogue index of the kind's `i`-th element.
pub open spec fn kind_index(s: Seq<u8>, k: ElementKind, i: int) -> int {
    rd16(s, kind_entry(k)) as int + i
}

/// The source performance of the kind's `i`-th element, when it exists.
pub open spec fn source_at(s: Seq<u8>, k: ElementKind, i: int) -> Option<u32> {
    if element_present(s, kind_index(s, k, i)) {
        Some(rd32(s, record_at(kind_index(s, k, i)) + 8))
    } else {
        None
    }
}

/// The kind's `i`-th element, when it exists.
pub fn kind_element(catalog: &PackedCatalog, kind: ElementKind, i: usize) -> (r: Option<PackedElement>)
    requires
        catalog_valid(catalog.bytes()),
        i < kind_count(catalog.bytes(), kind),
    ensures
        r is Some <==> element_present(catalog.bytes(), kind_index(catalog.bytes(), kind, i as int)),
        r matches Some(e) ==> element_is(e, catalog.bytes(), kind_index(catalog.bytes(), kind, i as int)),
        r matches Some(e) ==> source_at(catalog.bytes(), kind, i as int) == Some(e.source_hash),
        r is None ==> source_at(catalog.bytes(), kind, i as int) is None,
{
    let ghost s = catalog.bytes();
    proof {
        lemma_small_mod(i as nat, kind_count(s, kind) as nat);
        assert(chosen_index(s, kind, i as u64) == kind_index(s, kind, i as int));
        lemma_valid_catalog_readable(s, kind_index(s, kind, i as int));
    }
    catalog.select(kind, i as u64)
}

/// Some element of the kind comes from the source.
pub open spec fn has_source_spec(s: Seq<u8>, k: ElementKind, source: u32) -> bool {
    exists|i: int| 0 <= i < kind_count(s, k) && #[trigger] source_at(s, k, i) == Some(source)
}

/// The first entry of `acc`, from `j` on, for the source `x`.
pub open spec fn find_source(acc: Seq<(u32, u32)>, x: u32, j: int) -> Option<int>
    decreases acc.len() - j,
{
    if j < 0 || j >= acc.len() {
        None
    } else if acc[j].0 == x {
        Some(j)
    } else {
        find_source(acc, x, j + 1)
    }
}

/// One element counted into the tally: its source's count goes up, or the
/// source joins the tally while there is room.
pub open spec fn tally_step(acc: Seq<(u32, u32)>, h: Option<u32>) -> Seq<(u32, u32)> {
    match h {
        None => acc,
        Some(x) => match find_source(acc, x, 0) {
            Some(j) => acc.update(j, (x, (acc[j].1 + 1) as u32)),
            None => if acc.len() < MAX_SOURCES {
                acc.push((x, 1u32))
            } else {
                acc
            },
        },
    }
}

/// The distinct sources of the kind's first `n` elements, in order of first
/// appearance (at most eight), each with its element count.
pub open spec fn tally(s: Seq<u8>, k: ElementKind, n: nat) -> Seq<(u32, u32)>
    decreases n,
{
    if n == 0 {
        seq![]
    } else {
        tally_step(tally(s, k, (n - 1) as nat), source_at(s, k, n - 1))
    }
}

/// The tally over all of the kind's elements.
pub open spec fn sources_of(s: Seq<u8>, k: ElementKind) -> Seq<(u32, u32)> {
    tally(s, k, kind_count(s, k) as nat)
}

proof fn lemma_find_source(acc: Seq<(u32, u32)>, x: u32, j: int)
    requires
        0 <= j,
    ensures
        find_source(acc, x, j) matches Some(i) ==> j <= i < acc.len() && acc[i].0 == x,
        find_source(acc, x, j) is None ==> forall|i: int| j <= i < acc.len() ==> acc[i].0 != x,
    decreases acc.len() - j,
{
    if j < acc.len() {
        lemma_find_source(acc, x, j + 1);
    }
}

/// The tally stays within its room, its counts within the elements seen, and
/// every source in it is one some element of the kind comes from.
pub proof fn lemma_tally(s: Seq<u8>, k: ElementKind, n: nat)
    requires
        n <= kind_count(s, k),
    ensures
        tally(s, k, n).len() <= MAX_SOURCES,
        forall|j: int| 0 <= j < tally(s, k, n).len() ==> #[trigger] tally(s, k, n)[j].1 <= n,
        forall|j: int| 0 <= j < tally(s, k, n).len() ==> has_source_spec(s, k, #[trigger] tally(s, k, n)[j].0),
    decreases n,
{
    if n > 0 {
        let prev = tally(s, k, (n - 1) as nat);
        lemma_tally(s, k, (n - 1) as nat);
        let h = source_at(s, k, n - 1);
        if let Some(x) = h {
            lemma_find_source(prev, x, 0);
            assert(has_source_spec(s, k, x)) by {
                assert(source_at(s, k, n - 1) == Some(x));
            }
        }
        let t = tally(s, k, n);
        assert forall|j: int| 0 <= j < t.len() implies #[trigger] t[j].1 <= n && has_source_spec(s, k, t[j].0) by {
            if j < prev.len() {
                assert(prev[j].1 <= n - 1);
                assert(has_source_spec(s, k, prev[j].0));
            }
        }
    }
}

/// Distinct source hashes for one element kind, with element counts; the
/// entries past the returned length stay empty.
pub fn sources_for(catalog: &PackedCatalog, kind: ElementKind) -> (r: ([(u32, u32); 8], usize))
    requires
        catalog_valid(catalog.bytes()),
    ensures
        r.1 <= MAX_SOURCES,
        r.0@.subrange(0, r.1 as int) == sources_of(catalog.bytes(), kind),
        forall|j: int| r.1 <= j < 8 ==> r.0@[j] == (0u32, 0u32),
{
    let ghost s = catalog.bytes();
    let mut sources = [(0u32, 0u32); 8];
    let mut len: usize = 0;
    let count = catalog.len_for_kind(kind);
    let mut index: usize = 0;
    while index < count
        invariant
            catalog_valid(s),
            s == catalog.bytes(),
            count == kind_count(s, kind),
            index <= count,
            len <= MAX_SOURCES,
            sources@.len() == 8,
            sources@.subrange(0, len as int) == tally(s, kind, index as nat),
            forall|j: int| len <= j < 8 ==> sources@[j] == (0u32, 0u32),
        decreases count - index,
    {
        proof {
            lemma_tally(s, kind, index as nat);
        }
        let ghost acc = sources@.subrange(0, len as int);
        match kind_element(catalog, kind, index) {
            None => {},
            Some(element) => {
                let x = element.source_hash;
                let mut j: usize = 0;
                let mut found = false;
                while j < len && !found
                    invariant
                        j <= len,
                        len <= 8,
                        sources@.len() == 8,
                        acc == sources@.subrange(0, len as int),
                        !found ==> find_source(acc, x, 0) == find_source(acc, x, j as int),
                        found ==> j < len && find_source(acc, x, 0) == Some(j as int),
                    decreases len - j + if found { 0int } else { 1int },
                {
                    if sources[j].0 == x {
                        found = true;
                    } else {
                        j = j + 1;
                    }
                }
                if found {
                    assert(acc[j as int].1 <= index);
                    let c = sources[j].1;
                    sources[j] = (x, c + 1);
                    assert(sources@.subrange(0, len as int) == acc.update(j as int, (x, (c + 1) as u32)));
                } else {
                    assert(find_source(acc, x, 0) is None);
                    if len < MAX_SOURCES {
                        sources[len] = (x, 1);
                        len = len + 1;
                        assert(sources@.subrange(0, len as int) == acc.push((x, 1u32)));
                    }
                }
            },
        }
        index = index + 1;
    }
    (sources, len)
}

/// The sources of a tally that also supply a snare and a hat, in order.
pub open spec fn complete_families(s: Seq<u8>, t: Seq<(u32, u32)>) -> Seq<u32>
    decreases t.len(),
{
    if t.len() == 0 {
        seq![]
    } else {
        let rest = complete_families(s, t.drop_last());
        let src = t.last().0;
        if has_source_spec(s, ElementKind::Snare, src) && has_source_spec(s, ElementKind::Hat, src) {
            rest.push(src)
        } else {
            rest
        }
    }
}

/// The drum family a seed casts: a seeded pick among the kick sources that
/// have all three voices, or the first kick source (0 when there is none).
pub open spec fn drum_source_of(s: Seq<u8>, seed: u64) -> u32 {
    let kicks = sources_of(s, ElementKind::Kick);
    let complete = complete_families(s, kicks);
    if complete.len() == 0 {
        if kicks.len() > 0 {
            kicks[0].0
        } else {
            0
        }
    } else {
        complete[(spec_event_hash(seed, 0xd505, 0) % (complete.len() as u64)) as int]
    }
}

proof fn lemma_complete_families(s: Seq<u8>, t: Seq<(u32, u32)>)
    ensures
        complete_families(s, t).len() <= t.len(),
        forall|i: int| 0 <= i < complete_families(s, t).len() ==> {
            &&& has_source_spec(s, ElementKind::Snare, #[trigger] complete_families(s, t)[i])
            &&& has_source_spec(s, ElementKind::Hat, complete_families(s, t)[i])
            &&& exists|j: int| 0 <= j < t.len() && t[j].0 == complete_families(s, t)[i]
        },
    decreases t.len(),
{
    if t.len() > 0 {
        let rest = t.drop_last();
        lemma_complete_families(s, rest);
        let c = complete_families(s, t);
        assert forall|i: int| 0 <= i < c.len() implies {
            &&& has_source_spec(s, ElementKind::Snare, #[trigger] c[i])
            &&& has_source_spec(s, ElementKind::Hat, c[i])
            &&& exists|j: int| 0 <= j < t.len() && t[j].0 == c[i]
        } by {
            if i < complete_families(s, rest).len() {
                let j = choose|j: int| 0 <= j < rest.len() && rest[j].0 == complete_families(s, rest)[i];
                assert(t[j].0 == c[i]);
            } else {
                assert(t[t.len() - 1].0 == c[i]);
            }
        }
    }
}

/// Pick a drum family that has all three voices, seeded among candidates.
pub fn cast_drum_source(catalog: &PackedCatalog, seed: u64) -> (r: u32)
    requires
        catalog_valid(catalog.bytes()),
    ensures
        r == drum_source_of(catalog.bytes(), seed),
{
    let ghost s = catalog.bytes();
    let (kicks, kick_len) = sources_for(catalog, ElementKind::Kick);
    let ghost t = kicks@.subrange(0, kick_len as int);
    let mut complete = [0u32; 8];
    let mut complete_len: usize = 0;
    let mut i: usize = 0;
    while i < kick_len
        invariant
            catalog_valid(s),
            s == catalog.bytes(),
            kick_len <= 8,
            t == kicks@.subrange(0, kick_len as int),
            i <= kick_len,
            complete@.len() == 8,
            complete_len <= i,
            complete@.subrange(0, complete_len as int) == complete_families(s, t.subrange(0, i as int)),
        decreases kick_len - i,
    {
        let source = kicks[i].0;
        let has_snare = has_source(catalog, ElementKind::Snare, source);
        let has_hat = has_source(catalog, ElementKind::Hat, source);
        assert(t.subrange(0, i + 1).drop_last() == t.subrange(0, i as int));
        if has_snare && has_hat && complete_len < MAX_SOURCES {
            complete[complete_len] = source;
            complete_len = complete_len + 1;
        }
        i = i + 1;
    }
    assert(t.subrange(0, kick_len as int) == t);
    if complete_len == 0 {
        return kicks[0].0;
    }
    let h = event_hash(seed, 0xd505, 0);
    complete[(h % complete_len as u64) as usize]
}

/// A tally entry's casting score: its element count, with a seeded tie-break.
pub open spec fn tonal_score(seed: u64, entry: (u32, u32)) -> int {
    entry.1 as int * 16 + (spec_event_hash(seed, entry.0 as u64, 0) % 16) as int
}

/// The best-scoring of the first `n` entries (the first of equals) and its
/// score; before any entry, the first with a score of 0.
pub open spec fn best_of(seed: u64, t: Seq<(u32, u32)>, n: nat) -> ((u32, u32), int)
    decreases n,
{
    if n == 0 {
        (t[0], 0)
    } else {
        let prev = best_of(seed, t, (n - 1) as nat);
        let c = tonal_score(seed, t[n - 1]);
        if c > prev.1 {
            (t[n - 1], c)
        } else {
            prev
        }
    }
}

/// The tonal source a seed casts for a kind: the best-covered source, with a
/// seeded tie-break (0 when the kind has no source).
pub open spec fn tonal_source_of(s: Seq<u8>, k: ElementKind, seed: u64) -> u32 {
    let t = sources_of(s, k);
    if t.len() == 0 {
        0
    } else {
        best_of(seed, t, t.len()).0.0
    }
}

/// Pick the best-covered tonal source; seeded tie-break between equals.
/// Coverage weighs element count, so a lane keeps one consistent instrument
/// voice with the most root choices available for small repitch ratios.
pub fn cast_tonal_source(catalog: &PackedCatalog, kind: ElementKind, seed: u64) -> (r: u32)
    requires
        catalog_valid(catalog.bytes()),
    ensures
        r == tonal_source_of(catalog.bytes(), kind, seed),
{
    let ghost s = catalog.bytes();
    let (sources, len) = sources_for(catalog, kind);
    let ghost t = sources@.subrange(0, len as int);
    proof {
        lemma_tally(s, kind, kind_count(s, kind) as nat);
    }
    if len == 0 {
        return 0;
    }
    let mut best = sources[0];
    let mut best_score: u64 = 0;
    let mut i: usize = 0;
    while i < len
        invariant
            len <= 8,
            0 < len,
            t == sources@.subrange(0, len as int),
            forall|j: int| 0 <= j < t.len() ==> #[trigger] t[j].1 <= 0xffff,
            i <= len,
            best_of(seed, t, i as nat) == (best, best_score as int),
        decreases len - i,
    {
        let (source, count) = sources[i];
        assert(t[i as int].1 <= 0xffff);
        let score = (count as u64) * 16 + event_hash(seed, source as u64, 0) % 16;
        if score > best_score {
            best = (source, count);
            best_score = score;
        }
        i = i + 1;
    }
    best.0
}

/// The session's symbolic identity, shared by every box in the mesh.
#[derive(Clone, Copy, Debug)]
pub struct Session {
    pub seed: u64,
    pub progression: Progression,
    pub signature: GrooveSignature,
    /// Source performance supplying kick, snare, and hat one-shots.
    pub drum_source: u32,
    /// Source performance supplying bass one-shots.
    pub bass_source: u32,
    /// Source performance supplying keys one-shots.
    pub keys_source: u32,
    /// Source performance supplying lead one-shots.
    pub lead_source: u32,
}

/// The session a seed casts from a catalogue.
pub open spec fn session_is(r: Session, seed: u64, s: Seq<u8>) -> bool {
    &&& r.seed == seed
    &&& generated_from(r.progression, seed)
    &&& signature_is(r.signature, signature_index(seed))
    &&& r.drum_source == drum_source_of(s, seed)
    &&& r.bass_source == tonal_source_of(s, ElementKind::BassNote, seed ^ 0xba55)
    &&& r.keys_source == tonal_source_of(s, ElementKind::KeysNote, seed ^ 0x4b45)
    &&& r.lead_source == tonal_source_of(s, ElementKind::LeadNote, seed ^ 0x1ead)
}

impl Session {
    pub fn new(seed: u64, catalog: &PackedCatalog) -> (r: Self)
        requires
            catalog_valid(catalog.bytes()),
        ensures
            session_is(r, seed, catalog.bytes()),
    {
        Session {
            seed,
            progression: Progression::generate(seed),
            signature: signature_for(seed),
            drum_source: cast_drum_source(catalog, seed),
            bass_source: cast_tonal_source(catalog, ElementKind::BassNote, seed ^ 0xba55),
            keys_source: cast_tonal_source(catalog, ElementKind::KeysNote, seed ^ 0x4b45),
            lead_source: cast_tonal_source(catalog, ElementKind::LeadNote, seed ^ 0x1ead),
        }
    }
}

/// Whether any element of the kind comes from the source.
pub fn has_source(catalog: &PackedCatalog, kind: ElementKind, source: u32) -> (r: bool)
    requires
        catalog_valid(catalog.bytes()),
    ensures
        r == has_source_spec(catalog.bytes(), kind, source),
{
    let ghost s = catalog.bytes();
    let count = catalog.len_for_kind(kind);
    let mut index: usize = 0;
    while index < count
        invariant
            catalog_valid(s),
            s == catalog.bytes(),
            count == kind_count(s, kind),
            index <= count,
            forall|i: int| 0 <= i < index ==> source_at(s, kind, i) != Some(source),
        decreases count - index,
    {
        if let Some(element) = kind_element(catalog, kind, index) {
            if element.source_hash == source {
                assert(source_at(s, kind, index as int) == Some(source));
                return true;
            }
        }
        index = index + 1;
    }
    false
}

/// A cast drum family is complete whenever the catalogue holds one: when
/// some kick source also supplies a snare and a hat, the family a seed casts
/// supplies all three voices.
pub proof fn lemma_drum_family_complete(s: Seq<u8>, seed: u64)
    requires
        complete_families(s, sources_of(s, ElementKind::Kick)).len() > 0,
    ensures
        has_source_spec(s, ElementKind::Kick, drum_source_of(s, seed)),
        has_source_spec(s, ElementKind::Snare, drum_source_of(s, seed)),
        has_source_spec(s, ElementKind::Hat, drum_source_of(s, seed)),
{
    let kicks = sources_of(s, ElementKind::Kick);
    let complete = complete_families(s, kicks);
    lemma_complete_families(s, kicks);
    lemma_tally(s, ElementKind::Kick, kind_count(s, ElementKind::Kick) as nat);
    let i = (spec_event_hash(seed, 0xd505, 0) % (complete.len() as u64)) as int;
    assert(0 <= i < complete.len());
    assert(has_source_spec(s, ElementKind::Snare, complete[i]));
    let j = choose|j: int| 0 <= j < kicks.len() && kicks[j].0 == complete[i];
    assert(has_source_spec(s, ElementKind::Kick, kicks[j].0));
}

/// A cast tonal source, when the kind has any source, is one that some
/// element of the kind comes from.
pub proof fn lemma_tonal_source_present(s: Seq<u8>, k: ElementKind, seed: u64)
    requires
        sources_of(s, k).len() > 0,
    ensures
        has_source_spec(s, k, tonal_source_of(s, k, seed)),
{
    let t = sources_of(s, k);
    lemma_tally(s, k, kind_count(s, k) as nat);
    lemma_best_of_in(seed, t, t.len());
    let j = choose|j: int| 0 <= j < t.len() && t[j] == best_of(seed, t, t.len()).0;
    assert(has_source_spec(s, k, t[j].0));
}

proof fn lemma_best_of_in(seed: u64, t: Seq<(u32, u32)>, n: nat)
    requires
        0 < t.len(),
        n <= t.len(),
    ensures
        exists|j: int| 0 <= j < t.len() && t[j] == best_of(seed, t, n).0,
    decreases n,
{
    if n == 0 {
        assert(t[0] == best_of(seed, t, n).0);
    } else {
        lemma_best_of_in(seed, t, (n - 1) as nat);
        if tonal_score(seed, t[n - 1]) > best_of(seed, t, (n - 1) as nat).1 {
            assert(t[n - 1] == best_of(seed, t, n).0);
        }
    }
}

} // verus!
