//! Bind every pitch the session can emit to a concrete root-tagged one-shot.
//!
//! Resolution is a bounded metadata scan that runs once at start or seed
//! change. After it, the render loop only indexes fixed tables: no catalogue
//! search, no allocation. Repitch distances stay small because each lane's
//! register is chosen around the roots its cast source actually recorded.
use crate::arith::{clamp, clamp_i32};
use crate::music::catalog::{
    catalog_valid, chosen_index, element_is, element_present, kind_entry, lemma_valid_catalog_readable,
    rd16, rd32, record_at, ElementKind, PackedCatalog, PackedElement,
};
use crate::arith::rem_euclid_i32;
use crate::music::progression::{scale_pitch, Progression};
use crate::music::score::session::{kind_count, kind_element, kind_index, source_at, Session};
use crate::music::theory::{
    extension_of, lemma_place_fits, lemma_place_near_center, place_near, placed, seventh_of, spec_place,
    third_of, Chord,
};
use crate::music::score::{event_hash, spec_event_hash};
use vstd::prelude::*;

verus! {

/// Chord slots a progression holds.
pub const CHORD_SLOTS: usize = 4;

/// Shell voices per chord: third, seventh, extension.
pub const SHELL_VOICES: usize = 3;

/// Lead bind table span: scale degrees `-2..=9` around the tonic.
pub const LEAD_DEGREES: usize = 12;

/// Lowest bass target pitch; the table covers this MIDI note plus 11 above.
pub const BASS_FLOOR: u8 = 23;

/// The root semitone filed for the kind's `i`-th element, if it has one.
pub open spec fn root_at(s: Seq<u8>, k: ElementKind, i: int) -> Option<u8> {
    let b = s[record_at(kind_index(s, k, i)) + 16];
    if b < 128 {
        Some(b)
    } else {
        None
    }
}

/// The energy filed for the kind's `i`-th element.
pub open spec fn energy_at(s: Seq<u8>, k: ElementKind, i: int) -> u8 {
    s[record_at(kind_index(s, k, i)) + 17]
}

/// The audio length, in bytes, of the kind's `i`-th element.
pub open spec fn length_at(s: Seq<u8>, k: ElementKind, i: int) -> u32 {
    rd32(s, record_at(kind_index(s, k, i)) + 24)
}

/// The kind's `i`-th element comes from the source.
pub open spec fn from_source(s: Seq<u8>, k: ElementKind, src: u32, i: int) -> bool {
    source_at(s, k, i) == Some(src)
}

/// `e` is the kind's `i`-th element.
pub open spec fn is_kind_element(e: PackedElement, s: Seq<u8>, k: ElementKind, i: int) -> bool {
    &&& 0 <= i < kind_count(s, k)
    &&& element_present(s, kind_index(s, k, i))
    &&& element_is(e, s, kind_index(s, k, i))
}

/// The lowest and highest roots among the source's first `n` elements of the
/// kind, starting from an empty span (`i32::MAX`, `i32::MIN`).
pub open spec fn span_upto(s: Seq<u8>, k: ElementKind, src: u32, n: nat) -> (int, int)
    decreases n,
{
    if n == 0 {
        (i32::MAX as int, i32::MIN as int)
    } else {
        let p = span_upto(s, k, src, (n - 1) as nat);
        if from_source(s, k, src, n - 1) && root_at(s, k, n - 1) is Some {
            let r = root_at(s, k, n - 1).unwrap() as int;
            (if r < p.0 { r } else { p.0 }, if r > p.1 { r } else { p.1 })
        } else {
            p
        }
    }
}

/// The lowest and highest tagged roots for a kind within a source; 48 to 60
/// when the source has none.
pub open spec fn root_span_of(s: Seq<u8>, k: ElementKind, src: u32) -> (int, int) {
    let p = span_upto(s, k, src, kind_count(s, k) as nat);
    if p.0 > p.1 {
        (48, 60)
    } else {
        p
    }
}

proof fn lemma_span_bounds(s: Seq<u8>, k: ElementKind, src: u32, n: nat)
    ensures
        span_upto(s, k, src, n).0 <= span_upto(s, k, src, n).1 ==> 0 <= span_upto(s, k, src, n).0 && span_upto(
            s,
            k,
            src,
            n,
        ).1 < 128,
        span_upto(s, k, src, n).0 > span_upto(s, k, src, n).1 ==> span_upto(s, k, src, n) == (
            i32::MAX as int,
            i32::MIN as int,
        ),
    decreases n,
{
    if n > 0 {
        lemma_span_bounds(s, k, src, (n - 1) as nat);
    }
}

/// The span a root span ends with lies in the MIDI range.
pub proof fn lemma_root_span_in_range(s: Seq<u8>, k: ElementKind, src: u32)
    ensures
        0 <= root_span_of(s, k, src).0 <= root_span_of(s, k, src).1 < 128,
{
    lemma_span_bounds(s, k, src, kind_count(s, k) as nat);
}

/// Lowest and highest tagged roots for a kind within a source.
pub fn root_span(catalog: &PackedCatalog, kind: ElementKind, source: u32) -> (r: (i32, i32))
    requires
        catalog_valid(catalog.bytes()),
    ensures
        r.0 as int == root_span_of(catalog.bytes(), kind, source).0,
        r.1 as int == root_span_of(catalog.bytes(), kind, source).1,
{
    let ghost s = catalog.bytes();
    let mut low: i32 = i32::MAX;
    let mut high: i32 = i32::MIN;
    let count = catalog.len_for_kind(kind);
    let mut index: usize = 0;
    while index < count
        invariant
            catalog_valid(s),
            s == catalog.bytes(),
            count == kind_count(s, kind),
            index <= count,
            (low as int, high as int) == span_upto(s, kind, source, index as nat),
        decreases count - index,
    {
        if let Some(element) = kind_element(catalog, kind, index) {
            if element.source_hash == source {
                if let Some(root) = element.root_semitone {
                    let r = root as i32;
                    if r < low {
                        low = r;
                    }
                    if r > high {
                        high = r;
                    }
                }
            }
        }
        index = index + 1;
    }
    if low > high {
        (48, 60)
    } else {
        (low, high)
    }
}

/// The first of the source's longest elements among the kind's first `n`.
pub open spec fn longest_upto(s: Seq<u8>, k: ElementKind, src: u32, n: nat) -> Option<int>
    decreases n,
{
    if n == 0 {
        None
    } else {
        let p = longest_upto(s, k, src, (n - 1) as nat);
        if from_source(s, k, src, n - 1) && (p is None || length_at(s, k, n - 1) > length_at(s, k, p.unwrap())) {
            Some(n - 1)
        } else {
            p
        }
    }
}

proof fn lemma_longest_upto(s: Seq<u8>, k: ElementKind, src: u32, n: nat)
    ensures
        longest_upto(s, k, src, n) matches Some(i) ==> 0 <= i < n && from_source(s, k, src, i),
    decreases n,
{
    if n > 0 {
        lemma_longest_upto(s, k, src, (n - 1) as nat);
    }
}

/// The longest element within a source: the closest thing to an open hat.
pub fn longest(catalog: &PackedCatalog, kind: ElementKind, source: u32) -> (r: Option<PackedElement>)
    requires
        catalog_valid(catalog.bytes()),
    ensures
        r is Some <==> longest_upto(catalog.bytes(), kind, source, kind_count(catalog.bytes(), kind) as nat) is Some,
        r matches Some(e) ==> is_kind_element(
            e,
            catalog.bytes(),
            kind,
            longest_upto(catalog.bytes(), kind, source, kind_count(catalog.bytes(), kind) as nat).unwrap(),
        ),
{
    let ghost s = catalog.bytes();
    let mut best: Option<PackedElement> = None;
    let ghost mut best_ix: int = 0;
    let count = catalog.len_for_kind(kind);
    let mut index: usize = 0;
    while index < count
        invariant
            catalog_valid(s),
            s == catalog.bytes(),
            count == kind_count(s, kind),
            index <= count,
            best is Some <==> longest_upto(s, kind, source, index as nat) is Some,
            best is Some ==> longest_upto(s, kind, source, index as nat) == Some(best_ix),
            best matches Some(e) ==> is_kind_element(e, s, kind, best_ix),
        decreases count - index,
    {
        proof {
            lemma_longest_upto(s, kind, source, index as nat);
        }
        if let Some(element) = kind_element(catalog, kind, index) {
            if element.source_hash == source {
                let replace = match best {
                    None => true,
                    Some(current) => element.sample.len() > current.sample.len(),
                };
                if replace {
                    best = Some(element);
                    proof {
                        best_ix = index as int;
                    }
                }
            }
        }
        index = index + 1;
    }
    best
}

/// The kind's `j`-th element sorts before its `i`-th: lower energy, or equal
/// energy and earlier in the catalogue.
pub open spec fn sorts_before(s: Seq<u8>, k: ElementKind, j: int, i: int) -> bool {
    energy_at(s, k, j) < energy_at(s, k, i) || (energy_at(s, k, j) == energy_at(s, k, i) && j < i)
}

/// How many of the kind's first `n` elements come from the source.
pub open spec fn count_from(s: Seq<u8>, k: ElementKind, src: u32, n: nat) -> nat
    decreases n,
{
    if n == 0 {
        0
    } else {
        count_from(s, k, src, (n - 1) as nat) + if from_source(s, k, src, n - 1) {
            1nat
        } else {
            0nat
        }
    }
}

/// How many of the source's elements among the kind's first `n` sort before
/// the `i`-th.
pub open spec fn below_upto(s: Seq<u8>, k: ElementKind, src: u32, i: int, n: nat) -> nat
    decreases n,
{
    if n == 0 {
        0
    } else {
        below_upto(s, k, src, i, (n - 1) as nat) + if from_source(s, k, src, n - 1) && sorts_before(
            s,
            k,
            n - 1,
            i,
        ) {
            1nat
        } else {
            0nat
        }
    }
}

/// The energy rank asked for as `rank` of `of`, scaled onto `count` elements.
pub open spec fn target_rank(rank: int, of: int, count: int) -> int {
    let d = if of <= 1 {
        1
    } else {
        of - 1
    };
    let t = rank * (count - 1) / d;
    if t < count - 1 {
        t
    } else {
        count - 1
    }
}

/// The first of the source's elements, among the kind's first `n`, with
/// exactly `t` of the source's `total` elements sorting before it.
pub open spec fn rank_upto(s: Seq<u8>, k: ElementKind, src: u32, t: int, total: nat, n: nat) -> Option<int>
    decreases n,
{
    if n == 0 {
        None
    } else {
        let p = rank_upto(s, k, src, t, total, (n - 1) as nat);
        if p is Some {
            p
        } else if from_source(s, k, src, n - 1) && below_upto(s, k, src, n - 1, total) == t {
            Some(n - 1)
        } else {
            None
        }
    }
}

/// The index of the source's element with energy rank `rank` of `of`.
pub open spec fn nth_index(s: Seq<u8>, k: ElementKind, src: u32, rank: int, of: int) -> Option<int> {
    let total = kind_count(s, k) as nat;
    rank_upto(s, k, src, target_rank(rank, of, count_from(s, k, src, total) as int), total, total)
}

pub proof fn lemma_count_from(s: Seq<u8>, k: ElementKind, src: u32, n: nat)
    ensures
        count_from(s, k, src, n) <= n,
    decreases n,
{
    if n > 0 {
        lemma_count_from(s, k, src, (n - 1) as nat);
    }
}

proof fn lemma_rank_upto(s: Seq<u8>, k: ElementKind, src: u32, t: int, total: nat, n: nat)
    ensures
        rank_upto(s, k, src, t, total, n) matches Some(i) ==> {
            &&& 0 <= i < n
            &&& from_source(s, k, src, i)
            &&& below_upto(s, k, src, i, total) == t
        },
    decreases n,
{
    if n > 0 {
        lemma_rank_upto(s, k, src, t, total, (n - 1) as nat);
    }
}

proof fn lemma_rank_upto_stays(s: Seq<u8>, k: ElementKind, src: u32, t: int, total: nat, n: nat, m: nat)
    requires
        n <= m,
        rank_upto(s, k, src, t, total, n) is Some,
    ensures
        rank_upto(s, k, src, t, total, m) == rank_upto(s, k, src, t, total, n),
    decreases m - n,
{
    if n < m {
        lemma_rank_upto_stays(s, k, src, t, total, n, (m - 1) as nat);
    }
}

/// Counting below a later-sorting element never counts fewer.
proof fn lemma_below_monotone(s: Seq<u8>, k: ElementKind, src: u32, i: int, j: int, n: nat)
    requires
        j == i || sorts_before(s, k, j, i),
    ensures
        below_upto(s, k, src, j, n) <= below_upto(s, k, src, i, n),
    decreases n,
{
    if n > 0 {
        lemma_below_monotone(s, k, src, i, j, (n - 1) as nat);
    }
}

/// An element of the source sorting before another has a smaller count.
proof fn lemma_below_strict(s: Seq<u8>, k: ElementKind, src: u32, i: int, j: int, n: nat)
    requires
        sorts_before(s, k, j, i),
        from_source(s, k, src, j),
        0 <= j < n,
    ensures
        below_upto(s, k, src, j, n) < below_upto(s, k, src, i, n),
    decreases n,
{
    if j < n - 1 {
        lemma_below_strict(s, k, src, i, j, (n - 1) as nat);
    } else {
        lemma_below_monotone(s, k, src, i, j, (n - 1) as nat);
    }
}

/// Energy ranks keep energy order: an element found at a rank never has
/// more energy than one found at a higher rank.
pub proof fn lemma_rank_orders_energy(s: Seq<u8>, k: ElementKind, src: u32, t1: int, t2: int)
    requires
        t1 <= t2,
        rank_upto(s, k, src, t1, kind_count(s, k) as nat, kind_count(s, k) as nat) is Some,
        rank_upto(s, k, src, t2, kind_count(s, k) as nat, kind_count(s, k) as nat) is Some,
    ensures
        energy_at(s, k, rank_upto(s, k, src, t1, kind_count(s, k) as nat, kind_count(s, k) as nat).unwrap())
            <= energy_at(s, k, rank_upto(s, k, src, t2, kind_count(s, k) as nat, kind_count(s, k) as nat).unwrap()),
{
    let total = kind_count(s, k) as nat;
    let i1 = rank_upto(s, k, src, t1, total, total).unwrap();
    let i2 = rank_upto(s, k, src, t2, total, total).unwrap();
    lemma_rank_upto(s, k, src, t1, total, total);
    lemma_rank_upto(s, k, src, t2, total, total);
    if i1 != i2 && sorts_before(s, k, i2, i1) {
        lemma_below_strict(s, k, src, i1, i2, total);
    }
}

/// A lower energy rank never picks a louder element: asking for rank `r1`
/// of `of` gives an element with no more energy than asking for `r2 >= r1`,
/// whenever both are found.
pub proof fn lemma_lower_rank_no_louder(s: Seq<u8>, k: ElementKind, src: u32, r1: int, r2: int, of: int)
    requires
        0 <= r1 <= r2,
        nth_index(s, k, src, r1, of) is Some,
        nth_index(s, k, src, r2, of) is Some,
    ensures
        energy_at(s, k, nth_index(s, k, src, r1, of).unwrap()) <= energy_at(
            s,
            k,
            nth_index(s, k, src, r2, of).unwrap(),
        ),
{
    let total = kind_count(s, k) as nat;
    let c = count_from(s, k, src, total) as int;
    let d = if of <= 1 {
        1
    } else {
        of - 1
    };
    if c >= 1 {
        assert(r1 * (c - 1) <= r2 * (c - 1)) by (nonlinear_arith)
            requires
                0 <= r1 <= r2,
                c >= 1,
        ;
        assert(r1 * (c - 1) / d <= r2 * (c - 1) / d) by (nonlinear_arith)
            requires
                r1 * (c - 1) <= r2 * (c - 1),
                d >= 1,
        ;
    } else {
        lemma_rank_upto(s, k, src, target_rank(r1, of, c), total, total);
        lemma_count_zero(s, k, src, total);
    }
    lemma_rank_orders_energy(s, k, src, target_rank(r1, of, c), target_rank(r2, of, c));
}

proof fn lemma_count_zero(s: Seq<u8>, k: ElementKind, src: u32, n: nat)
    ensures
        count_from(s, k, src, n) == 0 ==> forall|i: int| 0 <= i < n ==> !from_source(s, k, src, i),
    decreases n,
{
    if n > 0 {
        lemma_count_zero(s, k, src, (n - 1) as nat);
    }
}

/// The source's element of energy rank `rank` of `of` (ties broken by
/// catalogue order); with no element of the source, the seed's pick of the
/// kind from any source.
pub fn nth_by_energy(
    catalog: &PackedCatalog,
    kind: ElementKind,
    source: u32,
    rank: usize,
    of: usize,
    seed: u64,
) -> (r: Option<PackedElement>)
    requires
        catalog_valid(catalog.bytes()),
        rank * (count_from(catalog.bytes(), kind, source, kind_count(catalog.bytes(), kind) as nat) - 1)
            <= usize::MAX,
    ensures
        ({
            let s = catalog.bytes();
            let total = kind_count(s, kind) as nat;
            if count_from(s, kind, source, total) > 0 {
                &&& (r is Some <==> nth_index(s, kind, source, rank as int, of as int) is Some)
                &&& (r matches Some(e) ==> is_kind_element(
                    e,
                    s,
                    kind,
                    nth_index(s, kind, source, rank as int, of as int).unwrap(),
                ))
            } else if total == 0 {
                r is None
            } else {
                &&& (r is Some <==> element_present(s, chosen_index(s, kind, seed)))
                &&& (r matches Some(e) ==> element_is(e, s, chosen_index(s, kind, seed)))
            }
        }),
{
    let ghost s = catalog.bytes();
    let ghost total = kind_count(s, kind) as nat;
    let count_k = catalog.len_for_kind(kind);
    let mut count: usize = 0;
    let mut index: usize = 0;
    while index < count_k
        invariant
            catalog_valid(s),
            s == catalog.bytes(),
            count_k == kind_count(s, kind),
            index <= count_k,
            count == count_from(s, kind, source, index as nat),
            count <= index,
        decreases count_k - index,
    {
        if let Some(element) = kind_element(catalog, kind, index) {
            if element.source_hash == source {
                count = count + 1;
            }
        }
        index = index + 1;
    }
    if count == 0 {
        proof {
            if total > 0 {
                lemma_valid_catalog_readable(s, chosen_index(s, kind, seed));
            }
        }
        return catalog.select(kind, seed);
    }
    let m = if of < 1 {
        1
    } else {
        of
    };
    let d = if m - 1 < 1 {
        1
    } else {
        m - 1
    };
    let t = rank * (count - 1) / d;
    let target = if t < count - 1 {
        t
    } else {
        count - 1
    };
    assert(target == target_rank(rank as int, of as int, count as int));
    let mut index: usize = 0;
    while index < count_k
        invariant
            catalog_valid(s),
            s == catalog.bytes(),
            count_k == kind_count(s, kind),
            total == kind_count(s, kind) as nat,
            count as nat == count_from(s, kind, source, total),
            count > 0,
            target == target_rank(rank as int, of as int, count as int),
            index <= count_k,
            rank_upto(s, kind, source, target as int, total, index as nat) is None,
        decreases count_k - index,
    {
        if let Some(element) = kind_element(catalog, kind, index) {
            if element.source_hash == source {
                let mut below: usize = 0;
                let mut other: usize = 0;
                while other < count_k
                    invariant
                        catalog_valid(s),
                        s == catalog.bytes(),
                        count_k == kind_count(s, kind),
                        other <= count_k,
                        index < count_k,
                        element.energy == energy_at(s, kind, index as int),
                        below == below_upto(s, kind, source, index as int, other as nat),
                        below <= other,
                    decreases count_k - other,
                {
                    if let Some(o) = kind_element(catalog, kind, other) {
                        if o.source_hash == source {
                            if o.energy < element.energy || (o.energy == element.energy && other < index) {
                                below = below + 1;
                            }
                        }
                    }
                    other = other + 1;
                }
                if below == target {
                    proof {
                        lemma_rank_upto_stays(s, kind, source, target as int, total, (index + 1) as nat, total);
                    }
                    return Some(element);
                }
            }
        }
        index = index + 1;
    }
    None
}

/// The kind's `i`-th element may voice a pitch: it exists, comes from the
/// source when one is required, and has a root.
pub open spec fn candidate(s: Seq<u8>, k: ElementKind, restrict: Option<u32>, i: int) -> bool {
    &&& source_at(s, k, i) is Some
    &&& (restrict matches Some(src) ==> source_at(s, k, i) == Some(src))
    &&& root_at(s, k, i) is Some
}

/// The cost of voicing `target` with the kind's `i`-th element: sixteen per
/// semitone of repitch, plus a seeded tie-break below sixteen.
pub open spec fn bind_cost(s: Seq<u8>, k: ElementKind, target: u8, seed: u64, i: int) -> int {
    let root = root_at(s, k, i).unwrap() as int;
    let d = if root >= target {
        root - target
    } else {
        target - root
    };
    d * 16 + (spec_event_hash(seed, i as u64, 0) % 16) as int
}

/// The cheapest candidate among the kind's first `n` elements (the first of
/// equals) and its cost; before any, none at cost `u64::MAX`.
pub open spec fn nearest_upto(
    s: Seq<u8>,
    k: ElementKind,
    restrict: Option<u32>,
    target: u8,
    seed: u64,
    n: nat,
) -> (Option<int>, int)
    decreases n,
{
    if n == 0 {
        (None, u64::MAX as int)
    } else {
        let p = nearest_upto(s, k, restrict, target, seed, (n - 1) as nat);
        if candidate(s, k, restrict, n - 1) && bind_cost(s, k, target, seed, n - 1) < p.1 {
            (Some(n - 1), bind_cost(s, k, target, seed, n - 1))
        } else {
            p
        }
    }
}

/// The element a pitch binds to: the cheapest of the source's rooted
/// elements, or of any source's when the source has none.
pub open spec fn nearest_pick(s: Seq<u8>, k: ElementKind, src: u32, target: u8, seed: u64) -> Option<int> {
    let total = kind_count(s, k) as nat;
    let own = nearest_upto(s, k, Some(src), target, seed, total).0;
    if own is Some {
        own
    } else {
        nearest_upto(s, k, None, target, seed, total).0
    }
}

proof fn lemma_nearest_upto(s: Seq<u8>, k: ElementKind, restrict: Option<u32>, target: u8, seed: u64, n: nat)
    ensures
        nearest_upto(s, k, restrict, target, seed, n).0 matches Some(i) ==> {
            &&& 0 <= i < n
            &&& candidate(s, k, restrict, i)
            &&& nearest_upto(s, k, restrict, target, seed, n).1 == bind_cost(s, k, target, seed, i)
        },
        nearest_upto(s, k, restrict, target, seed, n).0 is None ==> {
            &&& nearest_upto(s, k, restrict, target, seed, n).1 == u64::MAX as int
            &&& forall|i: int| 0 <= i < n ==> !candidate(s, k, restrict, i)
        },
    decreases n,
{
    if n > 0 {
        lemma_nearest_upto(s, k, restrict, target, seed, (n - 1) as nat);
        if candidate(s, k, restrict, n - 1) {
            assert(bind_cost(s, k, target, seed, n - 1) < u64::MAX);
        }
    }
}

/// Binding keeps a lane on its cast source: when the source recorded any
/// rooted element of the kind, every pitch binds to one of the source's.
pub proof fn lemma_bind_keeps_source(s: Seq<u8>, k: ElementKind, src: u32, target: u8, seed: u64, i: int)
    requires
        0 <= i < kind_count(s, k),
        source_at(s, k, i) == Some(src),
        root_at(s, k, i) is Some,
    ensures
        nearest_pick(s, k, src, target, seed) matches Some(j) && source_at(s, k, j) == Some(src),
{
    let total = kind_count(s, k) as nat;
    lemma_nearest_upto(s, k, Some(src), target, seed, total);
    assert(candidate(s, k, Some(src), i));
}

/// The cheapest candidate element for `target`.
fn nearest(catalog: &PackedCatalog, kind: ElementKind, restrict: Option<u32>, target: u8, seed: u64) -> (r: Option<
    PackedElement,
>)
    requires
        catalog_valid(catalog.bytes()),
    ensures
        ({
            let s = catalog.bytes();
            let pick = nearest_upto(s, kind, restrict, target, seed, kind_count(s, kind) as nat).0;
            &&& (r is Some <==> pick is Some)
            &&& (r matches Some(e) ==> is_kind_element(e, s, kind, pick.unwrap()))
        }),
{
    let ghost s = catalog.bytes();
    let mut best: Option<PackedElement> = None;
    let mut best_cost: u64 = u64::MAX;
    let ghost mut best_ix: int = 0;
    let count = catalog.len_for_kind(kind);
    let mut index: usize = 0;
    while index < count
        invariant
            catalog_valid(s),
            s == catalog.bytes(),
            count == kind_count(s, kind),
            index <= count,
            nearest_upto(s, kind, restrict, target, seed, index as nat).1 == best_cost as int,
            best is Some <==> nearest_upto(s, kind, restrict, target, seed, index as nat).0 is Some,
            best is Some ==> nearest_upto(s, kind, restrict, target, seed, index as nat).0 == Some(best_ix),
            best matches Some(e) ==> is_kind_element(e, s, kind, best_ix),
        decreases count - index,
    {
        if let Some(element) = kind_element(catalog, kind, index) {
            let allowed = match restrict {
                Some(src) => element.source_hash == src,
                None => true,
            };
            if allowed {
                if let Some(root) = element.root_semitone {
                    let distance: u64 = if root >= target {
                        (root - target) as u64
                    } else {
                        (target - root) as u64
                    };
                    let cost = distance * 16 + event_hash(seed, index as u64, 0) % 16;
                    if cost < best_cost {
                        best = Some(element);
                        best_cost = cost;
                        proof {
                            best_ix = index as int;
                        }
                    }
                }
            }
        }
        index = index + 1;
    }
    best
}

/// One playable voice: a sampled element and the MIDI pitch it plays.
#[derive(Clone, Copy, Debug)]
pub struct Bind {
    pub element: PackedElement,
    pub midi: u8,
}

/// `b` binds `target` as the catalogue's nearest pick for it.
pub open spec fn bind_is(b: Option<Bind>, s: Seq<u8>, k: ElementKind, src: u32, target: u8, seed: u64) -> bool {
    &&& (b is Some <==> nearest_pick(s, k, src, target, seed) is Some)
    &&& (b matches Some(x) ==> x.midi == target && is_kind_element(
        x.element,
        s,
        k,
        nearest_pick(s, k, src, target, seed).unwrap(),
    ))
}

/// The element of `kind` in `source` with root nearest `target`; falls back
/// to any source if the cast one has no roots at all. A seeded tie-break
/// keeps equal-distance choices varied between sessions but stable within
/// one.
pub fn bind_nearest(catalog: &PackedCatalog, kind: ElementKind, source: u32, target: u8, seed: u64) -> (r: Option<
    Bind,
>)
    requires
        catalog_valid(catalog.bytes()),
    ensures
        bind_is(r, catalog.bytes(), kind, source, target, seed),
{
    let element = match nearest(catalog, kind, Some(source), target, seed) {
        Some(e) => e,
        None => match nearest(catalog, kind, None, target, seed) {
            Some(e) => e,
            None => return None,
        },
    };
    Some(Bind { element, midi: target })
}

/// Distance from a pitch to the nearer end of the recorded span.
pub open spec fn span_distance(c: int, low: int, high: int) -> int {
    let a = if c >= low {
        c - low
    } else {
        low - c
    };
    let b = if c >= high {
        c - high
    } else {
        high - c
    };
    if a <= b {
        a
    } else {
        b
    }
}

/// The bass target for pitch class `pc`: placed in `BASS_FLOOR` to
/// `BASS_FLOOR + 11`, or an octave lower when that sits far nearer the roots
/// the source recorded (`low` to `high`): a low fifth beats a chipmunked one.
pub open spec fn bass_target(pc: int, low: int, high: int) -> int {
    let target = 23 + (pc - 23) % 12;
    if (target >= low && target <= high) || span_distance(target, low, high) <= span_distance(
        target - 12,
        low,
        high,
    ) + 1 {
        target
    } else {
        target - 12
    }
}

fn distance_to_span(c: i32, low: i32, high: i32) -> (r: i32)
    requires
        -1000 <= c <= 1000,
        0 <= low < 128,
        0 <= high < 128,
    ensures
        r == span_distance(c as int, low as int, high as int),
{
    let a = if c >= low {
        c - low
    } else {
        low - c
    };
    let b = if c >= high {
        c - high
    } else {
        high - c
    };
    if a <= b {
        a
    } else {
        b
    }
}

/// `t` binds each bass pitch class to its target's nearest pick.
pub open spec fn bass_table_is(t: [Option<Bind>; 12], s: Seq<u8>, session: Session) -> bool {
    let span = root_span_of(s, ElementKind::BassNote, session.bass_source);
    forall|pc: int|
        0 <= pc < 12 ==> bind_is(
            #[trigger] t@[pc],
            s,
            ElementKind::BassNote,
            session.bass_source,
            clamp(bass_target(pc, span.0, span.1), 0, 127) as u8,
            session.seed ^ (pc as u64),
        )
}

/// Bass binds indexed by the pitch class of the target note.
pub fn bass_table(catalog: &PackedCatalog, session: &Session) -> (r: [Option<Bind>; 12])
    requires
        catalog_valid(catalog.bytes()),
    ensures
        bass_table_is(r, catalog.bytes(), *session),
{
    let ghost s = catalog.bytes();
    let mut table: [Option<Bind>; 12] = [None; 12];
    let (low, high) = root_span(catalog, ElementKind::BassNote, session.bass_source);
    proof {
        lemma_root_span_in_range(s, ElementKind::BassNote, session.bass_source);
    }
    let mut pc: usize = 0;
    while pc < 12
        invariant
            catalog_valid(s),
            s == catalog.bytes(),
            0 <= low < 128,
            0 <= high < 128,
            low as int == root_span_of(s, ElementKind::BassNote, session.bass_source).0,
            high as int == root_span_of(s, ElementKind::BassNote, session.bass_source).1,
            pc <= 12,
            forall|q: int|
                0 <= q < pc ==> bind_is(
                    #[trigger] table@[q],
                    s,
                    ElementKind::BassNote,
                    session.bass_source,
                    clamp(bass_target(q, low as int, high as int), 0, 127) as u8,
                    session.seed ^ (q as u64),
                ),
        decreases 12 - pc,
    {
        let offset = rem_euclid_i32(pc as i32 - 23, 12);
        let target = 23 + offset;
        let in_span = target >= low && target <= high;
        let target = if in_span || distance_to_span(target, low, high) <= distance_to_span(target - 12, low, high)
            + 1 {
            target
        } else {
            target - 12
        };
        let note = clamp_i32(target, 0, 127) as u8;
        let entry = bind_nearest(catalog, ElementKind::BassNote, session.bass_source, note, session.seed ^ pc as u64);
        table[pc] = entry;
        pc = pc + 1;
    }
    table
}

/// The pitch class of a chord's shell voice: third, seventh, extension.
pub open spec fn shell_class(c: Chord, voice: int) -> int {
    c.root as int + if voice == 0 {
        third_of(c.quality) as int
    } else if voice == 1 {
        seventh_of(c.quality) as int
    } else {
        extension_of(c.quality) as int
    }
}

/// The lowest keys note: two below the lowest recorded root, at least 36.
pub open spec fn keys_floor(low: int) -> int {
    if low - 2 > 36 {
        low - 2
    } else {
        36
    }
}

/// The highest keys note: four above the highest recorded root, at most 72,
/// and at least a fifth above the floor.
pub open spec fn keys_ceiling(low: int, high: int) -> int {
    let c = if high + 4 < 72 {
        high + 4
    } else {
        72
    };
    if c > keys_floor(low) + 7 {
        c
    } else {
        keys_floor(low) + 7
    }
}

/// Where each shell voice starts, before the first chord.
pub open spec fn shell_start(floor: int, ceiling: int, voice: int) -> int {
    let center = (floor + ceiling) / 2;
    if voice == 0 {
        center - 3
    } else if voice == 1 {
        center + 1
    } else {
        center + 4
    }
}

/// The note shell `voice` plays on chord slot `slot`: its pitch class placed
/// nearest where the voice last was, kept within the register.
pub open spec fn shell_target(p: Progression, floor: int, ceiling: int, slot: nat, voice: int) -> int
    decreases slot,
{
    let previous = if slot == 0 {
        shell_start(floor, ceiling, voice)
    } else {
        shell_target(p, floor, ceiling, (slot - 1) as nat, voice)
    };
    clamp(placed(shell_class(p.slot(slot as int).chord, voice), previous) as int, floor, ceiling)
}

proof fn lemma_shell_target_range(p: Progression, floor: int, ceiling: int, slot: nat, voice: int)
    requires
        36 <= floor,
        floor + 7 <= ceiling <= 132,
    ensures
        floor <= shell_target(p, floor, ceiling, slot, voice) <= ceiling,
    decreases slot,
{
    if slot > 0 {
        lemma_shell_target_range(p, floor, ceiling, (slot - 1) as nat, voice);
    }
}

/// Shell voices lead smoothly: from one chord slot to the next, no voice
/// moves by more than a tritone.
pub proof fn lemma_shell_voices_lead_smoothly(p: Progression, floor: int, ceiling: int, slot: nat, voice: int)
    requires
        36 <= floor,
        floor + 7 <= ceiling <= 132,
        slot >= 1,
    ensures
        -6 <= shell_target(p, floor, ceiling, slot, voice) - shell_target(p, floor, ceiling, (slot - 1) as nat, voice)
            <= 6,
{
    let prev = shell_target(p, floor, ceiling, (slot - 1) as nat, voice);
    lemma_shell_target_range(p, floor, ceiling, (slot - 1) as nat, voice);
    lemma_place_near_center(shell_class(p.slot(slot as int).chord, voice), prev);
}

/// `t` binds each chord slot's shell voices to their voice-led targets.
pub open spec fn keys_table_is(t: [[Option<Bind>; 3]; 4], s: Seq<u8>, session: Session) -> bool {
    let span = root_span_of(s, ElementKind::KeysNote, session.keys_source);
    let floor = keys_floor(span.0);
    let ceiling = keys_ceiling(span.0, span.1);
    forall|slot: int, voice: int|
        0 <= slot < 4 && 0 <= voice < 3 ==> bind_is(
            #[trigger] t@[slot]@[voice],
            s,
            ElementKind::KeysNote,
            session.keys_source,
            shell_target(session.progression, floor, ceiling, slot as nat, voice) as u8,
            session.seed ^ (((slot * 3 + voice) as u64) << 8u64),
        )
}

/// Voice-led shell voicings per progression chord slot.
pub fn keys_table(catalog: &PackedCatalog, session: &Session) -> (r: [[Option<Bind>; 3]; 4])
    requires
        catalog_valid(catalog.bytes()),
    ensures
        keys_table_is(r, catalog.bytes(), *session),
{
    let ghost s = catalog.bytes();
    let mut table: [[Option<Bind>; 3]; 4] = [[None; 3]; 4];
    let (low, high) = root_span(catalog, ElementKind::KeysNote, session.keys_source);
    proof {
        lemma_root_span_in_range(s, ElementKind::KeysNote, session.keys_source);
    }
    let floor = if low - 2 > 36 {
        low - 2
    } else {
        36
    };
    let top = if high + 4 < 72 {
        high + 4
    } else {
        72
    };
    let ceiling = if top > floor + 7 {
        top
    } else {
        floor + 7
    };
    let center = (floor + ceiling) / 2;
    let mut previous: [i32; 3] = [center - 3, center + 1, center + 4];
    let ghost p = session.progression;
    let mut slot_ix: usize = 0;
    while slot_ix < 4
        invariant
            catalog_valid(s),
            s == catalog.bytes(),
            36 <= floor <= 125,
            floor + 7 <= ceiling <= 132,
            floor as int == keys_floor(root_span_of(s, ElementKind::KeysNote, session.keys_source).0),
            ceiling as int == keys_ceiling(
                root_span_of(s, ElementKind::KeysNote, session.keys_source).0,
                root_span_of(s, ElementKind::KeysNote, session.keys_source).1,
            ),
            p == session.progression,
            slot_ix <= 4,
            forall|v: int|
                0 <= v < 3 ==> #[trigger] previous@[v] == if slot_ix == 0 {
                    shell_start(floor as int, ceiling as int, v)
                } else {
                    shell_target(p, floor as int, ceiling as int, (slot_ix - 1) as nat, v)
                },
            forall|slot: int, voice: int|
                0 <= slot < slot_ix && 0 <= voice < 3 ==> bind_is(
                    #[trigger] table@[slot]@[voice],
                    s,
                    ElementKind::KeysNote,
                    session.keys_source,
                    shell_target(p, floor as int, ceiling as int, slot as nat, voice) as u8,
                    session.seed ^ (((slot * 3 + voice) as u64) << 8u64),
                ),
        decreases 4 - slot_ix,
    {
        let chord = session.progression.slot_for_bar(slot_ix as i64).chord;
        let root = chord.root as i32;
        let classes: [i32; 3] = [
            root + chord.quality.third(),
            root + chord.quality.seventh(),
            root + chord.quality.extension(),
        ];
        let mut row: [Option<Bind>; 3] = [None; 3];
        let mut voice: usize = 0;
        while voice < 3
            invariant
                catalog_valid(s),
                s == catalog.bytes(),
                36 <= floor <= 125,
                floor + 7 <= ceiling <= 132,
                p == session.progression,
                slot_ix < 4,
                voice <= 3,
                chord == p.slot(slot_ix as int).chord,
                forall|v: int| 0 <= v < 3 ==> #[trigger] classes@[v] == shell_class(chord, v),
                forall|v: int|
                    voice <= v < 3 ==> #[trigger] previous@[v] == if slot_ix == 0 {
                        shell_start(floor as int, ceiling as int, v)
                    } else {
                        shell_target(p, floor as int, ceiling as int, (slot_ix - 1) as nat, v)
                    },
                forall|v: int|
                    0 <= v < voice ==> #[trigger] previous@[v] == shell_target(
                        p,
                        floor as int,
                        ceiling as int,
                        slot_ix as nat,
                        v,
                    ),
                forall|v: int|
                    0 <= v < voice ==> bind_is(
                        #[trigger] row@[v],
                        s,
                        ElementKind::KeysNote,
                        session.keys_source,
                        shell_target(p, floor as int, ceiling as int, slot_ix as nat, v) as u8,
                        session.seed ^ (((slot_ix * 3 + v) as u64) << 8u64),
                    ),
            decreases 3 - voice,
        {
            proof {
                if slot_ix > 0 {
                    lemma_shell_target_range(p, floor as int, ceiling as int, (slot_ix - 1) as nat, voice as int);
                }
                lemma_place_fits(classes[voice as int], previous[voice as int]);
            }
            let placed_note = place_near(classes[voice], previous[voice]);
            let target = if placed_note < floor as u8 {
                floor as u8
            } else if placed_note > ceiling as u8 {
                ceiling as u8
            } else {
                placed_note
            };
            previous[voice] = target as i32;
            let entry = bind_nearest(
                catalog,
                ElementKind::KeysNote,
                session.keys_source,
                target,
                session.seed ^ (((slot_ix * SHELL_VOICES + voice) as u64) << 8),
            );
            row[voice] = entry;
            voice = voice + 1;
        }
        table[slot_ix] = row;
        slot_ix = slot_ix + 1;
    }
    table
}

/// A note folded down by octaves until it is no higher than MIDI 64.
pub open spec fn fold_down(m: int) -> int
    decreases m,
{
    if m > 64 {
        fold_down(m - 12)
    } else {
        m
    }
}

/// The lead note for bind slot `index`: scale degree `index - 2`, folded
/// down toward the pack's lead roots.
pub open spec fn lead_target(p: Progression, index: int) -> int {
    fold_down(clamp(scale_pitch(p.key(), p.mode(), index - 2), 55, 84))
}

/// `t` binds each lead degree slot to its folded target's nearest pick.
pub open spec fn lead_table_is(t: [Option<Bind>; 12], s: Seq<u8>, session: Session) -> bool {
    forall|index: int|
        0 <= index < 12 ==> bind_is(
            #[trigger] t@[index],
            s,
            ElementKind::LeadNote,
            session.lead_source,
            lead_target(session.progression, index) as u8,
            session.seed ^ ((index as u64) << 16u64),
        )
}

/// Lead binds indexed by scale degree offset (`degree + 2`).
pub fn lead_table(catalog: &PackedCatalog, session: &Session) -> (r: [Option<Bind>; 12])
    requires
        catalog_valid(catalog.bytes()),
    ensures
        lead_table_is(r, catalog.bytes(), *session),
{
    let ghost s = catalog.bytes();
    let mut table: [Option<Bind>; 12] = [None; 12];
    let mut index: usize = 0;
    while index < 12
        invariant
            catalog_valid(s),
            s == catalog.bytes(),
            index <= 12,
            forall|q: int|
                0 <= q < index ==> bind_is(
                    #[trigger] table@[q],
                    s,
                    ElementKind::LeadNote,
                    session.lead_source,
                    lead_target(session.progression, q) as u8,
                    session.seed ^ ((q as u64) << 16u64),
                ),
        decreases 12 - index,
    {
        let degree = index as i8 - 2;
        let mut midi = session.progression.scale_note(degree) as i32;
        let ghost start = midi as int;
        while midi > 64
            invariant
                0 <= midi <= 84,
                fold_down(midi as int) == fold_down(start),
            decreases midi,
        {
            midi = midi - 12;
        }
        assert(fold_down(midi as int) == midi);
        let entry = bind_nearest(
            catalog,
            ElementKind::LeadNote,
            session.lead_source,
            clamp_i32(midi, 0, 127) as u8,
            session.seed ^ (index as u64) << 16,
        );
        table[index] = entry;
        index = index + 1;
    }
    table
}

/// `r` is what `nth_by_energy` gives for the source's rank `rank` of `of`,
/// falling back on the seed.
pub open spec fn nth_is(r: Option<PackedElement>, s: Seq<u8>, k: ElementKind, src: u32, rank: int, of: int, seed: u64) -> bool {
    let total = kind_count(s, k) as nat;
    if count_from(s, k, src, total) > 0 {
        &&& (r is Some <==> nth_index(s, k, src, rank, of) is Some)
        &&& (r matches Some(e) ==> is_kind_element(e, s, k, nth_index(s, k, src, rank, of).unwrap()))
    } else if total == 0 {
        r is None
    } else {
        &&& (r is Some <==> element_present(s, chosen_index(s, k, seed)))
        &&& (r matches Some(e) ==> element_is(e, s, chosen_index(s, k, seed)))
    }
}

/// `r` is the source's longest element of the kind.
pub open spec fn longest_is(r: Option<PackedElement>, s: Seq<u8>, k: ElementKind, src: u32) -> bool {
    let pick = longest_upto(s, k, src, kind_count(s, k) as nat);
    &&& (r is Some <==> pick is Some)
    &&& (r matches Some(e) ==> is_kind_element(e, s, k, pick.unwrap()))
}

proof fn lemma_rank_fits(s: Seq<u8>, k: ElementKind, src: u32)
    ensures
        3 * (count_from(s, k, src, kind_count(s, k) as nat) - 1) <= usize::MAX,
{
    lemma_count_from(s, k, src, kind_count(s, k) as nat);
}

/// Every sampled voice a session needs, resolved to fixed tables.
#[derive(Clone, Copy, Debug)]
pub struct SymbolicScene {
    pub kick_main: Option<PackedElement>,
    pub kick_accent: Option<PackedElement>,
    pub snare_main: Option<PackedElement>,
    pub snare_ghost: Option<PackedElement>,
    pub hat_closed: Option<PackedElement>,
    pub hat_open: Option<PackedElement>,
    /// Bass binds indexed by pitch class of the target note.
    pub bass: [Option<Bind>; 12],
    /// Voice-led shell voicings per progression chord slot.
    pub keys: [[Option<Bind>; 3]; 4],
    /// Lead binds indexed by scale degree offset (`degree + 2`).
    pub lead: [Option<Bind>; 12],
}

/// `r` holds every voice of the session resolved against the catalogue.
pub open spec fn resolved(r: SymbolicScene, s: Seq<u8>, session: Session) -> bool {
    let d = session.drum_source;
    let seed = session.seed;
    &&& nth_is(r.kick_main, s, ElementKind::Kick, d, 2, 4, seed)
    &&& nth_is(r.kick_accent, s, ElementKind::Kick, d, 3, 4, seed)
    &&& nth_is(r.snare_main, s, ElementKind::Snare, d, 2, 4, seed)
    &&& nth_is(r.snare_ghost, s, ElementKind::Snare, d, 0, 4, seed)
    &&& nth_is(r.hat_closed, s, ElementKind::Hat, d, 1, 4, seed)
    &&& longest_is(r.hat_open, s, ElementKind::Hat, d)
    &&& bass_table_is(r.bass, s, session)
    &&& keys_table_is(r.keys, s, session)
    &&& lead_table_is(r.lead, s, session)
}

impl SymbolicScene {
    /// Resolve every voice of a session against the catalogue.
    pub fn resolve(catalog: &PackedCatalog, session: &Session) -> (r: Self)
        requires
            catalog_valid(catalog.bytes()),
        ensures
            resolved(r, catalog.bytes(), *session),
    {
        let ghost s = catalog.bytes();
        let seed = session.seed;
        let d = session.drum_source;
        proof {
            lemma_rank_fits(s, ElementKind::Kick, d);
            lemma_rank_fits(s, ElementKind::Snare, d);
            lemma_rank_fits(s, ElementKind::Hat, d);
        }
        let bass = bass_table(catalog, session);
        let keys = keys_table(catalog, session);
        let lead = lead_table(catalog, session);
        SymbolicScene {
            kick_main: nth_by_energy(catalog, ElementKind::Kick, d, 2, 4, seed),
            kick_accent: nth_by_energy(catalog, ElementKind::Kick, d, 3, 4, seed),
            snare_main: nth_by_energy(catalog, ElementKind::Snare, d, 2, 4, seed),
            snare_ghost: nth_by_energy(catalog, ElementKind::Snare, d, 0, 4, seed),
            hat_closed: nth_by_energy(catalog, ElementKind::Hat, d, 1, 4, seed),
            hat_open: longest(catalog, ElementKind::Hat, d),
            bass,
            keys,
            lead,
        }
    }
}

/// How far a bind repitches its element, in semitones (0 for none).
pub open spec fn repitch(b: Option<Bind>) -> int {
    match b {
        Some(x) => match x.element.root_semitone {
            Some(root) => if x.midi >= root {
                x.midi - root
            } else {
                root - x.midi
            },
            None => 0,
        },
        None => 0,
    }
}

/// The largest repitch among the binds (0 for none).
pub open spec fn worst_of(binds: Seq<Option<Bind>>) -> int
    decreases binds.len(),
{
    if binds.len() == 0 {
        0
    } else {
        let rest = worst_of(binds.drop_last());
        let last = repitch(binds.last());
        if last > rest {
            last
        } else {
            rest
        }
    }
}

/// The larger of two repitch distances.
pub open spec fn larger(a: int, b: int) -> int {
    if a > b {
        a
    } else {
        b
    }
}

/// The worst repitch across every tonal bind of a scene.
pub open spec fn scene_worst(sc: SymbolicScene) -> int {
    larger(
        larger(worst_of(sc.bass@), worst_of(sc.lead@)),
        larger(
            larger(worst_of(sc.keys@[0]@), worst_of(sc.keys@[1]@)),
            larger(worst_of(sc.keys@[2]@), worst_of(sc.keys@[3]@)),
        ),
    )
}

proof fn lemma_worst_bounded(binds: Seq<Option<Bind>>)
    ensures
        0 <= worst_of(binds) <= 255,
    decreases binds.len(),
{
    if binds.len() > 0 {
        lemma_worst_bounded(binds.drop_last());
    }
}

fn worst_in<const N: usize>(binds: &[Option<Bind>; N]) -> (r: u32)
    ensures
        r == worst_of(binds@),
{
    let mut worst: u32 = 0;
    let mut i: usize = 0;
    while i < N
        invariant
            i <= N,
            binds@.len() == N,
            worst == worst_of(binds@.subrange(0, i as int)),
        decreases N - i,
    {
        proof {
            lemma_worst_bounded(binds@.subrange(0, i as int));
            assert(binds@.subrange(0, i + 1).drop_last() == binds@.subrange(0, i as int));
        }
        if let Some(bind) = binds[i] {
            if let Some(root) = bind.element.root_semitone {
                let distance: u32 = if bind.midi >= root {
                    (bind.midi - root) as u32
                } else {
                    (root - bind.midi) as u32
                };
                if distance > worst {
                    worst = distance;
                }
            }
        }
        i = i + 1;
    }
    assert(binds@.subrange(0, N as int) == binds@);
    worst
}

impl SymbolicScene {
    /// Worst repitch distance in semitones across all tonal binds: a straight
    /// quality metric, since big ratios sound chipmunked or muddy.
    pub fn worst_repitch_semitones(&self) -> (r: u32)
        ensures
            r == scene_worst(*self),
    {
        let bass = worst_in(&self.bass);
        let lead = worst_in(&self.lead);
        let k0 = worst_in(&self.keys[0]);
        let k1 = worst_in(&self.keys[1]);
        let k2 = worst_in(&self.keys[2]);
        let k3 = worst_in(&self.keys[3]);
        let a = if bass > lead {
            bass
        } else {
            lead
        };
        let b = if k0 > k1 {
            k0
        } else {
            k1
        };
        let c = if k2 > k3 {
            k2
        } else {
            k3
        };
        let d = if b > c {
            b
        } else {
            c
        };
        if a > d {
            a
        } else {
            d
        }
    }
}

/// A bind keeps to the cast source whenever the source recorded any rooted
/// element of the kind.
pub proof fn lemma_bind_is_on_source(b: Option<Bind>, s: Seq<u8>, k: ElementKind, src: u32, target: u8, seed: u64, i: int)
    requires
        bind_is(b, s, k, src, target, seed),
        0 <= i < kind_count(s, k),
        source_at(s, k, i) == Some(src),
        root_at(s, k, i) is Some,
    ensures
        b matches Some(x) && x.element.source_hash == src,
{
    lemma_bind_keeps_source(s, k, src, target, seed, i);
}

/// Lanes keep one instrument voice: when the cast bass source recorded a
/// rooted bass note, every bass bind plays one of that source's elements;
/// likewise for the lead.
pub proof fn lemma_lanes_keep_one_voice(sc: SymbolicScene, s: Seq<u8>, session: Session, bass_i: int, lead_i: int)
    requires
        bass_table_is(sc.bass, s, session),
        lead_table_is(sc.lead, s, session),
        0 <= bass_i < kind_count(s, ElementKind::BassNote),
        source_at(s, ElementKind::BassNote, bass_i) == Some(session.bass_source),
        root_at(s, ElementKind::BassNote, bass_i) is Some,
        0 <= lead_i < kind_count(s, ElementKind::LeadNote),
        source_at(s, ElementKind::LeadNote, lead_i) == Some(session.lead_source),
        root_at(s, ElementKind::LeadNote, lead_i) is Some,
    ensures
        forall|pc: int| 0 <= pc < 12 ==> (#[trigger] sc.bass@[pc] matches Some(x) && x.element.source_hash == session.bass_source),
        forall|d: int| 0 <= d < 12 ==> (#[trigger] sc.lead@[d] matches Some(x) && x.element.source_hash == session.lead_source),
{
    let span = root_span_of(s, ElementKind::BassNote, session.bass_source);
    assert forall|pc: int| 0 <= pc < 12 implies (#[trigger] sc.bass@[pc] matches Some(x) && x.element.source_hash
        == session.bass_source) by {
        lemma_bind_is_on_source(
            sc.bass@[pc],
            s,
            ElementKind::BassNote,
            session.bass_source,
            clamp(bass_target(pc, span.0, span.1), 0, 127) as u8,
            session.seed ^ (pc as u64),
            bass_i,
        );
    }
    assert forall|d: int| 0 <= d < 12 implies (#[trigger] sc.lead@[d] matches Some(x) && x.element.source_hash
        == session.lead_source) by {
        lemma_bind_is_on_source(
            sc.lead@[d],
            s,
            ElementKind::LeadNote,
            session.lead_source,
            lead_target(session.progression, d) as u8,
            session.seed ^ ((d as u64) << 16u64),
            lead_i,
        );
    }
}

} // verus!
