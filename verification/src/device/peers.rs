//! A bounded record of recently heard peers, for the display's peer count.
use crate::{Micros, NodeId};
use vstd::prelude::*;

verus! {

/// Slots in the table.
pub const PEER_SLOTS: usize = 12;

/// How recently a peer must have been heard to count as active.
pub const PEER_ACTIVE_WINDOW_US: Micros = 2_000_000;

/// One slot: the peer heard, if any, and when (local time).
#[derive(Clone, Copy, Debug, PartialEq, Eq, Structural)]
pub struct PeerSlot {
    pub id: Option<NodeId>,
    pub last_local_us: Micros,
}

/// A fixed-capacity table of peers and when each was last heard.
#[derive(Clone, Copy, Debug)]
pub struct PeerTable {
    slots: [PeerSlot; PEER_SLOTS],
}

/// The slot a new peer takes: scanning from the second slot, the first free
/// one, else the stalest seen so far (the first slot is the starting pick).
pub open spec fn evict_target(s: Seq<PeerSlot>, ix: int, target: int) -> int
    decreases 12 - ix,
{
    if ix >= 12 {
        target
    } else if s[ix].id is None {
        ix
    } else {
        evict_target(s, ix + 1, if s[ix].last_local_us < s[target].last_local_us { ix } else { target })
    }
}

/// The first slot holding `id`, if any.
pub open spec fn slot_of(s: Seq<PeerSlot>, id: NodeId, from: int) -> Option<int>
    decreases 12 - from,
{
    if from >= 12 || from < 0 {
        None
    } else if s[from].id == Some(id) {
        Some(from)
    } else {
        slot_of(s, id, from + 1)
    }
}

/// The table after hearing `id` at `now`: its slot refreshed, or a slot
/// taken for it.
pub open spec fn noted(s: Seq<PeerSlot>, id: NodeId, now: Micros) -> Seq<PeerSlot> {
    let fresh = PeerSlot { id: Some(id), last_local_us: now };
    match slot_of(s, id, 0) {
        Some(i) => s.update(i, PeerSlot { last_local_us: now, ..s[i] }),
        None => s.update(evict_target(s, 1, 0), fresh),
    }
}

/// The slot holds a peer heard within the window before `now`.
pub open spec fn slot_active(slot: PeerSlot, now: Micros) -> bool {
    slot.id is Some && now - slot.last_local_us <= PEER_ACTIVE_WINDOW_US
}

/// How many of the first `n` slots are active.
pub open spec fn active_count(s: Seq<PeerSlot>, now: Micros, n: int) -> int
    decreases n,
{
    if n <= 0 {
        0
    } else {
        active_count(s, now, n - 1) + if slot_active(s[n - 1], now) { 1int } else { 0int }
    }
}

/// No peer occupies two slots.
pub open spec fn distinct_peers(s: Seq<PeerSlot>) -> bool {
    forall|i: int, j: int| 0 <= i < j < s.len() && s[i].id is Some ==> #[trigger] s[i].id != #[trigger] s[j].id
}

/// Twelve slots, no peer in two of them, each free slot still at time zero.
pub open spec fn peers_wf(s: Seq<PeerSlot>) -> bool {
    &&& s.len() == 12
    &&& distinct_peers(s)
    &&& forall|i: int| 0 <= i < 12 && (#[trigger] s[i]).id is None ==> s[i].last_local_us == 0
}

/// Every slot was last stamped at a time no earlier than zero.
pub open spec fn times_nonnegative(s: Seq<PeerSlot>) -> bool {
    forall|i: int| 0 <= i < 12 ==> (#[trigger] s[i]).last_local_us >= 0
}

impl View for PeerTable {
    type V = Seq<PeerSlot>;

    closed spec fn view(&self) -> Seq<PeerSlot> {
        self.slots@
    }
}

impl Default for PeerTable {
    fn default() -> (r: Self)
        ensures
            r@ == Seq::new(12, |i: int| PeerSlot { id: None, last_local_us: 0 }),
    {
        Self::new()
    }
}

impl PeerTable {
    #[verifier::type_invariant]
    spec fn inv(self) -> bool {
        peers_wf(self.slots@)
    }

    pub fn new() -> (r: Self)
        ensures
            r@ == Seq::new(12, |i: int| PeerSlot { id: None, last_local_us: 0 }),
            peers_wf(r@),
    {
        let r = Self { slots: [PeerSlot { id: None, last_local_us: 0 }; PEER_SLOTS] };
        assert(r@ == Seq::new(12, |i: int| PeerSlot { id: None, last_local_us: 0 }));
        r
    }

    /// Record that `id` was heard at local time `now_us`.
    pub fn note(&mut self, id: NodeId, now_us: Micros)
        ensures
            peers_wf(old(self)@),
            peers_wf(final(self)@),
            final(self)@ == noted(old(self)@, id, now_us),
    {
        proof {
            use_type_invariant(&*self);
            lemma_note_keeps_peers_distinct(self.slots@, id, now_us);
            lemma_evict_target_range(self.slots@, 1, 0);
        }
        let ghost s0 = self.slots@;
        let mut ix: usize = 0;
        while ix < PEER_SLOTS
            invariant
                ix <= 12,
                self.slots@ == s0,
                s0 == old(self)@,
                peers_wf(s0),
                peers_wf(noted(s0, id, now_us)),
                slot_of(s0, id, 0) == slot_of(s0, id, ix as int),
            decreases 12 - ix,
        {
            if self.slots[ix].id == Some(id) {
                assert(slot_of(s0, id, ix as int) == Some(ix as int));
                let slot = self.slots[ix];
                assert(noted(s0, id, now_us) == s0.update(ix as int, PeerSlot { last_local_us: now_us, ..s0[ix as int] }));
                self.slots[ix] = PeerSlot { last_local_us: now_us, ..slot };
                assert(self.slots@ == s0.update(ix as int, PeerSlot { last_local_us: now_us, ..s0[ix as int] }));
                assert(noted(s0, id, now_us) == s0.update(ix as int, PeerSlot { last_local_us: now_us, ..s0[ix as int] }));
                return;
            }
            ix = ix + 1;
        }
        let mut target: usize = 0;
        let mut ix: usize = 1;
        while ix < PEER_SLOTS
            invariant_except_break
                1 <= ix <= 12,
                target < ix,
                evict_target(s0, 1, 0) == evict_target(s0, ix as int, target as int),
            invariant
                self.slots@ == s0,
                s0 == old(self)@,
                peers_wf(s0),
                peers_wf(noted(s0, id, now_us)),
                slot_of(s0, id, 0) is None,
                target < 12,
            ensures
                evict_target(s0, 1, 0) == target,
            decreases 12 - ix,
        {
            if self.slots[ix].id.is_none() {
                target = ix;
                break;
            }
            if self.slots[ix].last_local_us < self.slots[target].last_local_us {
                target = ix;
            }
            ix = ix + 1;
        }
        assert(noted(s0, id, now_us) == s0.update(target as int, PeerSlot { id: Some(id), last_local_us: now_us }));
        self.slots[target] = PeerSlot { id: Some(id), last_local_us: now_us };
    }

    /// Peers heard within the activity window as of `now_us`.
    pub fn count_active(&self, now_us: Micros) -> (r: u8)
        requires
            forall|i: int| 0 <= i < 12 ==> (#[trigger] self@[i]).id is Some ==> i64::MIN <= now_us - self@[i].last_local_us <= i64::MAX,
        ensures
            r == active_count(self@, now_us, 12),
    {
        let mut count: u8 = 0;
        let mut ix: usize = 0;
        while ix < PEER_SLOTS
            invariant
                ix <= 12,
                count == active_count(self@, now_us, ix as int),
                count <= ix,
                forall|i: int| 0 <= i < 12 ==> (#[trigger] self@[i]).id is Some ==> i64::MIN <= now_us - self@[i].last_local_us <= i64::MAX,
            decreases 12 - ix,
        {
            let slot = self.slots[ix];
            let active = match slot.id {
                Some(_) => now_us - slot.last_local_us <= PEER_ACTIVE_WINDOW_US,
                None => false,
            };
            if active {
                count = count + 1;
            }
            ix = ix + 1;
        }
        count
    }
}

/// Hearing a peer leaves it in exactly one slot, stamped with the time it
/// was heard, and keeps the table free of duplicates.
pub proof fn lemma_note_keeps_peers_distinct(s: Seq<PeerSlot>, id: NodeId, now: Micros)
    requires
        s.len() == 12,
        distinct_peers(s),
    ensures
        distinct_peers(noted(s, id, now)),
        slot_of(noted(s, id, now), id, 0) matches Some(i) && noted(s, id, now)[i].last_local_us == now,
        peers_wf(s) ==> peers_wf(noted(s, id, now)),
{
    lemma_slot_of(s, id, 0);
    lemma_evict_target_range(s, 1, 0);
    let t = noted(s, id, now);
    lemma_slot_of(t, id, 0);
    match slot_of(s, id, 0) {
        Some(i) => {
            assert(t[i].id == Some(id));
        },
        None => {
            let k = evict_target(s, 1, 0);
            assert(t[k].id == Some(id));
        },
    }
}

/// Hearing a peer, at a time no earlier than zero in a table stamped no
/// earlier than zero: exactly one slot then holds it, stamped now. A peer
/// already held only has its time refreshed. A new peer takes a free slot
/// while there is one, so every peer held before is still held; in a full
/// table it replaces the peer heard least recently (the lowest slot among
/// ties). At least one peer is then active.
pub proof fn lemma_note_law(s: Seq<PeerSlot>, id: NodeId, now: Micros)
    requires
        peers_wf(s),
        times_nonnegative(s),
        now >= 0,
    ensures
        ({
            let t = noted(s, id, now);
            &&& peers_wf(t)
            &&& times_nonnegative(t)
            &&& exists|i: int|
                0 <= i < 12 && t[i].id == Some(id) && t[i].last_local_us == now
                    && forall|j: int| 0 <= j < 12 && j != i ==> (#[trigger] t[j]).id != Some(id)
            &&& forall|i: int| 0 <= i < 12 && s[i].id == Some(id) ==> t == s.update(i, PeerSlot { last_local_us: now, ..s[i] })
            &&& (forall|i: int| 0 <= i < 12 ==> (#[trigger] s[i]).id != Some(id)) && (exists|i: int| 0 <= i < 12 && (#[trigger] s[i]).id is None)
                ==> forall|j: int| 0 <= j < 12 && (#[trigger] s[j]).id is Some ==> exists|k: int| 0 <= k < 12 && t[k].id == s[j].id
            &&& (forall|i: int| 0 <= i < 12 ==> (#[trigger] s[i]).id is Some && s[i].id != Some(id)) ==> exists|k: int|
                0 <= k < 12 && t == s.update(k, PeerSlot { id: Some(id), last_local_us: now })
                    && (forall|j: int| 0 <= j < 12 ==> s[k].last_local_us <= (#[trigger] s[j]).last_local_us)
                    && (forall|j: int| 0 <= j < k ==> s[k].last_local_us < (#[trigger] s[j]).last_local_us)
            &&& active_count(t, now, 12) >= 1
        }),
{
    let t = noted(s, id, now);
    lemma_note_keeps_peers_distinct(s, id, now);
    lemma_slot_of(s, id, 0);
    lemma_evict_target_range(s, 1, 0);
    lemma_evict_target_spec(s, 1, 0);
    let k = evict_target(s, 1, 0);
    let i = slot_of(t, id, 0)->0;
    lemma_slot_of(t, id, 0);
    assert forall|j: int| 0 <= j < 12 && j != i implies (#[trigger] t[j]).id != Some(id) by {
        if j < i {
        } else {
            assert(t[i].id is Some);
        }
    }
    assert forall|j: int| 0 <= j < 12 implies (#[trigger] t[j]).last_local_us >= 0 by {
        if slot_of(s, id, 0) is Some {
            let h = slot_of(s, id, 0)->0;
            if j != h {
                assert(t[j] == s[j]);
            }
        } else if j != k {
            assert(t[j] == s[j]);
        }
    }
    assert forall|h: int| 0 <= h < 12 && s[h].id == Some(id) implies t == s.update(h, PeerSlot { last_local_us: now, ..s[h] }) by {
        let f = slot_of(s, id, 0)->0;
        if f != h {
            if f < h {
                assert(s[f].id == s[h].id);
            }
        }
    }
    if slot_of(s, id, 0) is None {
        if exists|f: int| 0 <= f < 12 && (#[trigger] s[f]).id is None {
            if s[k].id is Some {
                let f = choose|f: int| 0 <= f < 12 && (#[trigger] s[f]).id is None;
                assert(f == 0);
                assert(s[0].last_local_us == 0);
                assert(s[k].last_local_us >= 0);
            }
            assert forall|j: int| 0 <= j < 12 && (#[trigger] s[j]).id is Some implies exists|q: int| 0 <= q < 12 && t[q].id == s[j].id by {
                assert(j != k);
                assert(t[j] == s[j]);
            }
        }
    }
    lemma_active_count_has(t, now, 12, i);
}

/// The slot `evict_target` picks from `ix` on, `target` the pick so far: the
/// first free slot from `ix` if there is one, else the slot heard least
/// recently among `target` and those from `ix`, the lowest on ties.
proof fn lemma_evict_target_spec(s: Seq<PeerSlot>, ix: int, target: int)
    requires
        s.len() == 12,
        0 <= target < ix,
        1 <= ix <= 12,
    ensures
        (exists|f: int| ix <= f < 12 && (#[trigger] s[f]).id is None) ==> s[evict_target(s, ix, target)].id is None && ix
            <= evict_target(s, ix, target) < 12,
        (forall|f: int| ix <= f < 12 ==> (#[trigger] s[f]).id is Some) ==> ({
            let e = evict_target(s, ix, target);
            &&& (e == target || ix <= e < 12)
            &&& s[e].last_local_us <= s[target].last_local_us
            &&& e != target ==> s[e].last_local_us < s[target].last_local_us
            &&& forall|j: int| ix <= j < 12 ==> s[e].last_local_us <= (#[trigger] s[j]).last_local_us
            &&& forall|j: int| ix <= j < e ==> s[e].last_local_us < (#[trigger] s[j]).last_local_us
        }),
    decreases 12 - ix,
{
    if ix < 12 {
        if s[ix].id is Some {
            let nt = if s[ix].last_local_us < s[target].last_local_us { ix } else { target };
            lemma_evict_target_spec(s, ix + 1, nt);
            if exists|f: int| ix <= f < 12 && (#[trigger] s[f]).id is None {
                let f = choose|f: int| ix <= f < 12 && (#[trigger] s[f]).id is None;
                assert(ix + 1 <= f);
            }
        }
    }
}

/// A table with an active slot among the first `n` counts at least one.
proof fn lemma_active_count_has(s: Seq<PeerSlot>, now: Micros, n: int, i: int)
    requires
        0 <= i < n,
        slot_active(s[i], now),
    ensures
        active_count(s, now, n) >= 1,
    decreases n,
{
    if i < n - 1 {
        lemma_active_count_has(s, now, n - 1, i);
    }
    lemma_active_count_nonneg(s, now, n - 1);
}

proof fn lemma_active_count_nonneg(s: Seq<PeerSlot>, now: Micros, n: int)
    ensures
        active_count(s, now, n) >= 0,
    decreases n,
{
    if n > 0 {
        lemma_active_count_nonneg(s, now, n - 1);
    }
}

/// `slot_of` finds the first slot holding the peer, or reports that none does.
proof fn lemma_slot_of(s: Seq<PeerSlot>, id: NodeId, from: int)
    requires
        s.len() == 12,
        0 <= from,
    ensures
        slot_of(s, id, from) matches Some(i) ==> from <= i < 12 && s[i].id == Some(id) && forall|j: int| from <= j < i ==> s[j].id != Some(id),
        slot_of(s, id, from) is None ==> forall|j: int| from <= j < 12 ==> s[j].id != Some(id),
    decreases 12 - from,
{
    if from < 12 {
        lemma_slot_of(s, id, from + 1);
    }
}

proof fn lemma_evict_target_range(s: Seq<PeerSlot>, ix: int, target: int)
    requires
        0 <= target < 12,
        0 <= ix,
    ensures
        0 <= evict_target(s, ix, target) < 12,
    decreases 12 - ix,
{
    if ix < 12 && s[ix].id is Some {
        lemma_evict_target_range(s, ix + 1, if s[ix].last_local_us < s[target].last_local_us { ix } else { target });
    }
}

} // verus!
