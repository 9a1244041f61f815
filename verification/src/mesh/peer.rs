//! Per-peer measurement state and the leaderless root election.
//!
//! Fixed capacity, no allocation. Each entry tracks a smoothed one-way delay
//! and jitter plus the peer's advertised place in the tree, which drives a
//! distributed "lowest id is the root" election.
use crate::arith::{sat_sub_i64, saturating_sub_i64};
use crate::{Micros, NodeId};
use vstd::prelude::*;

verus! {

pub const MAX_PEERS: usize = 12;

/// A peer is ignored for election/discipline if unheard for this long.
pub const PEER_TIMEOUT_US: Micros = 3_000_000;

/// Cap on tree depth; a peer this deep is treated as having no root.
pub const MAX_STRATUM: u8 = 16;

/// Bound on measured one-way delays (some 36 000 years) under which a table
/// stays in [`peer_in_range`] whatever probes follow.
pub const MAX_DELAY_US: Micros = 0x1000_0000_0000_0000;

#[derive(Clone, Copy, Debug)]
pub struct Peer {
    pub id: NodeId,
    pub root_id: NodeId,
    pub stratum: u8,
    pub last_seen_us: Micros,
    pub delay_us: Micros,
    pub jitter_us: Micros,
    pub last_error_us: Micros,
    pub samples: u32,
    /// Whether the slot holds a peer.
    pub valid: bool,
}

/// The empty slot.
pub open spec fn empty_peer_fields(p: Peer) -> bool {
    &&& p.id == 0
    &&& p.root_id == 0
    &&& p.stratum == MAX_STRATUM
    &&& p.last_seen_us == i64::MIN
    &&& p.delay_us == 0
    &&& p.jitter_us == 0
    &&& p.last_error_us == 0
    &&& p.samples == 0
}

/// Heard within the timeout.
pub open spec fn is_fresh(p: Peer, now_us: Micros) -> bool {
    p.is_occupied() && sat_sub_i64(now_us, p.last_seen_us) <= PEER_TIMEOUT_US
}

/// A fresh peer that advertises a reachable root.
pub open spec fn is_eligible(p: Peer, now_us: Micros) -> bool {
    is_fresh(p, now_us) && p.stratum < MAX_STRATUM
}

/// The smoothing state of a slot stays within bounds that keep every later
/// smoothing step with a delay within [`MAX_DELAY_US`], and every weight, in
/// 64 bits.
pub open spec fn peer_in_range(p: Peer) -> bool {
    &&& -MAX_DELAY_US <= p.delay_us <= MAX_DELAY_US
    &&& -2 * MAX_DELAY_US <= p.jitter_us <= 2 * MAX_DELAY_US
}

/// Every slot is within the smoothing bounds.
pub open spec fn peers_in_range(s: Seq<Peer>) -> bool {
    forall|i: int| 0 <= i < MAX_PEERS ==> peer_in_range(#[trigger] s[i])
}

/// Smoothing a `delay_us` sample into `p` stays in 64 bits: a first sample
/// only seeds the entry; a later one takes the deviation from the smoothed
/// delay, then the deviation of the new delay from the smoothed jitter.
pub open spec fn probe_fits(p: Peer, delay_us: Micros) -> bool {
    p.samples == 0 || ({
        let d = p.delay_us + trunc8(delay_us - p.delay_us);
        let dev = if delay_us - d < 0 { d - delay_us } else { delay_us - d };
        &&& i64::MIN <= delay_us - p.delay_us <= i64::MAX
        &&& i64::MIN <= dev - p.jitter_us <= i64::MAX
    })
}

/// The weight of `p` at `now_us` takes the sum of its delay and jitter only
/// when it counts at all; that sum then stays in 64 bits.
pub open spec fn weight_fits(p: Peer, now_us: Micros) -> bool {
    is_fresh(p, now_us) && p.samples != 0 ==> i64::MIN <= p.delay_us + p.jitter_us <= i64::MAX
}

/// The discipline weight of a peer: larger for low delay and jitter and for
/// closeness to the root; zero when stale or never measured.
pub open spec fn spec_weight(p: Peer, now_us: Micros) -> u32 {
    if !is_fresh(p, now_us) || p.samples == 0 {
        0
    } else {
        let c = p.delay_us + p.jitter_us;
        let cost = (if c < 0 { 0 } else { c }) + 200;
        ((4_000_000int / cost) / (p.stratum + 1)) as u32
    }
}

impl Peer {
    /// Whether the slot holds a peer.
    pub open spec fn is_occupied(self) -> bool {
        self.valid
    }

    fn empty() -> (r: Self)
        ensures
            !r.is_occupied(),
            empty_peer_fields(r),
    {
        Peer {
            id: 0,
            root_id: 0,
            stratum: MAX_STRATUM,
            last_seen_us: i64::MIN,
            delay_us: 0,
            jitter_us: 0,
            last_error_us: 0,
            samples: 0,
            valid: false,
        }
    }

    pub(crate) fn fresh(&self, now_us: Micros) -> (r: bool)
        ensures
            r == is_fresh(*self, now_us),
    {
        self.valid && saturating_sub_i64(now_us, self.last_seen_us) <= PEER_TIMEOUT_US
    }

    /// Discipline weight: lower delay and jitter, and closer to the root,
    /// count for more. Zero once stale.
    pub fn weight(&self, now_us: Micros) -> (r: u32)
        requires
            weight_fits(*self, now_us),
        ensures
            r == spec_weight(*self, now_us),
    {
        if !self.fresh(now_us) || self.samples == 0 {
            return 0;
        }
        let c = self.delay_us + self.jitter_us;
        let cost = (if c < 0 {
            0
        } else {
            c
        }) as u64 + 200;
        let base = (4_000_000u64 / cost) as u32;
        base / (self.stratum as u32 + 1)
    }
}

#[derive(Clone, Copy, Debug)]
pub struct PeerTable {
    peers: [Peer; MAX_PEERS],
}

impl View for PeerTable {
    type V = Seq<Peer>;

    closed spec fn view(&self) -> Seq<Peer> {
        self.peers@
    }
}

/// The fresh peers of a table, in slot order.
pub open spec fn fresh_of(s: Seq<Peer>, now_us: Micros) -> Seq<Peer>
    decreases s.len(),
{
    if s.len() == 0 {
        s
    } else {
        let rest = fresh_of(s.drop_last(), now_us);
        if is_fresh(s.last(), now_us) {
            rest.push(s.last())
        } else {
            rest
        }
    }
}

/// No more fresh peers than slots.
pub proof fn lemma_fresh_of_len(s: Seq<Peer>, now_us: Micros)
    ensures
        fresh_of(s, now_us).len() <= s.len(),
    decreases s.len(),
{
    if s.len() > 0 {
        lemma_fresh_of_len(s.drop_last(), now_us);
    }
}

impl Default for PeerTable {
    fn default() -> (r: Self)
        ensures
            r.wf(),
            forall|i: int| 0 <= i < MAX_PEERS ==> !(#[trigger] r@[i]).is_occupied(),
    {
        Self::new()
    }
}

/// Twelve slots, each free one still empty, no id held twice.
pub open spec fn table_wf(s: Seq<Peer>) -> bool {
    &&& s.len() == MAX_PEERS
    &&& forall|i: int| 0 <= i < MAX_PEERS && !(#[trigger] s[i]).is_occupied() ==> empty_peer_fields(s[i])
    &&& forall|i: int, j: int|
        0 <= i < MAX_PEERS && 0 <= j < MAX_PEERS && i != j && (#[trigger] s[i]).is_occupied()
            && (#[trigger] s[j]).is_occupied() ==> s[i].id != s[j].id
}

/// `(root, stratum)` is the outcome of the lowest-id election over the
/// slots `s` for node `self_id` at `now_us`: the root is no higher than this
/// node or any eligible peer's advertised root; this node leads at stratum 0
/// when it is the lowest, else the root is an advertised one, reached one hop
/// past the nearest eligible peer advertising it.
pub open spec fn elected(s: Seq<Peer>, self_id: NodeId, now_us: Micros, root: NodeId, stratum: u8) -> bool {
    &&& root <= self_id
    &&& forall|i: int| 0 <= i < MAX_PEERS && is_eligible(#[trigger] s[i], now_us) ==> root <= s[i].root_id
    &&& root == self_id ==> stratum == 0
    &&& root != self_id ==> (exists|i: int|
        0 <= i < MAX_PEERS && is_eligible(#[trigger] s[i], now_us) && s[i].root_id == root
            && stratum == s[i].stratum + 1)
    &&& root != self_id ==> forall|i: int|
        0 <= i < MAX_PEERS && is_eligible(#[trigger] s[i], now_us) && s[i].root_id == root
            ==> stratum <= s[i].stratum + 1
}

impl PeerTable {
    /// Twelve slots, each free one still empty, no id held twice.
    pub open spec fn wf(&self) -> bool {
        table_wf(self@)
    }

    /// The slot `i` holds `id`.
    pub open spec fn holds(&self, id: NodeId, i: int) -> bool {
        0 <= i < MAX_PEERS && self@[i].is_occupied() && self@[i].id == id
    }

    /// Some slot holds `id`.
    pub open spec fn knows(&self, id: NodeId) -> bool {
        exists|i: int| self.holds(id, i)
    }

    pub fn new() -> (r: Self)
        ensures
            r.wf(),
            forall|i: int| 0 <= i < MAX_PEERS ==> !(#[trigger] r@[i]).is_occupied(),
    {
        let e = Peer::empty();
        let r = Self { peers: [e; MAX_PEERS] };
        assert(r@.len() == MAX_PEERS);
        r
    }

    /// The entry in slot `i`.
    pub(crate) fn slot_at(&self, i: usize) -> (r: Peer)
        requires
            self.wf(),
            i < MAX_PEERS,
        ensures
            r == self@[i as int],
    {
        self.peers[i]
    }

    fn find(&self, id: NodeId) -> (r: Option<usize>)
        requires
            self.wf(),
        ensures
            r matches Some(ix) ==> self.holds(id, ix as int),
            r is None ==> !self.knows(id),
    {
        let mut ix: usize = 0;
        while ix < MAX_PEERS
            invariant
                self.wf(),
                ix <= MAX_PEERS,
                forall|j: int| 0 <= j < ix ==> !self.holds(id, j),
            decreases MAX_PEERS - ix,
        {
            if self.peers[ix].valid && self.peers[ix].id == id {
                return Some(ix);
            }
            ix += 1;
        }
        None
    }

    /// The slot for `id`: its current slot, else the first free slot after
    /// slot 0, else the stalest one; a new peer's slot is reset to a fresh
    /// entry heard at `now_us`.
    fn slot(&mut self, id: NodeId, now_us: Micros) -> (ix: usize)
        requires
            old(self).wf(),
        ensures
            final(self).wf(),
            ix < MAX_PEERS,
            final(self).holds(id, ix as int),
            forall|j: int| 0 <= j < MAX_PEERS && j != ix ==> final(self)@[j] == old(self)@[j],
            old(self).knows(id) ==> final(self)@ == old(self)@,
            !old(self).knows(id) ==> ix == new_slot(old(self)@),
            !old(self).knows(id) ==> ({
                let p = final(self)@[ix as int];
                &&& p.root_id == 0 && p.stratum == MAX_STRATUM && p.last_seen_us == now_us
                &&& p.delay_us == 0 && p.jitter_us == 0 && p.last_error_us == 0 && p.samples == 0
            }),
    {
        if let Some(ix) = self.find(id) {
            return ix;
        }
        let mut target: usize = 0;
        let mut k: usize = 1;
        let mut free = false;
        while k < MAX_PEERS && !free
            invariant
                self.wf(),
                self@ == old(self)@,
                1 <= k <= MAX_PEERS,
                target < MAX_PEERS,
                free ==> first_free(self@, k as int) == Some(target as int),
                !free ==> first_free(self@, k as int) is None && target == stalest(self@, k as int),
            decreases MAX_PEERS - k,
        {
            if !self.peers[k].valid {
                target = k;
                free = true;
            } else if self.peers[k].last_seen_us < self.peers[target].last_seen_us {
                target = k;
            }
            k += 1;
        }
        proof {
            if free {
                lemma_first_free_grows(self@, k as int, MAX_PEERS as int);
            }
            assert(target as int == new_slot(old(self)@));
        }
        let ghost before = self@;
        self.peers[target] = Peer {
            id,
            root_id: 0,
            stratum: MAX_STRATUM,
            last_seen_us: now_us,
            delay_us: 0,
            jitter_us: 0,
            last_error_us: 0,
            samples: 0,
            valid: true,
        };
        proof {
            assert forall|i: int, j: int|
                0 <= i < MAX_PEERS && 0 <= j < MAX_PEERS && i != j && (#[trigger] self@[i]).is_occupied()
                    && (#[trigger] self@[j]).is_occupied() implies self@[i].id != self@[j].id by {
                if i == target {
                    assert(!old(self).holds(id, j));
                } else if j == target {
                    assert(!old(self).holds(id, i));
                } else {
                    assert(self@[i] == before[i] && self@[j] == before[j]);
                }
            }
        }
        target
    }

    /// Record a beacon: refresh topology and liveness only.
    pub fn observe_beacon(&mut self, id: NodeId, root_id: NodeId, stratum: u8, now_us: Micros)
        requires
            old(self).wf(),
        ensures
            final(self).wf(),
            beacon_update(old(self)@, final(self)@, id, root_id, stratum, now_us),
            peers_in_range(old(self)@) ==> peers_in_range(final(self)@),
    {
        let ix = self.slot(id, now_us);
        let ghost mid = self@;
        let mut p = self.peers[ix];
        p.root_id = root_id;
        p.stratum = stratum;
        p.last_seen_us = now_us;
        self.peers[ix] = p;
        proof {
            assert(self@[ix as int].is_occupied() == mid[ix as int].is_occupied());
            assert(forall|j: int| 0 <= j < MAX_PEERS && j != ix ==> self@[j] == mid[j]);
            let s0 = old(self)@;
            assert(old(self).knows(id) == (exists|j: int| 0 <= j < MAX_PEERS && s0[j].is_occupied() && s0[j].id == id)) by {
                if exists|j: int| 0 <= j < MAX_PEERS && s0[j].is_occupied() && s0[j].id == id {
                    let j = choose|j: int| 0 <= j < MAX_PEERS && s0[j].is_occupied() && s0[j].id == id;
                    assert(old(self).holds(id, j));
                }
            }
            assert(self@[ix as int] == self@[ix as int]);
        }
    }

    /// Record a completed probe exchange: update smoothed delay (1/8 of the
    /// deviation per sample) and jitter (1/4), and the last measured error.
    pub fn observe_probe(
        &mut self,
        id: NodeId,
        root_id: NodeId,
        stratum: u8,
        delay_us: Micros,
        error_us: Micros,
        now_us: Micros,
    )
        requires
            old(self).wf(),
            forall|i: int|
                0 <= i < MAX_PEERS && (#[trigger] old(self)@[i]).is_occupied() && old(self)@[i].id == id
                    ==> probe_fits(old(self)@[i], delay_us),
        ensures
            final(self).wf(),
            probe_update(old(self)@, final(self)@, id, root_id, stratum, delay_us, error_us, now_us),
            peers_in_range(old(self)@) && -MAX_DELAY_US <= delay_us <= MAX_DELAY_US ==> peers_in_range(final(self)@),
    {
        let ix = self.slot(id, now_us);
        let ghost mid = self@;
        let mut p = self.peers[ix];
        p.root_id = root_id;
        p.stratum = stratum;
        p.last_seen_us = now_us;
        p.last_error_us = error_us;
        if p.samples == 0 {
            p.delay_us = delay_us;
            p.jitter_us = delay_us / 4;
        } else {
            proof {
                assert(probe_fits(mid[ix as int], delay_us));
            }
            let d_err = delay_us - p.delay_us;
            proof {
                lemma_trunc8_between(d_err as int);
            }
            p.delay_us = p.delay_us + d_err / 8;
            let diff = delay_us - p.delay_us;
            let dev = if diff < 0 {
                -diff
            } else {
                diff
            };
            p.jitter_us = p.jitter_us + (dev - p.jitter_us) / 4;
        }
        p.samples = p.samples.saturating_add(1);
        self.peers[ix] = p;
        proof {
            assert(self@[ix as int].is_occupied() == mid[ix as int].is_occupied());
            assert(forall|j: int| 0 <= j < MAX_PEERS && j != ix ==> self@[j] == mid[j]);
            let s0 = old(self)@;
            assert(old(self).knows(id) == (exists|j: int| 0 <= j < MAX_PEERS && s0[j].is_occupied() && s0[j].id == id)) by {
                if exists|j: int| 0 <= j < MAX_PEERS && s0[j].is_occupied() && s0[j].id == id {
                    let j = choose|j: int| 0 <= j < MAX_PEERS && s0[j].is_occupied() && s0[j].id == id;
                    assert(old(self).holds(id, j));
                }
            }
            assert(self@[ix as int] == self@[ix as int]);
        }
    }
}

impl PeerTable {
    /// The entry for `id`, if a slot holds it.
    pub fn get(&self, id: NodeId) -> (r: Option<&Peer>)
        requires
            self.wf(),
        ensures
            r is Some <==> self.knows(id),
            r matches Some(p) ==> exists|i: int| self.holds(id, i) && *p == #[trigger] self@[i],
    {
        match self.find(id) {
            Some(ix) => Some(&self.peers[ix]),
            None => None,
        }
    }

    /// The fresh peers, in slot order.
    pub fn fresh_peers(&self, now_us: Micros) -> (r: Vec<Peer>)
        requires
            self.wf(),
        ensures
            r@ == fresh_of(self@, now_us),
    {
        let mut out: Vec<Peer> = Vec::new();
        let mut i: usize = 0;
        while i < MAX_PEERS
            invariant
                self.wf(),
                i <= MAX_PEERS,
                out@ == fresh_of(self@.take(i as int), now_us),
            decreases MAX_PEERS - i,
        {
            proof {
                assert(self@.take(i as int + 1).drop_last() =~= self@.take(i as int));
                assert(self@.take(i as int + 1).last() == self@[i as int]);
            }
            if self.peers[i].fresh(now_us) {
                out.push(self.peers[i]);
            }
            i += 1;
        }
        assert(self@.take(MAX_PEERS as int) =~= self@);
        out
    }

    /// How many peers are fresh.
    pub fn fresh_count(&self, now_us: Micros) -> (r: u8)
        requires
            self.wf(),
        ensures
            r == fresh_of(self@, now_us).len(),
    {
        let fresh = self.fresh_peers(now_us);
        proof {
            lemma_fresh_of_len(self@, now_us);
        }
        fresh.len() as u8
    }

    /// Smallest delay among fresh, measured peers, for outlier rejection.
    pub fn best_delay_us(&self, now_us: Micros) -> (r: Option<Micros>)
        requires
            self.wf(),
        ensures
            r is None <==> !exists|i: int| 0 <= i < MAX_PEERS && is_fresh(#[trigger] self@[i], now_us) && self@[i].samples > 0,
            r matches Some(d) ==> (exists|i: int|
                0 <= i < MAX_PEERS && is_fresh(#[trigger] self@[i], now_us) && self@[i].samples > 0 && self@[i].delay_us == d)
                && (forall|i: int|
                0 <= i < MAX_PEERS && is_fresh(#[trigger] self@[i], now_us) && self@[i].samples > 0 ==> d <= self@[i].delay_us),
    {
        let mut best: Option<Micros> = None;
        let mut i: usize = 0;
        while i < MAX_PEERS
            invariant
                self.wf(),
                i <= MAX_PEERS,
                best is None <==> !exists|j: int| 0 <= j < i && is_fresh(#[trigger] self@[j], now_us) && self@[j].samples > 0,
                best matches Some(d) ==> (exists|j: int|
                    0 <= j < i && is_fresh(#[trigger] self@[j], now_us) && self@[j].samples > 0 && self@[j].delay_us == d)
                    && (forall|j: int|
                    0 <= j < i && is_fresh(#[trigger] self@[j], now_us) && self@[j].samples > 0 ==> d <= self@[j].delay_us),
            decreases MAX_PEERS - i,
        {
            let p = self.peers[i];
            if p.fresh(now_us) && p.samples > 0 {
                best = match best {
                    Some(d) => if p.delay_us < d {
                        Some(p.delay_us)
                    } else {
                        Some(d)
                    },
                    None => Some(p.delay_us),
                };
            }
            i += 1;
        }
        best
    }

    /// Distributed root election: the root is the lowest node id anyone can
    /// reach. Among fresh peers advertising a reachable root (stratum below
    /// the cap), the lowest advertised root wins if it is below `self_id`,
    /// reached through the peer nearest to it; otherwise this node is the
    /// root at stratum 0. Returns `(root_id, our_stratum)`.
    pub fn elect_root(&self, self_id: NodeId, now_us: Micros) -> (r: (NodeId, u8))
        requires
            self.wf(),
        ensures
            elected(self@, self_id, now_us, r.0, r.1),
    {
        let mut root = self_id;
        let mut stratum: u8 = 0;
        let mut i: usize = 0;
        while i < MAX_PEERS
            invariant
                self.wf(),
                i <= MAX_PEERS,
                root <= self_id,
                forall|j: int| 0 <= j < i && is_eligible(#[trigger] self@[j], now_us) ==> root <= self@[j].root_id,
                root == self_id ==> stratum == 0,
                root != self_id ==> (exists|j: int|
                    0 <= j < i && is_eligible(#[trigger] self@[j], now_us) && self@[j].root_id == root
                        && stratum == self@[j].stratum + 1),
                root != self_id ==> forall|j: int|
                    0 <= j < i && is_eligible(#[trigger] self@[j], now_us) && self@[j].root_id == root
                        ==> stratum <= self@[j].stratum + 1,
            decreases MAX_PEERS - i,
        {
            let peer = self.peers[i];
            if peer.fresh(now_us) && peer.stratum < MAX_STRATUM {
                let cand_root = peer.root_id;
                let cand_stratum = peer.stratum.saturating_add(1);
                if cand_root < root || (cand_root == root && cand_stratum < stratum) {
                    root = cand_root;
                    stratum = cand_stratum;
                }
            }
            i += 1;
        }
        (root, stratum)
    }
}

/// `t` is `s` after a beacon from `id`: exactly one slot now holds `id`
/// (the one that held it, or a reset one), refreshed with the advertised
/// root and stratum at `now_us`; every other slot is unchanged.
pub open spec fn beacon_update(s: Seq<Peer>, t: Seq<Peer>, id: NodeId, root_id: NodeId, stratum: u8, now_us: Micros) -> bool {
    exists|ix: int| #![trigger t[ix]] {
        let known = exists|j: int| 0 <= j < MAX_PEERS && s[j].is_occupied() && s[j].id == id;
        &&& 0 <= ix < MAX_PEERS
        &&& t[ix].is_occupied() && t[ix].id == id
        &&& t[ix].root_id == root_id && t[ix].stratum == stratum && t[ix].last_seen_us == now_us
        &&& known ==> s[ix].is_occupied() && s[ix].id == id && t[ix] == (Peer { root_id, stratum, last_seen_us: now_us, ..s[ix] })
        &&& !known ==> t[ix].delay_us == 0 && t[ix].jitter_us == 0 && t[ix].last_error_us == 0 && t[ix].samples == 0
        &&& !known ==> ix == new_slot(s)
        &&& forall|j: int| 0 <= j < MAX_PEERS && j != ix ==> t[j] == s[j]
    }
}

/// `t` is `s` after a completed probe with `id`: exactly one slot now holds
/// `id` (the one that held it, or a reset one) with the advertised root and
/// stratum, the error, one more sample, and delay and jitter smoothed (or
/// seeded by a first sample); every other slot is unchanged.
pub open spec fn probe_update(
    s: Seq<Peer>,
    t: Seq<Peer>,
    id: NodeId,
    root_id: NodeId,
    stratum: u8,
    delay_us: Micros,
    error_us: Micros,
    now_us: Micros,
) -> bool {
    exists|ix: int| #![trigger t[ix]] {
        let known = exists|j: int| 0 <= j < MAX_PEERS && s[j].is_occupied() && s[j].id == id;
        let o = if known { s[ix] } else { Peer { samples: 0, ..s[ix] } };
        let n = t[ix];
        &&& 0 <= ix < MAX_PEERS
        &&& n.is_occupied() && n.id == id
        &&& known ==> s[ix].is_occupied() && s[ix].id == id
        &&& !known ==> ix == new_slot(s)
        &&& n.root_id == root_id && n.stratum == stratum && n.last_seen_us == now_us
        &&& n.last_error_us == error_us
        &&& n.samples == if o.samples == u32::MAX { u32::MAX } else { (o.samples + 1) as u32 }
        &&& o.samples == 0 ==> n.delay_us == delay_us && n.jitter_us == trunc4(delay_us as int)
        &&& o.samples != 0 ==> ({
            let d = o.delay_us + trunc8(delay_us - o.delay_us);
            let dev = if delay_us - d < 0 { d - delay_us } else { delay_us - d };
            n.delay_us == d && n.jitter_us == o.jitter_us + trunc4(dev - o.jitter_us)
        })
        &&& forall|j: int| 0 <= j < MAX_PEERS && j != ix ==> t[j] == s[j]
    }
}

/// The first slot from slot 1 up to (not including) `k` that holds no peer.
pub open spec fn first_free(s: Seq<Peer>, k: int) -> Option<int>
    decreases k,
{
    if k <= 1 {
        None
    } else {
        match first_free(s, k - 1) {
            Some(j) => Some(j),
            None => if !s[k - 1].is_occupied() {
                Some(k - 1)
            } else {
                None
            },
        }
    }
}

/// The slot among the first `k` (at least one) heard least recently, the
/// lowest on ties.
pub open spec fn stalest(s: Seq<Peer>, k: int) -> int
    decreases k,
{
    if k <= 1 {
        0
    } else {
        let p = stalest(s, k - 1);
        if s[k - 1].last_seen_us < s[p].last_seen_us {
            k - 1
        } else {
            p
        }
    }
}

/// The slot a new peer takes: the first free slot from slot 1, else the
/// stalest slot. No peer is dropped while a slot after the first is free.
pub open spec fn new_slot(s: Seq<Peer>) -> int {
    match first_free(s, MAX_PEERS as int) {
        Some(j) => j,
        None => stalest(s, MAX_PEERS as int),
    }
}

proof fn lemma_first_free_grows(s: Seq<Peer>, k: int, k2: int)
    requires
        k <= k2,
        first_free(s, k) is Some,
    ensures
        first_free(s, k2) == first_free(s, k),
    decreases k2 - k,
{
    if k < k2 {
        lemma_first_free_grows(s, k, k2 - 1);
    }
}

proof fn lemma_stalest_range(s: Seq<Peer>, k: int)
    ensures
        0 <= stalest(s, k) < (if k <= 1 { 1 } else { k }),
    decreases k,
{
    if k > 1 {
        lemma_stalest_range(s, k - 1);
    }
}

proof fn lemma_first_free_spec(s: Seq<Peer>, k: int)
    ensures
        first_free(s, k) matches Some(j) ==> 1 <= j < k && !s[j].is_occupied(),
        first_free(s, k) is None ==> forall|i: int| 1 <= i < k ==> (#[trigger] s[i]).is_occupied(),
    decreases k,
{
    if k > 1 {
        lemma_first_free_spec(s, k - 1);
    }
}

proof fn lemma_stalest_keeps_never_heard_first(s: Seq<Peer>, k: int)
    requires
        s[0].last_seen_us == i64::MIN,
    ensures
        stalest(s, k) == 0,
    decreases k,
{
    if k > 1 {
        lemma_stalest_keeps_never_heard_first(s, k - 1);
    }
}

/// A new peer drops no one while any slot is free: the slot it takes holds
/// a peer only when every slot does.
pub proof fn lemma_new_peer_evicts_only_when_full(s: Seq<Peer>)
    requires
        table_wf(s),
    ensures
        0 <= new_slot(s) < MAX_PEERS,
        s[new_slot(s)].is_occupied() ==> forall|i: int| 0 <= i < MAX_PEERS ==> (#[trigger] s[i]).is_occupied(),
{
    lemma_first_free_spec(s, MAX_PEERS as int);
    lemma_stalest_range(s, MAX_PEERS as int);
    if first_free(s, MAX_PEERS as int) is None && !s[0].is_occupied() {
        lemma_stalest_keeps_never_heard_first(s, MAX_PEERS as int);
    }
    if s[new_slot(s)].is_occupied() {
        assert forall|i: int| 0 <= i < MAX_PEERS implies (#[trigger] s[i]).is_occupied() by {
            if i == 0 && !s[0].is_occupied() {
                lemma_stalest_keeps_never_heard_first(s, MAX_PEERS as int);
            }
        }
    }
}

/// A truncated eighth lies between zero and the value.
proof fn lemma_trunc8_between(x: int)
    ensures
        x >= 0 ==> 0 <= trunc8(x) <= x,
        x < 0 ==> x <= trunc8(x) <= 0,
{
}

/// A slot within the smoothing bounds takes any delay within
/// [`MAX_DELAY_US`], and weighs, in 64 bits.
pub(crate) proof fn lemma_in_range_fits(p: Peer, delay_us: Micros, now_us: Micros)
    requires
        peer_in_range(p),
        -MAX_DELAY_US <= delay_us <= MAX_DELAY_US,
    ensures
        probe_fits(p, delay_us),
        weight_fits(p, now_us),
{
    lemma_trunc8_between(delay_us - p.delay_us);
}

/// `x / 8`, rounded toward zero.
pub open spec fn trunc8(x: int) -> int {
    crate::arith::trunc_div(x, 8)
}

/// `x / 4`, rounded toward zero.
pub open spec fn trunc4(x: int) -> int {
    crate::arith::trunc_div(x, 4)
}

} // verus!
