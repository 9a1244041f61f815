//! The mesh sync state machine, one per box.
//!
//! Firmware (and the simulator) drives it with timestamped received frames
//! ([`SyncEngine::handle`]), periodic "what should I send?" polls
//! ([`SyncEngine::due_beacon`] / [`SyncEngine::due_probe`]), and the local
//! hardware clock for scheduling ([`SyncEngine::schedule_now`]). The engine
//! owns the policy: lowest-id root election, an NTP-style probe exchange with
//! upstream peers, weighted discipline of the mesh clock with outlier
//! rejection, and a clean re-step when the root changes.
use crate::arith::{clamp, sat_sub_i64, saturating_sub_i64};
use crate::clock::{spec_root_from_local, DisciplineConfig};
use crate::mesh::clock::{
    spec_mesh_observe, spec_schedule_now, MeshClock, MeshClockView,
};
use crate::mesh::peer::{
    beacon_update, elected, is_fresh, peers_in_range, probe_update, spec_weight, table_wf, Peer, PeerTable,
    MAX_DELAY_US, MAX_PEERS,
};
use crate::mesh::wire::{Beacon, MeshMessage, ProbeRequest, ProbeResponse};
use crate::transport::in_i64;
use crate::{Micros, NodeId};
use vstd::prelude::*;

verus! {

pub const BEACON_INTERVAL_US: Micros = 300_000;

pub const PROBE_INTERVAL_US: Micros = 400_000;

/// A probe whose one-way delay is far above the best seen is likely a
/// retransmit or a congested slot, not a real path.
pub const OUTLIER_DELAY_FACTOR: Micros = 4;

pub const OUTLIER_DELAY_SLACK_US: Micros = 1_000;

pub const MAX_ROSTER: usize = 13;

/// The rate limit the engine disciplines its clock under.
pub const ENGINE_MAX_RATE_PPB: i32 = 300_000;

/// The state of an engine, as the contracts speak of it.
pub struct SyncView {
    pub node_id: NodeId,
    pub clock: MeshClockView,
    pub peers: Seq<Peer>,
    pub root_id: NodeId,
    pub stratum: u8,
    pub epoch: u32,
    pub seq: u32,
    pub last_beacon_us: Micros,
    pub last_probe_us: Micros,
    pub probe_cursor: usize,
}

/// Engine invariant: a well-formed peer table within the smoothing bounds,
/// a rate estimate within the engine's discipline limit, and a probe cursor
/// within the table.
pub open spec fn sync_wf(v: SyncView) -> bool {
    &&& table_wf(v.peers)
    &&& peers_in_range(v.peers)
    &&& -ENGINE_MAX_RATE_PPB <= v.clock.model.rate_ppb <= ENGINE_MAX_RATE_PPB
    &&& v.probe_cursor <= MAX_PEERS
}

/// Smoothing for a discipline step: higher-weight peers correct faster.
pub open spec fn spec_discipline_cfg(weight: u32) -> DisciplineConfig {
    DisciplineConfig {
        offset_smoothing_shift: if weight > 2_000 { 3 } else if weight > 500 { 4 } else { 5 },
        rate_smoothing_shift: 5,
        max_rate_ppb: ENGINE_MAX_RATE_PPB,
        reject_offset_us: 40_000,
    }
}

/// A fresh, measured peer strictly closer to the root than `stratum`.
pub open spec fn upstream_sampled(p: Peer, now_us: Micros, stratum: u8) -> bool {
    is_fresh(p, now_us) && p.stratum < stratum && p.samples > 0
}

/// A peer's path cost (delay plus jitter) as a non-negative `i32`.
pub open spec fn path_cost(p: Peer) -> i32 {
    clamp(p.delay_us + p.jitter_us, 0, i32::MAX as int) as i32
}

/// The dispersion a node reports: zero at the root, else the lowest path
/// cost among measured upstream peers, or `i32::MAX` when there are none.
pub open spec fn is_dispersion(v: SyncView, now_us: Micros, r: i32) -> bool {
    if v.root_id == v.node_id {
        r == 0
    } else if !exists|i: int| 0 <= i < MAX_PEERS && upstream_sampled(#[trigger] v.peers[i], now_us, v.stratum) {
        r == i32::MAX
    } else {
        &&& exists|i: int| 0 <= i < MAX_PEERS && upstream_sampled(#[trigger] v.peers[i], now_us, v.stratum) && r == path_cost(v.peers[i])
        &&& forall|i: int| 0 <= i < MAX_PEERS && upstream_sampled(#[trigger] v.peers[i], now_us, v.stratum) ==> r <= path_cost(v.peers[i])
    }
}

/// Fresh, measured peers: the smallest delay among them is `best`.
pub open spec fn is_best_delay(s: Seq<Peer>, now_us: Micros, best: Micros) -> bool {
    &&& exists|i: int| 0 <= i < MAX_PEERS && is_fresh(#[trigger] s[i], now_us) && s[i].samples > 0 && s[i].delay_us == best
    &&& forall|i: int| 0 <= i < MAX_PEERS && is_fresh(#[trigger] s[i], now_us) && s[i].samples > 0 ==> best <= s[i].delay_us
}

/// A delay far above the best fresh, measured delay.
pub open spec fn is_outlier(s: Seq<Peer>, now_us: Micros, delay: Micros) -> bool {
    exists|best: Micros| is_best_delay(s, now_us, best) && delay > best * OUTLIER_DELAY_FACTOR + OUTLIER_DELAY_SLACK_US
}

/// The discipline weight of the slot holding `id`, zero if none does.
pub open spec fn weight_of(s: Seq<Peer>, id: NodeId, now_us: Micros) -> u32 {
    if exists|i: int| 0 <= i < MAX_PEERS && s[i].is_occupied() && s[i].id == id {
        spec_weight(s[choose|i: int| 0 <= i < MAX_PEERS && s[i].is_occupied() && s[i].id == id], now_us)
    } else {
        0
    }
}

/// The round trip a response measures: `(t4 - t1) - (t3 - t2)`.
pub open spec fn round_trip(r: ProbeResponse, t4_local_us: Micros) -> int {
    (t4_local_us - r.t1_local_us) - (r.t3_local_us - r.t2_local_us)
}

/// The timestamps of a response addressed to this node keep the delay and
/// error arithmetic within 64 bits and the delay within [`MAX_DELAY_US`]:
/// every later outlier threshold (the best stored delay times four, plus
/// slack) and every weight reads the stored delays, so the engine keeps its
/// table within the smoothing bounds rather than within what one call needs.
pub open spec fn response_in_range(v: SyncView, r: ProbeResponse, t4_local_us: Micros) -> bool {
    let rtt = round_trip(r, t4_local_us);
    &&& in_i64(t4_local_us - r.t1_local_us)
    &&& in_i64(r.t3_local_us - r.t2_local_us)
    &&& in_i64(rtt)
    &&& rtt >= 0 ==> ({
        let delay = rtt / 2;
        let reference = r.sender_mesh_us + delay;
        let error = reference - spec_root_from_local(v.clock.model, t4_local_us);
        &&& delay <= MAX_DELAY_US
        &&& in_i64(reference)
        &&& in_i64(error)
        &&& error != i64::MIN
    })
}

/// A received frame keeps the engine's arithmetic within range.
pub open spec fn message_in_range(v: SyncView, msg: MeshMessage, rx_local_us: Micros) -> bool {
    match msg {
        MeshMessage::ProbeResponse(r) => r.target == v.node_id ==> response_in_range(v, r, rx_local_us),
        _ => true,
    }
}

/// `w` is `v` after re-running the election at `now_us`: root and stratum
/// are the election's outcome; a changed root also moves the epoch and
/// either anchors the clock (this node leads) or asks it to re-step.
pub open spec fn reference_updated(v: SyncView, w: SyncView, now_us: Micros) -> bool {
    &&& elected(v.peers, v.node_id, now_us, w.root_id, w.stratum)
    &&& w.root_id == v.root_id ==> w.epoch == v.epoch && w.clock == v.clock
    &&& w.root_id != v.root_id ==> w.epoch == w.root_id as u32 && w.clock == (MeshClockView {
        has_reference: w.root_id == v.node_id,
        ..v.clock
    })
    &&& w.node_id == v.node_id && w.peers == v.peers && w.seq == v.seq
    &&& w.last_beacon_us == v.last_beacon_us && w.last_probe_us == v.last_probe_us
    &&& w.probe_cursor == v.probe_cursor
}

/// The ids of fresh peers strictly closer to the root, in slot order.
pub open spec fn upstream_ids(s: Seq<Peer>, now_us: Micros, stratum: u8) -> Seq<NodeId>
    decreases s.len(),
{
    if s.len() == 0 {
        Seq::empty()
    } else {
        let rest = upstream_ids(s.drop_last(), now_us, stratum);
        if is_fresh(s.last(), now_us) && s.last().stratum < stratum {
            rest.push(s.last().id)
        } else {
            rest
        }
    }
}

pub proof fn lemma_upstream_ids_len(s: Seq<Peer>, now_us: Micros, stratum: u8)
    ensures
        upstream_ids(s, now_us, stratum).len() <= s.len(),
    decreases s.len(),
{
    if s.len() > 0 {
        lemma_upstream_ids_len(s.drop_last(), now_us, stratum);
    }
}

/// The mesh membership as one node sees it: sorted unique ids and this
/// node's position among them.
#[derive(Clone, Copy, Debug)]
pub struct RosterView {
    ids: [NodeId; MAX_ROSTER],
    len: usize,
    my_index: usize,
}

impl RosterView {
    /// The member ids, ascending.
    pub closed spec fn members(&self) -> Seq<NodeId> {
        self.ids@.take(self.len as int)
    }

    /// This node's position among the members.
    pub closed spec fn position(&self) -> usize {
        self.my_index
    }

    pub closed spec fn wf(&self) -> bool {
        self.len <= MAX_ROSTER
    }

    /// A well-formed roster holds at most this node and its twelve peers.
    pub proof fn lemma_size(&self)
        requires
            self.wf(),
        ensures
            self.members().len() <= MAX_ROSTER,
    {
    }

    pub fn ids(&self) -> (r: &[NodeId])
        requires
            self.wf(),
        ensures
            r@ == self.members(),
    {
        vstd::slice::slice_subrange(vstd::array::array_as_slice(&self.ids), 0, self.len)
    }

    pub fn len(&self) -> (r: usize)
        requires
            self.wf(),
        ensures
            r == self.members().len(),
    {
        self.len
    }

    pub fn is_empty(&self) -> (r: bool)
        requires
            self.wf(),
        ensures
            r == (self.members().len() == 0),
    {
        self.len == 0
    }

    pub fn my_index(&self) -> (r: usize)
        ensures
            r == self.position(),
    {
        self.my_index
    }
}

#[derive(Clone, Copy, Debug, PartialEq, Eq, Structural)]
pub struct SyncQuality {
    pub root_id: NodeId,
    pub stratum: u8,
    pub peers: u8,
    pub dispersion_us: i32,
    pub is_root: bool,
    pub synced: bool,
}

/// `w` is the engine `v` becomes on ingesting `msg` at `rx_local_us`, and
/// `r` the reply it answers with.
pub open spec fn handled(v: SyncView, w: SyncView, msg: MeshMessage, rx_local_us: Micros, r: Option<MeshMessage>) -> bool {
    &&& w.node_id == v.node_id
    &&& match msg {
        MeshMessage::Beacon(b) => r is None && if b.sender != v.node_id {
            beacon_update(v.peers, w.peers, b.sender, b.root_id, b.stratum, rx_local_us)
                && reference_updated(SyncView { peers: w.peers, ..v }, w, rx_local_us)
        } else {
            w == v
        },
        MeshMessage::ProbeRequest(p) => w == v && if p.target != v.node_id {
            r is None
        } else {
            r == Some(MeshMessage::ProbeResponse(ProbeResponse {
                sender: v.node_id,
                target: p.sender,
                t1_local_us: p.t1_local_us,
                t2_local_us: rx_local_us,
                t3_local_us: rx_local_us,
                sender_mesh_us: spec_root_from_local(v.clock.model, rx_local_us),
                root_id: v.root_id,
                stratum: v.stratum,
                seq: p.seq,
            }))
        },
        MeshMessage::ProbeResponse(resp) => r is None && if resp.target != v.node_id {
            w == v
        } else {
            ingested(v, w, resp, rx_local_us)
        },
    }
}

/// `w` is the engine `v` becomes when polled for a beacon at `now_us`, and
/// `r` the beacon it sends, if the interval has elapsed.
pub open spec fn beacon_polled(v: SyncView, w: SyncView, now_us: Micros, r: Option<MeshMessage>) -> bool {
    let lb = if now_us < v.last_beacon_us { now_us } else { v.last_beacon_us };
    if sat_sub_i64(now_us, lb) < BEACON_INTERVAL_US {
        r is None && w == (SyncView { last_beacon_us: lb, ..v })
    } else {
        &&& reference_updated(
            v,
            SyncView { last_beacon_us: v.last_beacon_us, seq: v.seq, ..w },
            now_us,
        )
        &&& w.last_beacon_us == now_us
        &&& w.seq == v.seq.wrapping_add(1)
        &&& r matches Some(MeshMessage::Beacon(b)) && {
            &&& b.sender == w.node_id
            &&& b.root_id == w.root_id
            &&& b.epoch == w.epoch
            &&& b.stratum == w.stratum
            &&& b.seq == w.seq
            &&& b.mesh_us == spec_root_from_local(w.clock.model, now_us)
            &&& b.rate_ppb == w.clock.model.rate_ppb
            &&& is_dispersion(w, now_us, b.root_dispersion_us)
        }
    }
}

/// `w` is the engine `v` becomes when polled for a probe at `now_us`, and
/// `r` the probe it sends (with its destination), if one is due.
pub open spec fn probe_polled(v: SyncView, w: SyncView, now_us: Micros, r: Option<(NodeId, MeshMessage)>) -> bool {
    let lp = if now_us < v.last_probe_us { now_us } else { v.last_probe_us };
    let ids = upstream_ids(v.peers, now_us, v.stratum);
    if sat_sub_i64(now_us, lp) < PROBE_INTERVAL_US || ids.len() == 0 {
        r is None && w == (SyncView { last_probe_us: lp, ..v })
    } else {
        let cursor = ((v.probe_cursor + 1) % (ids.len() as int)) as usize;
        let seq = v.seq.wrapping_add(1);
        &&& w == (SyncView {
            last_probe_us: now_us,
            seq,
            probe_cursor: cursor,
            ..v
        })
        &&& r == Some((
            ids[cursor as int],
            MeshMessage::ProbeRequest(ProbeRequest {
                sender: v.node_id,
                target: ids[cursor as int],
                t1_local_us: now_us,
                seq,
            }),
        ))
    }
}

/// `m` is the roster the engine `v` sees at `now_us`, with this node at
/// `pos`: this node and every fresh peer, each once, ascending.
pub open spec fn roster_of(v: SyncView, now_us: Micros, m: Seq<NodeId>, pos: int) -> bool {
    &&& strictly_ascending(m)
    &&& 0 <= pos < m.len()
    &&& m[pos] == v.node_id
    &&& forall|x: NodeId| m.contains(x) <==> (x == v.node_id || exists|i: int|
        0 <= i < MAX_PEERS && is_fresh(#[trigger] v.peers[i], now_us) && v.peers[i].id == x)
}

#[derive(Clone, Copy, Debug)]
pub struct SyncEngine {
    node_id: NodeId,
    clock: MeshClock,
    peers: PeerTable,
    root_id: NodeId,
    stratum: u8,
    epoch: u32,
    seq: u32,
    last_beacon_us: Micros,
    last_probe_us: Micros,
    probe_cursor: usize,
}

impl View for SyncEngine {
    type V = SyncView;

    closed spec fn view(&self) -> SyncView {
        SyncView {
            node_id: self.node_id,
            clock: self.clock@,
            peers: self.peers@,
            root_id: self.root_id,
            stratum: self.stratum,
            epoch: self.epoch,
            seq: self.seq,
            last_beacon_us: self.last_beacon_us,
            last_probe_us: self.last_probe_us,
            probe_cursor: self.probe_cursor,
        }
    }
}

impl SyncEngine {
    pub open spec fn wf(&self) -> bool {
        sync_wf(self@)
    }

    /// A lone box: the root of its own timeline, knowing no peers.
    pub fn new(node_id: NodeId) -> (r: Self)
        ensures
            r.wf(),
            r@.node_id == node_id,
            r@.root_id == node_id,
            r@.stratum == 0,
            r@.epoch == node_id as u32,
            r@.seq == 0,
            r@.clock == (MeshClockView { has_reference: true, ..MeshClock::spec_new() }),
            r@.last_beacon_us == i64::MIN,
            r@.last_probe_us == i64::MIN,
            forall|i: int| 0 <= i < MAX_PEERS ==> !(#[trigger] r@.peers[i]).is_occupied(),
    {
        let mut clock = MeshClock::new();
        clock.anchor_as_root();
        Self {
            node_id,
            clock,
            peers: PeerTable::new(),
            root_id: node_id,
            stratum: 0,
            epoch: node_id as u32,
            seq: 0,
            last_beacon_us: i64::MIN,
            last_probe_us: i64::MIN,
            probe_cursor: 0,
        }
    }

    pub fn node_id(&self) -> (r: NodeId)
        ensures
            r == self@.node_id,
    {
        self.node_id
    }

    pub fn is_root(&self) -> (r: bool)
        ensures
            r == (self@.root_id == self@.node_id),
    {
        self.root_id == self.node_id
    }

    /// Monotonic mesh time for scheduling musical events.
    pub fn schedule_now(&mut self, local_us: Micros) -> (r: Micros)
        requires
            old(self).wf(),
        ensures
            final(self).wf(),
            (final(self)@.clock, r) == spec_schedule_now(old(self)@.clock, local_us),
            final(self)@ == (SyncView { clock: final(self)@.clock, ..old(self)@ }),
            old(self)@.clock.last_emitted_us != i64::MIN && old(self)@.clock.last_local_us != i64::MIN
                ==> r >= old(self)@.clock.last_emitted_us,
    {
        self.clock.schedule_now(local_us)
    }

    /// Mesh time for measurement and display (it may step).
    pub fn mesh_from_local(&self, local_us: Micros) -> (r: Micros)
        ensures
            r == spec_root_from_local(self@.clock.model, local_us),
    {
        self.clock.mesh_from_local(local_us)
    }

    fn dispersion_us(&self, now_us: Micros) -> (r: i32)
        requires
            self.wf(),
        ensures
            is_dispersion(self@, now_us, r),
    {
        if self.is_root() {
            return 0;
        }
        let mut best: Option<i32> = None;
        let mut i: usize = 0;
        while i < MAX_PEERS
            invariant
                self.wf(),
                self@.root_id != self@.node_id,
                i <= MAX_PEERS,
                best is None <==> !exists|j: int| 0 <= j < i && upstream_sampled(#[trigger] self@.peers[j], now_us, self@.stratum),
                best matches Some(d) ==> (exists|j: int| 0 <= j < i && upstream_sampled(#[trigger] self@.peers[j], now_us, self@.stratum) && d == path_cost(self@.peers[j]))
                    && (forall|j: int| 0 <= j < i && upstream_sampled(#[trigger] self@.peers[j], now_us, self@.stratum) ==> d <= path_cost(self@.peers[j])),
            decreases MAX_PEERS - i,
        {
            let p = self.peers.slot_at(i);
            if p.fresh(now_us) && p.stratum < self.stratum && p.samples > 0 {
                let c = p.delay_us + p.jitter_us;
                let cost: i32 = if c < 0 {
                    0
                } else if c > i32::MAX as i64 {
                    i32::MAX
                } else {
                    c as i32
                };
                best = match best {
                    Some(d) => if cost < d {
                        Some(cost)
                    } else {
                        Some(d)
                    },
                    None => Some(cost),
                };
            }
            i += 1;
        }
        match best {
            Some(d) => d,
            None => i32::MAX,
        }
    }

    /// Root, stratum, fresh peer count, dispersion, and whether this node is
    /// the root or synchronized to one.
    pub fn quality(&self, now_us: Micros) -> (r: SyncQuality)
        requires
            self.wf(),
        ensures
            r.root_id == self@.root_id,
            r.stratum == self@.stratum,
            r.peers == crate::mesh::peer::fresh_of(self@.peers, now_us).len(),
            is_dispersion(self@, now_us, r.dispersion_us),
            r.is_root == (self@.root_id == self@.node_id),
            r.synced == (self@.root_id == self@.node_id || (self@.stratum > 0 && self@.clock.has_reference)),
    {
        SyncQuality {
            root_id: self.root_id,
            stratum: self.stratum,
            peers: self.peers.fresh_count(now_us),
            dispersion_us: self.dispersion_us(now_us),
            is_root: self.is_root(),
            synced: self.is_root() || (self.stratum > 0 && self.clock.has_reference()),
        }
    }

    fn update_reference(&mut self, now_us: Micros)
        requires
            old(self).wf(),
        ensures
            final(self).wf(),
            reference_updated(old(self)@, final(self)@, now_us),
    {
        let (root, stratum) = self.peers.elect_root(self.node_id, now_us);
        if root == self.root_id {
            self.stratum = stratum;
            return;
        }
        self.root_id = root;
        self.epoch = root as u32;
        if root == self.node_id {
            self.stratum = 0;
            self.clock.anchor_as_root();
        } else {
            self.stratum = stratum;
            self.clock.request_resync();
        }
    }

    /// Ingest a received frame, returning an immediate reply to unicast
    /// back: only a probe request addressed to this node gets one.
    pub fn handle(&mut self, msg: MeshMessage, rx_local_us: Micros) -> (r: Option<MeshMessage>)
        requires
            old(self).wf(),
            message_in_range(old(self)@, msg, rx_local_us),
        ensures
            final(self).wf(),
            final(self)@.node_id == old(self)@.node_id,
            handled(old(self)@, final(self)@, msg, rx_local_us, r),
    {
        match msg {
            MeshMessage::Beacon(b) => {
                if b.sender != self.node_id {
                    self.peers.observe_beacon(b.sender, b.root_id, b.stratum, rx_local_us);
                    self.update_reference(rx_local_us);
                }
                None
            },
            MeshMessage::ProbeRequest(p) => {
                if p.target != self.node_id {
                    return None;
                }
                // t2 = receive, t3 = transmit, approximated as equal; firmware
                // may overwrite t3 and the mesh reading at the real send instant.
                Some(
                    MeshMessage::ProbeResponse(
                        ProbeResponse {
                            sender: self.node_id,
                            target: p.sender,
                            t1_local_us: p.t1_local_us,
                            t2_local_us: rx_local_us,
                            t3_local_us: rx_local_us,
                            sender_mesh_us: self.clock.mesh_from_local(rx_local_us),
                            root_id: self.root_id,
                            stratum: self.stratum,
                            seq: p.seq,
                        },
                    ),
                )
            },
            MeshMessage::ProbeResponse(resp) => {
                if resp.target == self.node_id {
                    self.ingest_response(resp, rx_local_us);
                }
                None
            },
        }
    }

    /// A beacon to broadcast, if the interval has elapsed. The election is
    /// re-run on this cadence, so an isolated node recovers once its last
    /// peer expires. A local clock that stepped back restarts the interval.
    pub fn due_beacon(&mut self, now_us: Micros) -> (r: Option<MeshMessage>)
        requires
            old(self).wf(),
        ensures
            final(self).wf(),
            beacon_polled(old(self)@, final(self)@, now_us, r),
    {
        if now_us < self.last_beacon_us {
            self.last_beacon_us = now_us;
        }
        if saturating_sub_i64(now_us, self.last_beacon_us) < BEACON_INTERVAL_US {
            return None;
        }
        let ghost lb = self.last_beacon_us;
        self.update_reference(now_us);
        self.last_beacon_us = now_us;
        self.seq = self.seq.wrapping_add(1);
        Some(
            MeshMessage::Beacon(
                Beacon {
                    sender: self.node_id,
                    root_id: self.root_id,
                    epoch: self.epoch,
                    stratum: self.stratum,
                    seq: self.seq,
                    mesh_us: self.clock.mesh_from_local(now_us),
                    rate_ppb: self.clock.rate_ppb(),
                    root_dispersion_us: self.dispersion_us(now_us),
                },
            ),
        )
    }

    /// A probe to unicast to an upstream peer, if the interval has elapsed
    /// and one is known: `(destination, message)`. Upstream peers are taken
    /// in turn.
    pub fn due_probe(&mut self, now_us: Micros) -> (r: Option<(NodeId, MeshMessage)>)
        requires
            old(self).wf(),
        ensures
            final(self).wf(),
            probe_polled(old(self)@, final(self)@, now_us, r),
    {
        if now_us < self.last_probe_us {
            self.last_probe_us = now_us;
        }
        if saturating_sub_i64(now_us, self.last_probe_us) < PROBE_INTERVAL_US {
            return None;
        }
        let target = match self.next_upstream(now_us) {
            Some(t) => t,
            None => {
                return None;
            },
        };
        self.last_probe_us = now_us;
        self.seq = self.seq.wrapping_add(1);
        Some(
            (
                target,
                MeshMessage::ProbeRequest(
                    ProbeRequest { sender: self.node_id, target, t1_local_us: now_us, seq: self.seq },
                ),
            ),
        )
    }

    fn next_upstream(&mut self, now_us: Micros) -> (r: Option<NodeId>)
        requires
            old(self).wf(),
        ensures
            final(self).wf(),
            ({
                let ids = upstream_ids(old(self)@.peers, now_us, old(self)@.stratum);
                if ids.len() == 0 {
                    r is None && final(self)@ == old(self)@
                } else {
                    let cursor = ((old(self)@.probe_cursor + 1) % (ids.len() as int)) as usize;
                    r == Some(ids[cursor as int]) && final(self)@ == (SyncView { probe_cursor: cursor, ..old(self)@ })
                }
            }),
    {
        let mut ids: Vec<NodeId> = Vec::new();
        let mut i: usize = 0;
        while i < MAX_PEERS
            invariant
                self.wf(),
                i <= MAX_PEERS,
                ids@ == upstream_ids(self@.peers.take(i as int), now_us, self@.stratum),
            decreases MAX_PEERS - i,
        {
            proof {
                assert(self@.peers.take(i as int + 1).drop_last() =~= self@.peers.take(i as int));
                assert(self@.peers.take(i as int + 1).last() == self@.peers[i as int]);
            }
            let p = self.peers.slot_at(i);
            if p.fresh(now_us) && p.stratum < self.stratum {
                ids.push(p.id);
            }
            i += 1;
        }
        proof {
            assert(self@.peers.take(MAX_PEERS as int) =~= self@.peers);
            lemma_upstream_ids_len(self@.peers, now_us, self@.stratum);
        }
        let count = ids.len();
        if count == 0 {
            return None;
        }
        self.probe_cursor = (self.probe_cursor + 1) % count;
        Some(ids[self.probe_cursor])
    }

    /// The agreed mesh roster: this node plus its fresh peers, sorted by id
    /// and deduplicated, with this node's position. Every node that sees the
    /// same members derives the same roster.
    pub fn roster(&self, now_us: Micros) -> (r: RosterView)
        requires
            self.wf(),
        ensures
            r.wf(),
            roster_of(self@, now_us, r.members(), r.position() as int),
    {
        let mut sorted: Vec<NodeId> = Vec::new();
        sorted.push(self.node_id);
        proof {
            assert forall|x: NodeId| sorted@.contains(x) <==> (x == self@.node_id || exists|j: int|
                0 <= j < 0 && is_fresh(#[trigger] self@.peers[j], now_us) && self@.peers[j].id == x) by {
                if x == self@.node_id {
                    assert(sorted@[0] == x);
                }
            }
        }
        let mut i: usize = 0;
        while i < MAX_PEERS
            invariant
                self.wf(),
                i <= MAX_PEERS,
                sorted@.len() <= i + 1,
                strictly_ascending(sorted@),
                forall|x: NodeId| sorted@.contains(x) <==> (x == self@.node_id || exists|j: int|
                    0 <= j < i && is_fresh(#[trigger] self@.peers[j], now_us) && self@.peers[j].id == x),
            decreases MAX_PEERS - i,
        {
            let p = self.peers.slot_at(i);
            if p.fresh(now_us) && !contains_id(&sorted, p.id) {
                insert_ascending(&mut sorted, p.id);
            }
            proof {
                assert forall|x: NodeId| sorted@.contains(x) <==> (x == self@.node_id || exists|j: int|
                    0 <= j < i + 1 && is_fresh(#[trigger] self@.peers[j], now_us) && self@.peers[j].id == x) by {
                    if exists|j: int| 0 <= j < i + 1 && is_fresh(#[trigger] self@.peers[j], now_us) && self@.peers[j].id == x {
                        let j = choose|j: int| 0 <= j < i + 1 && is_fresh(#[trigger] self@.peers[j], now_us) && self@.peers[j].id == x;
                        if j < i {
                            assert(exists|k: int| 0 <= k < i && is_fresh(#[trigger] self@.peers[k], now_us) && self@.peers[k].id == x);
                        }
                    }
                }
            }
            i += 1;
        }
        let len = sorted.len();
        let mut ids = [0u64; MAX_ROSTER];
        let mut k: usize = 0;
        while k < len
            invariant
                len == sorted@.len(),
                len <= MAX_ROSTER,
                k <= len,
                forall|j: int| 0 <= j < k ==> ids@[j] == sorted@[j],
            decreases len - k,
        {
            ids[k] = sorted[k];
            k += 1;
        }
        assert(ids@.take(len as int) =~= sorted@);
        assert(sorted@.contains(self.node_id));
        let mut my_index: usize = 0;
        while my_index < len
            invariant
                len == sorted@.len(),
                my_index <= len,
                sorted@.contains(self@.node_id),
                forall|j: int| 0 <= j < my_index ==> sorted@[j] != self@.node_id,
            ensures
                my_index < len,
                sorted@[my_index as int] == self@.node_id,
            decreases len - my_index,
        {
            if sorted[my_index] == self.node_id {
                break;
            }
            my_index += 1;
        }
        RosterView { ids, len, my_index }
    }
    fn ingest_response(&mut self, r: ProbeResponse, t4_local_us: Micros)
        requires
            old(self).wf(),
            response_in_range(old(self)@, r, t4_local_us),
        ensures
            final(self).wf(),
            ingested(old(self)@, final(self)@, r, t4_local_us),
    {
        let rtt = (t4_local_us - r.t1_local_us) - (r.t3_local_us - r.t2_local_us);
        if rtt < 0 {
            return;  // impossible timing, drop
        }
        let delay = rtt / 2;
        let ref_at_t4 = r.sender_mesh_us + delay;
        let error = ref_at_t4 - self.clock.mesh_from_local(t4_local_us);
        let ghost before = self@;
        proof {
            assert forall|i: int|
                0 <= i < MAX_PEERS && (#[trigger] self.peers@[i]).is_occupied() && self.peers@[i].id == r.sender
                    implies crate::mesh::peer::probe_fits(self.peers@[i], delay) by {
                crate::mesh::peer::lemma_in_range_fits(self.peers@[i], delay, t4_local_us);
            }
        }
        self.peers.observe_probe(r.sender, r.root_id, r.stratum, delay, error, t4_local_us);

        // Discipline only toward peers strictly closer to the root, and only on
        // clean low-delay samples.
        let upstream = r.stratum < self.stratum;
        let outlier = match self.peers.best_delay_us(t4_local_us) {
            Some(best) => {
                proof {
                    assert(is_best_delay(self@.peers, t4_local_us, best));
                    let i = choose|i: int| 0 <= i < MAX_PEERS && is_fresh(#[trigger] self@.peers[i], t4_local_us)
                        && self@.peers[i].samples > 0 && self@.peers[i].delay_us == best;
                    assert(crate::mesh::peer::peer_in_range(self@.peers[i]));
                }
                delay > best * OUTLIER_DELAY_FACTOR + OUTLIER_DELAY_SLACK_US
            },
            None => false,
        };
        proof {
            lemma_outlier_is_best(self@.peers, t4_local_us, delay);
            assert(outlier == is_outlier(self@.peers, t4_local_us, delay)) by {
                if is_outlier(self@.peers, t4_local_us, delay) {
                    let b = choose|b: Micros| is_best_delay(self@.peers, t4_local_us, b)
                        && delay > b * OUTLIER_DELAY_FACTOR + OUTLIER_DELAY_SLACK_US;
                    let i = choose|i: int| 0 <= i < MAX_PEERS && is_fresh(#[trigger] self@.peers[i], t4_local_us)
                        && self@.peers[i].samples > 0 && self@.peers[i].delay_us == b;
                    assert(is_fresh(self@.peers[i], t4_local_us) && self@.peers[i].samples > 0);
                }
            }
            assert(delay == (round_trip(r, t4_local_us) / 2) as i64);
        }
        if upstream && !outlier && !self.is_root() {
            proof {
                lemma_weight_of(self@.peers, r.sender, t4_local_us);
            }
            let weight = match self.peers.get(r.sender) {
                Some(p) => {
                    proof {
                        let i = choose|i: int| self.peers.holds(r.sender, i) && *p == #[trigger] self.peers@[i];
                        crate::mesh::peer::lemma_in_range_fits(self.peers@[i], 0, t4_local_us);
                        assert(spec_weight(self.peers@[i], t4_local_us) == weight_of(self@.peers, r.sender, t4_local_us));
                    }
                    p.weight(t4_local_us)
                },
                None => {
                    proof {
                        if exists|i: int| 0 <= i < MAX_PEERS && self@.peers[i].is_occupied() && self@.peers[i].id == r.sender {
                            let i = choose|i: int| 0 <= i < MAX_PEERS && self@.peers[i].is_occupied() && self@.peers[i].id == r.sender;
                            assert(self.peers.holds(r.sender, i));
                        }
                    }
                    0
                },
            };
            let cfg = discipline_cfg(weight);
            self.clock.observe(t4_local_us, ref_at_t4, cfg);
        }
    }
}

/// Strictly increasing ids: sorted with no duplicates.
pub open spec fn strictly_ascending(s: Seq<NodeId>) -> bool {
    forall|i: int, j: int| 0 <= i < j < s.len() ==> s[i] < s[j]
}

/// Two strictly ascending id lists holding the same ids are the same list.
proof fn lemma_ascending_by_members(a: Seq<NodeId>, b: Seq<NodeId>)
    requires
        strictly_ascending(a),
        strictly_ascending(b),
        forall|x: NodeId| a.contains(x) <==> b.contains(x),
    ensures
        a == b,
    decreases a.len(),
{
    if a.len() == 0 {
        if b.len() > 0 {
            assert(b.contains(b[0]));
        }
        assert(b.len() == 0);
        assert(a =~= b);
    } else {
        assert(a.contains(a[0]));
        let i = choose|i: int| 0 <= i < b.len() && b[i] == a[0];
        assert(b.contains(b[0]));
        let k = choose|k: int| 0 <= k < a.len() && a[k] == b[0];
        assert(a[0] <= b[0]) by {
            if k > 0 {
                assert(a[0] < a[k]);
            }
        }
        assert(b[0] <= a[0]) by {
            if i > 0 {
                assert(b[0] < b[i]);
            }
        }
        let ar = a.drop_first();
        let br = b.drop_first();
        assert forall|x: NodeId| ar.contains(x) <==> br.contains(x) by {
            if ar.contains(x) {
                let p = choose|p: int| 0 <= p < ar.len() && ar[p] == x;
                assert(a[p + 1] == x && a[0] < a[p + 1]);
                assert(a.contains(x));
                let q = choose|q: int| 0 <= q < b.len() && b[q] == x;
                if q == 0 {
                    assert(false);
                }
                assert(br[q - 1] == x);
            }
            if br.contains(x) {
                let p = choose|p: int| 0 <= p < br.len() && br[p] == x;
                assert(b[p + 1] == x && b[0] < b[p + 1]);
                assert(b.contains(x));
                let q = choose|q: int| 0 <= q < a.len() && a[q] == x;
                if q == 0 {
                    assert(false);
                }
                assert(ar[q - 1] == x);
            }
        }
        lemma_ascending_by_members(ar, br);
        assert(a =~= b) by {
            assert forall|j: int| 0 <= j < a.len() implies a[j] == b[j] by {
                if j > 0 {
                    assert(a[j] == ar[j - 1]);
                    assert(b[j] == br[j - 1]);
                }
            }
        }
    }
}

/// The roster a box sees at a moment is one list, with the box at one
/// place in it: two rosters of the same engine at the same time agree.
pub proof fn lemma_roster_unique(v: SyncView, now_us: Micros, m1: Seq<NodeId>, p1: int, m2: Seq<NodeId>, p2: int)
    requires
        roster_of(v, now_us, m1, p1),
        roster_of(v, now_us, m2, p2),
    ensures
        m1 == m2,
        p1 == p2,
{
    assert forall|x: NodeId| m1.contains(x) <==> m2.contains(x) by {
        assert(m1.contains(x) <==> (x == v.node_id || exists|i: int|
            0 <= i < MAX_PEERS && is_fresh(#[trigger] v.peers[i], now_us) && v.peers[i].id == x));
    }
    lemma_ascending_by_members(m1, m2);
    if p1 < p2 {
        assert(m1[p1] < m1[p2]);
    } else if p2 < p1 {
        assert(m1[p2] < m1[p1]);
    }
}

fn contains_id(v: &Vec<NodeId>, x: NodeId) -> (r: bool)
    ensures
        r == v@.contains(x),
{
    let mut i: usize = 0;
    while i < v.len()
        invariant
            i <= v@.len(),
            forall|j: int| 0 <= j < i ==> v@[j] != x,
        decreases v@.len() - i,
    {
        if v[i] == x {
            return true;
        }
        i += 1;
    }
    false
}

/// Insert an absent id into a strictly ascending list.
fn insert_ascending(v: &mut Vec<NodeId>, x: NodeId)
    requires
        strictly_ascending(old(v)@),
        !old(v)@.contains(x),
    ensures
        strictly_ascending(final(v)@),
        final(v)@.len() == old(v)@.len() + 1,
        forall|y: NodeId| final(v)@.contains(y) <==> (old(v)@.contains(y) || y == x),
{
    let mut p: usize = 0;
    while p < v.len()
        invariant
            v@ == old(v)@,
            !old(v)@.contains(x),
            p <= v@.len(),
            forall|j: int| 0 <= j < p ==> v@[j] < x,
        ensures
            v@ == old(v)@,
            p <= v@.len(),
            forall|j: int| 0 <= j < p ==> v@[j] < x,
            p < v@.len() ==> v@[p as int] > x,
        decreases v@.len() - p,
    {
        if v[p] > x {
            break;
        }
        assert(v@[p as int] != x);
        p += 1;
    }
    let ghost s0 = v@;
    proof {
        assert forall|j: int| p <= j < s0.len() implies s0[j] > x by {
            assert(s0[p as int] > x);
            if j > p {
                assert(s0[p as int] < s0[j]);
            }
        }
    }
    v.insert(p, x);
    proof {
        assert forall|y: NodeId| v@.contains(y) <==> (s0.contains(y) || y == x) by {
            if v@.contains(y) {
                let j = choose|j: int| 0 <= j < v@.len() && v@[j] == y;
                if j < p {
                    assert(s0[j] == y);
                } else if j > p {
                    assert(s0[j - 1] == y);
                }
            }
            if s0.contains(y) {
                let j = choose|j: int| 0 <= j < s0.len() && s0[j] == y;
                if j < p {
                    assert(v@[j] == y);
                } else {
                    assert(v@[j + 1] == y);
                }
            }
            if y == x {
                assert(v@[p as int] == x);
            }
        }
    }
}

/// `w` is `v` after a probe response to this node arrived at `t4`: an
/// impossible (negative) round trip is dropped; otherwise the sender's entry
/// is updated with half the round trip as its delay and the error of the
/// reference it implies, and the clock observes that reference when the
/// sender is strictly upstream, the delay is no outlier, and this node is not
/// the root.
pub open spec fn ingested(v: SyncView, w: SyncView, r: ProbeResponse, t4: Micros) -> bool {
    let rtt = round_trip(r, t4);
    if rtt < 0 {
        w == v
    } else {
        let delay = (rtt / 2) as i64;
        let reference = (r.sender_mesh_us + delay) as i64;
        let error = (reference - spec_root_from_local(v.clock.model, t4)) as i64;
        let disciplined = r.stratum < v.stratum && !is_outlier(w.peers, t4, delay) && v.root_id != v.node_id;
        &&& probe_update(v.peers, w.peers, r.sender, r.root_id, r.stratum, delay, error, t4)
        &&& disciplined ==> w.clock == spec_mesh_observe(
            v.clock,
            t4,
            reference,
            spec_discipline_cfg(weight_of(w.peers, r.sender, t4)),
        ).0
        &&& !disciplined ==> w.clock == v.clock
        &&& w == (SyncView { peers: w.peers, clock: w.clock, ..v })
    }
}

proof fn lemma_outlier_is_best(s: Seq<Peer>, now_us: Micros, delay: Micros)
    requires
        table_wf(s),
    ensures
        forall|b1: Micros, b2: Micros| is_best_delay(s, now_us, b1) && is_best_delay(s, now_us, b2) ==> b1 == b2,
{
    assert forall|b1: Micros, b2: Micros| is_best_delay(s, now_us, b1) && is_best_delay(s, now_us, b2) implies b1 == b2 by {
        let i = choose|i: int| 0 <= i < MAX_PEERS && is_fresh(#[trigger] s[i], now_us) && s[i].samples > 0 && s[i].delay_us == b1;
        let j = choose|j: int| 0 <= j < MAX_PEERS && is_fresh(#[trigger] s[j], now_us) && s[j].samples > 0 && s[j].delay_us == b2;
        assert(b2 <= s[i].delay_us);
        assert(b1 <= s[j].delay_us);
    }
}

proof fn lemma_weight_of(s: Seq<Peer>, id: NodeId, now_us: Micros)
    requires
        table_wf(s),
    ensures
        forall|i: int| 0 <= i < MAX_PEERS && s[i].is_occupied() && s[i].id == id ==> weight_of(s, id, now_us) == spec_weight(#[trigger] s[i], now_us),
{
    assert forall|i: int| 0 <= i < MAX_PEERS && s[i].is_occupied() && s[i].id == id implies weight_of(s, id, now_us) == spec_weight(#[trigger] s[i], now_us) by {
        let c = choose|c: int| 0 <= c < MAX_PEERS && s[c].is_occupied() && s[c].id == id;
        if c != i {
            assert(s[c].id != s[i].id);
        }
    }
}

/// Higher-weight peers get a tighter smoothing shift (faster correction).
fn discipline_cfg(weight: u32) -> (r: DisciplineConfig)
    ensures
        r == spec_discipline_cfg(weight),
{
    let offset_smoothing_shift = if weight > 2_000 {
        3
    } else if weight > 500 {
        4
    } else {
        5
    };
    DisciplineConfig {
        offset_smoothing_shift,
        rate_smoothing_shift: 5,
        max_rate_ppb: ENGINE_MAX_RATE_PPB,
        reject_offset_us: 40_000,
    }
}

} // verus!
