//! The simulation kernel: it drives real devices through a simulated radio
//! (drifting clocks, lossy links, latency). The same kernel serves the batch
//! renderer and a live front end; the listener-side mix of the devices'
//! audio lies with the host.
use crate::device::display::DisplayState;
use crate::device::voice::{ArpDirection, DeviceVoice};
use crate::device::{catalog_serves, BlockPlan, Device, DeviceView, EVENT_CAPACITY};
use crate::event::{pushed, EventAction, ScheduledEvent, Section};
use crate::mesh::engine::{beacon_polled, probe_polled, SyncView};
use crate::mesh::wire::MeshMessage;
use crate::music::catalog::PackedCatalog;
use crate::sim::net::{advance_time, link_active, loss_percent, reply_target, spec_advance};
use crate::sim::node::{drift_and_offset, local_time, spec_drift_and_offset, spec_local_time, DEVICE_BEEP_HZ, SAMPLE_RATE};
use crate::sim::rng::{bounded, lcg_step, span_draw_i64, Lcg};
use crate::sim::stats::{checked_phase_stats, spec_stats, stats_fit, PhaseStats};
use crate::transport::{Transport, DEFAULT_TICKS_PER_BEAT};
use crate::{Micros, NodeId};
use vstd::prelude::*;

verus! {

pub const DEFAULT_SYNC_START_US: Micros = 2_500_000;

pub const DEFAULT_GROUP_JOIN_US: Micros = 8_000_000;

/// Global time of the song's first tick.
pub const SONG_ZERO_US: Micros = 2_000_000;

/// The network model's time step.
pub const NET_STEP_US: Micros = 250;

/// Frames the host renders per device call.
pub const RENDER_BLOCK: usize = 64;

/// Ticks from now to the scheduled demo drop (eight bars).
pub const DEMO_DROP_TICKS: i64 = 768;

/// The latest global time the simulation reaches (some seventy thousand
/// years), so every box's local clock stays within 64 bits.
pub const GLOBAL_LIMIT_US: Micros = 0x2000_0000_0000_0000;

/// The largest local clock offset a simulated box takes.
pub const OFFSET_LIMIT_US: Micros = 1_000_000_000_000_000;

/// The arpeggio direction of each box, round the first eight.
pub const ARP_DIRS: [ArpDirection; 8] = [
    ArpDirection::Up,
    ArpDirection::Down,
    ArpDirection::Down,
    ArpDirection::Up,
    ArpDirection::Down,
    ArpDirection::Up,
    ArpDirection::Up,
    ArpDirection::Down,
];

/// A box's local clock at a global time within the simulation's range
/// stays within 64 bits.
pub proof fn lemma_local_fits(global_us: Micros, offset_us: Micros, drift_ppb: i32)
    requires
        0 <= global_us <= GLOBAL_LIMIT_US,
        -OFFSET_LIMIT_US <= offset_us <= OFFSET_LIMIT_US,
    ensures
        i64::MIN <= global_us + offset_us <= i64::MAX,
        i64::MIN <= spec_local_time(global_us, offset_us, drift_ppb) <= i64::MAX,
{
    let p = global_us * drift_ppb;
    assert(-0x2000_0000_0000_0000 * 0x8000_0000 <= p <= 0x2000_0000_0000_0000 * 0x8000_0000) by (nonlinear_arith)
        requires
            p == global_us * drift_ppb,
            0 <= global_us <= 0x2000_0000_0000_0000,
            -0x8000_0000 <= drift_ppb < 0x8000_0000,
    ;
}

/// One simulated box: the real device runtime and the hardware truth of how
/// its local oscillator drifts from the simulator's global clock.
#[derive(Clone, Debug)]
pub struct NodeSim {
    pub device: Device,
    pub drift_ppb: i32,
    pub local_offset_us: Micros,
}

impl NodeSim {
    pub open spec fn wf(&self) -> bool {
        &&& self.device.wf()
        &&& -OFFSET_LIMIT_US <= self.local_offset_us <= OFFSET_LIMIT_US
    }

    /// Box `ix` (id `ix + 1`) of a fresh simulation: its voice, its drawn
    /// drift and offset, and a device on the shared transport and seed.
    pub fn new(ix: usize, transport: Transport, seed: u64, rng: &mut Lcg, catalog: PackedCatalog) -> (r: Self)
        requires
            catalog_serves(catalog),
            transport.ticks_per_beat < 0x8000_0000,
            ix < 0x1_0000_0000,
        ensures
            r.wf(),
            ((r.drift_ppb, r.local_offset_us), final(rng).state()) == spec_drift_and_offset(
                ix,
                (ix + 1) as NodeId,
                old(rng).state(),
            ),
            r.device@.id == ix + 1,
            r.device@.voice == (DeviceVoice { beep_hz: DEVICE_BEEP_HZ@[(ix % 8) as int], arp: ARP_DIRS@[(ix % 8) as int] }),
            r.device@.sample_rate == SAMPLE_RATE,
            r.device@.catalog == catalog,
            r.device@.transport == transport,
            r.device@.seed == seed,
            r.device@.section == Section::Groove,
            r.device@.events.len() == 0,
            r.device@.running,
    {
        let id = ix as NodeId + 1;
        let (drift_ppb, local_offset_us) = drift_and_offset(ix, id, rng);
        let voice = DeviceVoice::new(DEVICE_BEEP_HZ[ix % 8], ARP_DIRS[ix % 8]);
        let device = Device::new(id, voice, transport, seed, catalog).with_sample_rate(SAMPLE_RATE);
        NodeSim { device, drift_ppb, local_offset_us }
    }

    /// Hardware-local microseconds at a global time.
    pub fn local_time(&self, global_us: Micros) -> (r: Micros)
        requires
            self.wf(),
            0 <= global_us <= GLOBAL_LIMIT_US,
        ensures
            r == spec_local_time(global_us, self.local_offset_us, self.drift_ppb),
    {
        proof {
            lemma_local_fits(global_us, self.local_offset_us, self.drift_ppb);
        }
        local_time(global_us, self.local_offset_us, self.drift_ppb)
    }
}

/// One radio send: from box, to box, the frame.
pub type Attempt = (usize, usize, MeshMessage);

/// The frames on the air and the generator's state after each of
/// `attempts` is sent in turn.
pub open spec fn send_all(pending: Seq<PendingMsg>, s: u64, now: Micros, join: Micros, attempts: Seq<Attempt>) -> (
    Seq<PendingMsg>,
    u64,
)
    decreases attempts.len(),
{
    if attempts.len() == 0 {
        (pending, s)
    } else {
        let (p, t) = send_all(pending, s, now, join, attempts.drop_last());
        let a = attempts.last();
        send_outcome(p, t, now, join, a.0, a.1, a.2)
    }
}

/// Box `ix` sending `msg` to each of the first `k` boxes but itself, in order.
pub open spec fn broadcast_to(ix: usize, msg: MeshMessage, k: nat) -> Seq<Attempt>
    decreases k,
{
    if k == 0 {
        seq![]
    } else {
        broadcast_to(ix, msg, (k - 1) as nat) + if (k - 1) != ix {
            seq![(ix, (k - 1) as usize, msg)]
        } else {
            seq![]
        }
    }
}

/// The boxes' ids, in order.
pub open spec fn ids_of(nodes: Seq<NodeSim>) -> Seq<NodeId> {
    nodes.map_values(|n: NodeSim| n.device@.id)
}

/// The first of the first `k` ids that is `id`, if any.
pub open spec fn first_with_id(ids: Seq<NodeId>, id: NodeId, k: nat) -> Option<int>
    decreases k,
{
    if k == 0 {
        None
    } else {
        match first_with_id(ids, id, (k - 1) as nat) {
            Some(i) => Some(i),
            None => if ids[k - 1] == id {
                Some(k - 1)
            } else {
                None
            },
        }
    }
}

proof fn lemma_first_with_id(ids: Seq<NodeId>, id: NodeId, k: nat)
    requires
        k <= ids.len(),
    ensures
        first_with_id(ids, id, k) matches Some(i) ==> 0 <= i < k && ids[i] == id && forall|j: int|
            0 <= j < i ==> ids[j] != id,
        first_with_id(ids, id, k) is None ==> forall|j: int| 0 <= j < k ==> ids[j] != id,
    decreases k,
{
    if k > 0 {
        lemma_first_with_id(ids, id, (k - 1) as nat);
    }
}

/// The probe box `ix` sends: to the first box with the addressed id, if any.
pub open spec fn probe_attempt(ix: usize, ids: Seq<NodeId>, probe: Option<(NodeId, MeshMessage)>) -> Seq<Attempt> {
    match probe {
        Some((dst, p)) => match first_with_id(ids, dst, ids.len()) {
            Some(t) => seq![(ix, t as usize, p)],
            None => seq![],
        },
        None => seq![],
    }
}

/// What box `ix` puts on the air: its beacon to every other box, then its
/// probe to the addressed box.
pub open spec fn box_attempts(
    ix: usize,
    ids: Seq<NodeId>,
    beacon: Option<MeshMessage>,
    probe: Option<(NodeId, MeshMessage)>,
) -> Seq<Attempt> {
    (match beacon {
        Some(b) => broadcast_to(ix, b, ids.len()),
        None => seq![],
    }) + probe_attempt(ix, ids, probe)
}

/// What the first `k` boxes put on the air, box by box.
pub open spec fn emit_attempts(
    ids: Seq<NodeId>,
    beacons: Seq<Option<MeshMessage>>,
    probes: Seq<Option<(NodeId, MeshMessage)>>,
    k: nat,
) -> Seq<Attempt>
    decreases k,
{
    if k == 0 {
        seq![]
    } else {
        emit_attempts(ids, beacons, probes, (k - 1) as nat) + box_attempts(
            (k - 1) as usize,
            ids,
            beacons[k - 1],
            probes[k - 1],
        )
    }
}

/// The attempts of the first `k` boxes read only their first `k` polls.
proof fn lemma_emit_attempts_prefix(
    ids: Seq<NodeId>,
    b1: Seq<Option<MeshMessage>>,
    p1: Seq<Option<(NodeId, MeshMessage)>>,
    b2: Seq<Option<MeshMessage>>,
    p2: Seq<Option<(NodeId, MeshMessage)>>,
    k: nat,
)
    requires
        forall|i: int| 0 <= i < k ==> b1[i] == b2[i] && p1[i] == p2[i],
    ensures
        emit_attempts(ids, b1, p1, k) == emit_attempts(ids, b2, p2, k),
    decreases k,
{
    if k > 0 {
        lemma_emit_attempts_prefix(ids, b1, p1, b2, p2, (k - 1) as nat);
    }
}

/// Sending one more attempt after a list.
proof fn lemma_send_all_push(pending: Seq<PendingMsg>, s: u64, now: Micros, join: Micros, a: Seq<Attempt>, x: Attempt)
    ensures
        send_all(pending, s, now, join, a.push(x)) == ({
            let (p, t) = send_all(pending, s, now, join, a);
            send_outcome(p, t, now, join, x.0, x.1, x.2)
        }),
{
    assert(a.push(x).drop_last() =~= a);
}

/// The box's hardware clock at the simulation's current time.
pub open spec fn box_local(a: Simulation, i: int) -> i64 {
    spec_local_time(a.now(), a.nodes()[i].local_offset_us, a.nodes()[i].drift_ppb) as i64
}

/// `b` is `a` after each box in turn was polled at the current time for a
/// due beacon (giving `beacons[i]` and engine `mids[i]`) and then for a due
/// probe (giving `probes[i]`): each beacon sent to every other box and each
/// probe to the first box with the addressed id, through the radio, in that
/// order. Nothing else of a box moved.
pub open spec fn emitted(
    a: Simulation,
    b: Simulation,
    beacons: Seq<Option<MeshMessage>>,
    probes: Seq<Option<(NodeId, MeshMessage)>>,
    mids: Seq<SyncView>,
) -> bool {
    let n = a.nodes().len();
    &&& beacons.len() == n
    &&& probes.len() == n
    &&& mids.len() == n
    &&& b.radio_only(&a)
    &&& forall|i: int|
        0 <= i < n ==> {
            &&& beacon_polled(a.nodes()[i].device@.engine, #[trigger] mids[i], box_local(a, i), beacons[i])
            &&& probe_polled(mids[i], b.nodes()[i].device@.engine, box_local(a, i), probes[i])
        }
    &&& (b.pending(), b.rng_state()) == send_all(
        a.pending(),
        a.rng_state(),
        a.now(),
        a.join_time(),
        emit_attempts(ids_of(a.nodes()), beacons, probes, n),
    )
}

/// `b` is `a` once the frames that have arrived were handed to their boxes:
/// the clock, the settings and everything of the boxes but their sync
/// engines are as they were; nothing that has arrived is left on the air;
/// every frame still on its way stays on the air; and anything else now on
/// the air is a reply, landing at least 0.7 ms later.
pub open spec fn delivered(a: Simulation, b: Simulation) -> bool {
    &&& b.now() == a.now()
    &&& b.carry() == a.carry()
    &&& b.same_settings(&a)
    &&& b.radio_only(&a)
    &&& forall|k: int| 0 <= k < b.pending().len() ==> !is_due(#[trigger] b.pending()[k], b.now())
    &&& forall|k: int|
        0 <= k < a.pending().len() && !is_due(#[trigger] a.pending()[k], a.now()) ==> b.pending().contains(
            a.pending()[k],
        )
    &&& forall|k: int|
        0 <= k < b.pending().len() ==> a.pending().contains(#[trigger] b.pending()[k]) || b.pending()[k].rx_global_us
            >= a.now() + 700
}

/// `b` is box `a` with at most its sync engine moved.
pub open spec fn sync_moved(a: NodeSim, b: NodeSim) -> bool {
    &&& b.drift_ppb == a.drift_ppb
    &&& b.local_offset_us == a.local_offset_us
    &&& b.device@ == (DeviceView { engine: b.device@.engine, ..a.device@ })
}

/// Radio-only changes compose.
proof fn lemma_radio_only_chain(a: &Simulation, b: &Simulation, c: &Simulation)
    requires
        b.radio_only(a),
        c.radio_only(b),
    ensures
        c.radio_only(a),
{
    assert forall|i: int| 0 <= i < a.nodes().len() implies #[trigger] sync_moved(a.nodes()[i], c.nodes()[i]) by {
        assert(sync_moved(a.nodes()[i], b.nodes()[i]));
        assert(sync_moved(b.nodes()[i], c.nodes()[i]));
    }
}

/// A frame on the air: when it arrives, from which box to which.
#[derive(Clone, Copy, Debug)]
pub struct PendingMsg {
    pub rx_global_us: Micros,
    pub source: usize,
    pub target: usize,
    pub msg: MeshMessage,
}

/// The frames on the air once box `ix` leaves: those to it are lost, and
/// those to later boxes follow them down one position.
pub open spec fn retargeted(s: Seq<PendingMsg>, ix: usize) -> Seq<PendingMsg>
    decreases s.len(),
{
    if s.len() == 0 {
        seq![]
    } else {
        let rest = retargeted(s.drop_last(), ix);
        let p = s.last();
        if p.target == ix {
            rest
        } else {
            rest.push(PendingMsg { target: if p.target > ix { (p.target - 1) as usize } else { p.target }, ..p })
        }
    }
}

/// The frame has arrived by `now`.
pub open spec fn is_due(p: PendingMsg, now: Micros) -> bool {
    p.rx_global_us <= now
}

/// The frames on the air and the generator's state after `source` sends
/// `msg` to `target` at `now`: nothing crosses a dead link; otherwise one
/// draw below a hundred loses the frame at the link's loss rate, and a
/// second draw sets its latency, 0.7 to 4.5 ms.
pub open spec fn send_outcome(
    pending: Seq<PendingMsg>,
    s: u64,
    now: Micros,
    join: Micros,
    source: usize,
    target: usize,
    msg: MeshMessage,
) -> (Seq<PendingMsg>, u64) {
    let same = source / 4 == target / 4;
    if !(same || now >= join) {
        (pending, s)
    } else if bounded(s, 100) < (if same { 4u64 } else { 8u64 }) {
        (pending, lcg_step(s))
    } else {
        let s1 = lcg_step(s);
        (
            pending.push(
                PendingMsg { rx_global_us: (now + 700 + span_draw_i64(s1, 700, 4_500)) as i64, source, target, msg },
            ),
            lcg_step(s1),
        )
    }
}

/// How many of the first `n` frames have arrived by `now`.
pub open spec fn count_due(s: Seq<PendingMsg>, now: Micros, n: nat) -> nat
    decreases n,
{
    if n == 0 {
        0
    } else {
        count_due(s, now, (n - 1) as nat) + if is_due(s[n - 1], now) {
            1nat
        } else {
            0nat
        }
    }
}

proof fn lemma_count_due_agree(a: Seq<PendingMsg>, b: Seq<PendingMsg>, now: Micros, n: nat)
    requires
        forall|k: int| 0 <= k < n ==> a[k] == b[k],
    ensures
        count_due(a, now, n) == count_due(b, now, n),
    decreases n,
{
    if n > 0 {
        lemma_count_due_agree(a, b, now, (n - 1) as nat);
    }
}

proof fn lemma_count_due_update(s: Seq<PendingMsg>, now: Micros, n: nat, i: int, v: PendingMsg)
    requires
        0 <= i < n <= s.len(),
    ensures
        count_due(s.update(i, v), now, n) + (if is_due(s[i], now) { 1int } else { 0int }) == count_due(s, now, n)
            + (if is_due(v, now) { 1int } else { 0int }),
    decreases n,
{
    if i < n - 1 {
        lemma_count_due_update(s, now, (n - 1) as nat, i, v);
    } else {
        lemma_count_due_agree(s.update(i, v), s, now, (n - 1) as nat);
    }
}

/// Swap-removing a frame takes it out of the count.
proof fn lemma_count_due_swap_remove(s: Seq<PendingMsg>, now: Micros, i: int)
    requires
        0 <= i < s.len(),
    ensures
        count_due(s.update(i, s.last()).drop_last(), now, (s.len() - 1) as nat) + (if is_due(s[i], now) {
            1int
        } else {
            0int
        }) == count_due(s, now, s.len()),
{
    let t = s.update(i, s.last());
    lemma_count_due_agree(t.drop_last(), t, now, (s.len() - 1) as nat);
    lemma_count_due_update(s, now, s.len(), i, s.last());
}

proof fn lemma_count_due_push(s: Seq<PendingMsg>, now: Micros, x: PendingMsg)
    ensures
        count_due(s.push(x), now, (s.len() + 1) as nat) == count_due(s, now, s.len()) + if is_due(x, now) {
            1nat
        } else {
            0nat
        },
{
    lemma_count_due_agree(s.push(x), s, now, s.len());
}

/// The simulation: global time, the radio's state, and the boxes.
#[derive(Debug)]
pub struct Simulation {
    global_us: Micros,
    us_acc: i64,
    sync_start_us: Micros,
    group_join_us: Micros,
    sync_enabled: bool,
    transport: Transport,
    rng: Lcg,
    nodes: Vec<NodeSim>,
    pending: Vec<PendingMsg>,
    seed: u64,
    catalog: PackedCatalog,
}

/// `after` is the event queue `before` becomes when the demo drop is
/// scheduled at `tick`: the section change to the drop, then the new seed.
pub open spec fn drop_scheduled(before: Seq<ScheduledEvent>, after: Seq<ScheduledEvent>, tick: i64, seed: u64) -> bool {
    exists|mid: Seq<ScheduledEvent>|
        {
            &&& #[trigger] pushed(
                before,
                ScheduledEvent { fire_at_tick: tick, action: EventAction::SetSection(Section::Drop), id: 1 },
                mid,
                EVENT_CAPACITY as int,
            )
            &&& pushed(
                mid,
                ScheduledEvent { fire_at_tick: tick, action: EventAction::SetSeed(seed), id: 2 },
                after,
                EVENT_CAPACITY as int,
            )
        }
}

/// The transport every simulated box starts on: 80 BPM, matching the
/// phase-aligned source loops without resampling.
pub open spec fn sim_transport() -> Transport {
    Transport { song_zero_us: SONG_ZERO_US, bpm_milli: 80_000, ticks_per_beat: DEFAULT_TICKS_PER_BEAT }
}

impl Simulation {
    /// The simulation's parts are consistent: every box well formed,
    /// global time and the frame carry in range, and a serving catalogue.
    pub closed spec fn wf(&self) -> bool {
        &&& forall|i: int| 0 <= i < self.nodes@.len() ==> (#[trigger] self.nodes@[i]).wf()
        &&& self.nodes@.len() < 0x1_0000_0000
        &&& 0 <= self.global_us <= GLOBAL_LIMIT_US
        &&& 0 <= self.us_acc < SAMPLE_RATE
        &&& catalog_serves(self.catalog)
        &&& self.transport == sim_transport()
    }

    pub closed spec fn nodes(&self) -> Seq<NodeSim> {
        self.nodes@
    }

    pub closed spec fn now(&self) -> Micros {
        self.global_us
    }

    pub closed spec fn pending(&self) -> Seq<PendingMsg> {
        self.pending@
    }

    pub closed spec fn syncing(&self) -> bool {
        self.sync_enabled
    }

    pub closed spec fn song_seed(&self) -> u64 {
        self.seed
    }

    pub closed spec fn join_time(&self) -> Micros {
        self.group_join_us
    }

    pub closed spec fn sync_start(&self) -> Micros {
        self.sync_start_us
    }

    pub closed spec fn carry(&self) -> i64 {
        self.us_acc
    }

    /// The radio's random generator.
    pub closed spec fn rng_state(&self) -> u64 {
        self.rng.state()
    }

    /// The mesh time boxes `lo` to `hi` (exclusive) read at the current
    /// global time.
    pub open spec fn readings(&self, lo: int, hi: int) -> Seq<Micros> {
        Seq::new(
            (hi - lo) as nat,
            |k: int|
                crate::clock::spec_root_from_local(
                    self.nodes()[lo + k].device@.engine.clock.model,
                    spec_local_time(self.now(), self.nodes()[lo + k].local_offset_us, self.nodes()[lo + k].drift_ppb)
                        as i64,
                ),
        )
    }

    /// The boxes `start..end` names, cut to the boxes there are.
    pub open spec fn span(&self, start: usize, end: usize) -> (int, int) {
        let n = self.nodes().len();
        let lo = if start < n { start as int } else { n as int };
        let hi0 = if end < n { end as int } else { n as int };
        (lo, if hi0 < lo { lo } else { hi0 })
    }

    /// The simulation's catalogue, seed, transport, timing and radio
    /// settings stay as they were.
    pub open spec fn same_settings(&self, other: &Self) -> bool {
        &&& self.song_seed() == other.song_seed()
        &&& self.join_time() == other.join_time()
        &&& self.sync_start() == other.sync_start()
        &&& self.syncing() == other.syncing()
    }

    /// Only the boxes' sync engines moved from `other`'s boxes: the radio
    /// touches nothing else of a box, and no box came or went.
    pub open spec fn radio_only(&self, other: &Self) -> bool {
        &&& self.nodes().len() == other.nodes().len()
        &&& forall|i: int| 0 <= i < other.nodes().len() ==> #[trigger] sync_moved(other.nodes()[i], self.nodes()[i])
    }

    /// `node_count` boxes on one seed; clock sync starts at
    /// `sync_start_us` and the two clusters hear each other from
    /// `group_join_us`.
    pub fn new(node_count: usize, seed: u64, sync_start_us: Micros, group_join_us: Micros, catalog: PackedCatalog) -> (r: Self)
        requires
            catalog_serves(catalog),
            node_count < 0x1_0000_0000,
        ensures
            r.wf(),
            r.nodes().len() == node_count,
            r.now() == 0,
            r.carry() == 0,
            r.pending().len() == 0,
            r.syncing(),
            r.song_seed() == seed,
            r.sync_start() == sync_start_us,
            r.join_time() == group_join_us,
            forall|i: int|
                0 <= i < node_count ==> {
                    &&& (#[trigger] r.nodes()[i]).device@.id == i + 1
                    &&& r.nodes()[i].device@.transport == sim_transport()
                    &&& r.nodes()[i].device@.seed == seed
                    &&& r.nodes()[i].device@.running
                },
    {
        let transport = Transport::new(SONG_ZERO_US, 80_000, DEFAULT_TICKS_PER_BEAT);
        let mut rng = Lcg::new(seed);
        let mut nodes: Vec<NodeSim> = Vec::new();
        let mut ix: usize = 0;
        while ix < node_count
            invariant
                ix <= node_count,
                node_count < 0x1_0000_0000,
                catalog_serves(catalog),
                transport == sim_transport(),
                nodes@.len() == ix,
                forall|i: int|
                    0 <= i < ix ==> {
                        &&& (#[trigger] nodes@[i]).wf()
                        &&& nodes@[i].device@.id == i + 1
                        &&& nodes@[i].device@.transport == sim_transport()
                        &&& nodes@[i].device@.seed == seed
                        &&& nodes@[i].device@.running
                    },
            decreases node_count - ix,
        {
            let node = NodeSim::new(ix, transport, seed, &mut rng, catalog);
            nodes.push(node);
            ix = ix + 1;
        }
        Simulation {
            global_us: 0,
            us_acc: 0,
            sync_start_us,
            group_join_us,
            sync_enabled: true,
            transport,
            rng,
            nodes,
            pending: Vec::new(),
            seed,
            catalog,
        }
    }

    pub fn node_count(&self) -> (r: usize)
        ensures
            r == self.nodes().len(),
    {
        self.nodes.len()
    }

    pub fn global_us(&self) -> (r: Micros)
        ensures
            r == self.now(),
    {
        self.global_us
    }

    /// Box `ix`.
    pub fn node(&self, ix: usize) -> (r: &NodeSim)
        requires
            ix < self.nodes().len(),
        ensures
            *r == self.nodes()[ix as int],
    {
        &self.nodes[ix]
    }

    /// The index of the box with `id`, if any (the first).
    pub fn index_of(&self, id: NodeId) -> (r: Option<usize>)
        ensures
            r matches Some(i) ==> i < self.nodes().len() && self.nodes()[i as int].device@.id == id && forall|k: int|
                0 <= k < i ==> #[trigger] self.nodes()[k].device@.id != id,
            r is None ==> forall|k: int| 0 <= k < self.nodes().len() ==> #[trigger] self.nodes()[k].device@.id != id,
            first_with_id(ids_of(self.nodes()), id, self.nodes().len()) == match r {
                Some(i) => Some(i as int),
                None => None::<int>,
            },
    {
        proof {
            let ids = ids_of(self.nodes());
            lemma_first_with_id(ids, id, self.nodes().len());
            assert forall|k: int| 0 <= k < ids.len() implies ids[k] == #[trigger] self.nodes()[k].device@.id by {}
        }
        let mut i: usize = 0;
        while i < self.nodes.len()
            invariant
                i <= self.nodes@.len(),
                forall|k: int| 0 <= k < i ==> #[trigger] self.nodes@[k].device@.id != id,
            decreases self.nodes@.len() - i,
        {
            if self.nodes[i].device.id() == id {
                proof {
                    let ids = ids_of(self.nodes());
                    lemma_first_with_id(ids, id, self.nodes().len());
                    assert(ids[i as int] == id);
                    if let Some(j) = first_with_id(ids, id, self.nodes().len()) {
                        if j < i {
                            assert(ids[j] == self.nodes@[j].device@.id);
                        }
                    }
                }
                return Some(i);
            }
            i = i + 1;
        }
        proof {
            let ids = ids_of(self.nodes());
            lemma_first_with_id(ids, id, self.nodes().len());
            if let Some(j) = first_with_id(ids, id, self.nodes().len()) {
                assert(ids[j] == self.nodes@[j].device@.id);
            }
        }
        None
    }

    /// Put a frame on the air from `source` to `target`: a dead link or an
    /// unlucky loss draw drops it; otherwise it lands 0.7 to 4.5 ms later.
    pub fn send(&mut self, source: usize, target: usize, msg: MeshMessage)
        requires
            old(self).wf(),
        ensures
            final(self).wf(),
            final(self).nodes() == old(self).nodes(),
            final(self).now() == old(self).now(),
            final(self).carry() == old(self).carry(),
            final(self).same_settings(old(self)),
            final(self).pending() == old(self).pending() || ({
                let p = final(self).pending().last();
                &&& final(self).pending() == old(self).pending().push(p)
                &&& old(self).now() + 700 <= p.rx_global_us < old(self).now() + 4_500
                &&& p.source == source
                &&& p.target == target
                &&& p.msg == msg
            }),
            !(source / 4 == target / 4 || old(self).now() >= old(self).join_time()) ==> final(self).pending()
                == old(self).pending(),
            (final(self).pending(), final(self).rng_state()) == send_outcome(
                old(self).pending(),
                old(self).rng_state(),
                old(self).now(),
                old(self).join_time(),
                source,
                target,
                msg,
            ),
    {
        if !link_active(source, target, self.global_us, self.group_join_us) || self.rng.next_bounded(100)
            < loss_percent(source, target) {
            return;
        }
        let latency_us = self.rng.range_i64(700, 4_500);
        self.pending.push(PendingMsg { rx_global_us: self.global_us + latency_us, source, target, msg });
    }

    /// Pull each device's due beacon (broadcast to every other box) and due
    /// probe (unicast upstream) and put them on the air. The devices keep
    /// their own cadence; the simulation only models the radio.
    #[verifier::spinoff_prover]
    #[verifier::rlimit(40)]
    fn emit_sync_traffic(&mut self)
        requires
            old(self).wf(),
        ensures
            final(self).wf(),
            final(self).nodes().len() == old(self).nodes().len(),
            final(self).now() == old(self).now(),
            final(self).carry() == old(self).carry(),
            final(self).same_settings(old(self)),
            forall|k: int|
                old(self).pending().len() <= k < final(self).pending().len() ==> !is_due(
                    #[trigger] final(self).pending()[k],
                    final(self).now(),
                ),
            old(self).pending().len() <= final(self).pending().len(),
            forall|k: int| 0 <= k < old(self).pending().len() ==> #[trigger] final(self).pending()[k] == old(self).pending()[k],
            final(self).radio_only(old(self)),
            exists|beacons: Seq<Option<MeshMessage>>, probes: Seq<Option<(NodeId, MeshMessage)>>, mids: Seq<SyncView>|
                #[trigger] emitted(*old(self), *final(self), beacons, probes, mids),
    {
        let n = self.nodes.len();
        let ghost ids = ids_of(self.nodes());
        let ghost mut bs: Seq<Option<MeshMessage>> = seq![];
        let ghost mut ps: Seq<Option<(NodeId, MeshMessage)>> = seq![];
        let ghost mut ms: Seq<SyncView> = seq![];
        let mut ix: usize = 0;
        while ix < n
            invariant
                self.wf(),
                n == self.nodes@.len(),
                ix <= n,
                self.now() == old(self).now(),
                self.carry() == old(self).carry(),
                self.same_settings(old(self)),
                old(self).pending().len() <= self.pending().len(),
                forall|k: int| 0 <= k < old(self).pending().len() ==> #[trigger] self.pending()[k] == old(self).pending()[k],
                forall|k: int|
                    old(self).pending().len() <= k < self.pending().len() ==> !is_due(
                        #[trigger] self.pending()[k],
                        self.now(),
                    ),
                self.radio_only(old(self)),
                ids == ids_of(old(self).nodes()),
                bs.len() == ix,
                ps.len() == ix,
                ms.len() == ix,
                forall|i: int| ix <= i < n ==> #[trigger] self.nodes()[i] == old(self).nodes()[i],
                forall|i: int|
                    0 <= i < ix ==> {
                        &&& beacon_polled(
                            old(self).nodes()[i].device@.engine,
                            #[trigger] ms[i],
                            box_local(*old(self), i),
                            bs[i],
                        )
                        &&& probe_polled(ms[i], self.nodes()[i].device@.engine, box_local(*old(self), i), ps[i])
                    },
                (self.pending(), self.rng_state()) == send_all(
                    old(self).pending(),
                    old(self).rng_state(),
                    old(self).now(),
                    old(self).join_time(),
                    emit_attempts(ids, bs, ps, ix as nat),
                ),
            decreases n - ix,
        {
            let ghost attempts = emit_attempts(ids, bs, ps, ix as nat);
            assert(self.nodes()[ix as int] == old(self).nodes()[ix as int]);
            let local = self.nodes[ix].local_time(self.global_us);
            let ghost before = self.nodes@;
            let beacon = self.nodes[ix].device.poll_beacon(local);
            let ghost mid = self.nodes@[ix as int].device@.engine;
            assert(self.nodes@[ix as int].wf());
            proof {
                assert forall|i: int| 0 <= i < old(self).nodes().len() implies #[trigger] sync_moved(
                    old(self).nodes()[i],
                    self.nodes()[i],
                ) by {
                    assert(sync_moved(old(self).nodes()[i], before[i]));
                }
            }
            let ghost after_beacon = self.nodes@;
            if let Some(b) = beacon {
                let mut target: usize = 0;
                while target < n
                    invariant
                        self.wf(),
                        n == self.nodes@.len(),
                        ix < n,
                        target <= n,
                        self.now() == old(self).now(),
                        self.carry() == old(self).carry(),
                        self.same_settings(old(self)),
                        old(self).pending().len() <= self.pending().len(),
                        forall|k: int| 0 <= k < old(self).pending().len() ==> #[trigger] self.pending()[k] == old(self).pending()[k],
                        forall|k: int|
                            old(self).pending().len() <= k < self.pending().len() ==> !is_due(
                                #[trigger] self.pending()[k],
                                self.now(),
                            ),
                        self.nodes@ == after_beacon,
                        (self.pending(), self.rng_state()) == send_all(
                            old(self).pending(),
                            old(self).rng_state(),
                            old(self).now(),
                            old(self).join_time(),
                            attempts + broadcast_to(ix, b, target as nat),
                        ),
                    decreases n - target,
                {
                    let ghost sent = attempts + broadcast_to(ix, b, target as nat);
                    if target != ix {
                        self.send(ix, target, b);
                        proof {
                            lemma_send_all_push(
                                old(self).pending(),
                                old(self).rng_state(),
                                old(self).now(),
                                old(self).join_time(),
                                sent,
                                (ix, target, b),
                            );
                            assert(sent.push((ix, target, b)) =~= attempts + broadcast_to(ix, b, (target + 1) as nat));
                        }
                    } else {
                        assert(broadcast_to(ix, b, (target + 1) as nat) =~= broadcast_to(ix, b, target as nat));
                    }
                    target = target + 1;
                }
            }
            let ghost sent_beacon: Seq<Attempt> = match beacon {
                Some(b) => broadcast_to(ix, b, n as nat),
                None => seq![],
            };
            assert(attempts + sent_beacon =~= match beacon {
                Some(b) => attempts + broadcast_to(ix, b, n as nat),
                None => attempts,
            });
            let ghost after_sends = self.nodes@;
            let local = self.nodes[ix].local_time(self.global_us);
            let probe = self.nodes[ix].device.poll_probe(local);
            assert(self.nodes@[ix as int].wf());
            proof {
                assert forall|i: int| 0 <= i < old(self).nodes().len() implies #[trigger] sync_moved(
                    old(self).nodes()[i],
                    self.nodes()[i],
                ) by {
                    assert(sync_moved(old(self).nodes()[i], after_sends[i]));
                }
                assert(ids_of(self.nodes()) =~= ids) by {
                    assert forall|k: int| 0 <= k < n implies ids_of(self.nodes())[k] == ids[k] by {
                        assert(sync_moved(old(self).nodes()[k], self.nodes()[k]));
                    }
                }
            }
            let ghost before_probe = attempts + sent_beacon;
            if let Some((dst, p)) = probe {
                if let Some(target) = self.index_of(dst) {
                    self.send(ix, target, p);
                    proof {
                        lemma_send_all_push(
                            old(self).pending(),
                            old(self).rng_state(),
                            old(self).now(),
                            old(self).join_time(),
                            before_probe,
                            (ix, target, p),
                        );
                        assert(probe_attempt(ix, ids, probe) =~= seq![(ix, target, p)]);
                        assert(before_probe.push((ix, target, p)) =~= before_probe + probe_attempt(ix, ids, probe));
                    }
                } else {
                    assert(probe_attempt(ix, ids, probe) =~= Seq::<Attempt>::empty());
                    assert(before_probe + probe_attempt(ix, ids, probe) =~= before_probe);
                }
            } else {
                assert(before_probe + probe_attempt(ix, ids, probe) =~= before_probe);
            }
            proof {
                let bs2 = bs.push(beacon);
                let ps2 = ps.push(probe);
                lemma_emit_attempts_prefix(ids, bs, ps, bs2, ps2, ix as nat);
                assert(emit_attempts(ids, bs2, ps2, (ix + 1) as nat) == emit_attempts(ids, bs2, ps2, ix as nat)
                    + box_attempts(ix, ids, beacon, probe));
                assert(box_attempts(ix, ids, beacon, probe) == sent_beacon + probe_attempt(ix, ids, probe));
                assert(attempts + sent_beacon + probe_attempt(ix, ids, probe) =~= attempts + (sent_beacon
                    + probe_attempt(ix, ids, probe)));
                bs = bs2;
                ps = ps2;
                ms = ms.push(mid);
            }
            ix = ix + 1;
        }
        assert(emitted(*old(self), *self, bs, ps, ms));
    }

    /// Hand every frame that has arrived to its box, in the radio's order,
    /// and put each reply back on the air. A frame for a box that left, over
    /// a link that went down, or with timestamps the box's clock arithmetic
    /// cannot hold is lost. Afterwards nothing that has arrived is left.
    fn deliver_due(&mut self)
        requires
            old(self).wf(),
        ensures
            final(self).wf(),
            final(self).nodes().len() == old(self).nodes().len(),
            final(self).now() == old(self).now(),
            final(self).carry() == old(self).carry(),
            final(self).same_settings(old(self)),
            forall|k: int| 0 <= k < final(self).pending().len() ==> !is_due(#[trigger] final(self).pending()[k], final(self).now()),
            final(self).radio_only(old(self)),
            delivered(*old(self), *final(self)),
    {
        let mut ix: usize = 0;
        while ix < self.pending.len()
            invariant
                self.wf(),
                self.nodes().len() == old(self).nodes().len(),
                self.now() == old(self).now(),
                self.carry() == old(self).carry(),
                self.same_settings(old(self)),
                ix <= self.pending@.len(),
                forall|k: int| 0 <= k < ix ==> !is_due(#[trigger] self.pending@[k], self.global_us),
                self.radio_only(old(self)),
                forall|k: int|
                    0 <= k < old(self).pending().len() && !is_due(#[trigger] old(self).pending()[k], old(self).now())
                        ==> self.pending().contains(old(self).pending()[k]),
                forall|k: int|
                    0 <= k < self.pending().len() ==> old(self).pending().contains(#[trigger] self.pending()[k])
                        || self.pending()[k].rx_global_us >= old(self).now() + 700,
            decreases count_due(self.pending@, self.global_us, self.pending@.len()), self.pending@.len() - ix,
        {
            if self.pending[ix].rx_global_us > self.global_us {
                proof {
                    lemma_count_due_agree(self.pending@, self.pending@, self.global_us, self.pending@.len());
                }
                ix = ix + 1;
                continue;
            }
            let ghost before = self.pending@;
            let ghost pre = *self;
            assert(pre.pending() == before);
            let pending = self.pending.swap_remove(ix);
            proof {
                lemma_count_due_swap_remove(before, self.global_us, ix as int);
                assert forall|k: int| 0 <= k < ix implies !is_due(#[trigger] self.pending@[k], self.global_us) by {
                    assert(self.pending@[k] == before[k]);
                }
            }
            proof {
                let last = before.len() - 1;
                assert forall|k: int|
                    0 <= k < old(self).pending().len() && !is_due(#[trigger] old(self).pending()[k], old(self).now())
                        implies self.pending().contains(old(self).pending()[k]) by {
                    let x = old(self).pending()[k];
                    assert(before.contains(x));
                    let j = choose|j: int| 0 <= j < before.len() && before[j] == x;
                    if j == ix {
                        assert(false);
                    } else if j == last {
                        assert(self.pending@[ix as int] == x);
                    } else {
                        assert(self.pending@[j] == x);
                    }
                }
                assert forall|k: int| 0 <= k < self.pending().len() implies old(self).pending().contains(
                    #[trigger] self.pending()[k],
                ) || self.pending()[k].rx_global_us >= old(self).now() + 700 by {
                    if k == ix {
                        assert(self.pending@[k] == before[last]);
                        assert(pre.pending()[last] == before[last]);
                        assert(old(self).pending().contains(before[last]) || before[last].rx_global_us
                            >= old(self).now() + 700);
                    } else {
                        assert(self.pending@[k] == before[k]);
                        assert(pre.pending()[k] == before[k]);
                        assert(old(self).pending().contains(before[k]) || before[k].rx_global_us >= old(self).now()
                            + 700);
                    }
                }
            }
            let ghost after_remove = self.pending@;
            if pending.target < self.nodes.len() && link_active(
                pending.source,
                pending.target,
                self.global_us,
                self.group_join_us,
            ) {
                let rx_global = self.global_us;
                let t = pending.target;
                let rx_local = self.nodes[t].local_time(rx_global);
                if self.nodes[t].device.accepts(&pending.msg, rx_local) {
                    let ghost before = self.nodes@;
                    let reply = self.nodes[t].device.handle(pending.msg, rx_local);
                    assert(self.nodes@[t as int].wf());
                    proof {
                        assert forall|i: int| 0 <= i < old(self).nodes().len() implies #[trigger] sync_moved(
                            old(self).nodes()[i],
                            self.nodes()[i],
                        ) by {
                            assert(sync_moved(old(self).nodes()[i], before[i]));
                        }
                    }
                    if let Some(r) = reply {
                        if let Some(id) = reply_target(&r) {
                            if let Some(dst) = self.index_of(id) {
                                self.send(t, dst, r);
                                proof {
                                    if self.pending@ != after_remove {
                                        let x = self.pending@.last();
                                        assert(self.pending@ == after_remove.push(x));
                                        assert forall|k: int|
                                            0 <= k < old(self).pending().len() && !is_due(
                                                #[trigger] old(self).pending()[k],
                                                old(self).now(),
                                            ) implies self.pending().contains(old(self).pending()[k]) by {
                                            let y = old(self).pending()[k];
                                            assert(after_remove.contains(y));
                                            let j = choose|j: int| 0 <= j < after_remove.len() && after_remove[j] == y;
                                            assert(self.pending@[j] == y);
                                        }
                                        assert forall|k: int| 0 <= k < self.pending().len() implies old(
                                            self,
                                        ).pending().contains(#[trigger] self.pending()[k])
                                            || self.pending()[k].rx_global_us >= old(self).now() + 700 by {
                                            if k < after_remove.len() {
                                                assert(self.pending@[k] == after_remove[k]);
                                                assert(old(self).pending().contains(after_remove[k])
                                                    || after_remove[k].rx_global_us >= old(self).now() + 700);
                                            }
                                        }
                                        lemma_count_due_push(after_remove, self.global_us, x);
                                        assert forall|k: int| 0 <= k < ix implies !is_due(
                                            #[trigger] self.pending@[k],
                                            self.global_us,
                                        ) by {
                                            assert(self.pending@[k] == after_remove[k]);
                                        }
                                    }
                                }
                            }
                        }
                    }
                }
            }
        }
    }

    /// One network step: devices emit their sync traffic (once sync has
    /// started), then arrived frames are delivered.
    fn step_network(&mut self)
        requires
            old(self).wf(),
        ensures
            final(self).wf(),
            final(self).nodes().len() == old(self).nodes().len(),
            final(self).now() == old(self).now(),
            final(self).carry() == old(self).carry(),
            final(self).same_settings(old(self)),
            final(self).radio_only(old(self)),
            if old(self).syncing() && old(self).now() >= old(self).sync_start() {
                exists|
                    mid: Simulation,
                    beacons: Seq<Option<MeshMessage>>,
                    probes: Seq<Option<(NodeId, MeshMessage)>>,
                    mids: Seq<SyncView>,
                | #[trigger] emitted(*old(self), mid, beacons, probes, mids) && delivered(mid, *final(self))
            } else {
                delivered(*old(self), *final(self))
            },
    {
        let ghost start = *self;
        let emitting = self.sync_enabled && self.global_us >= self.sync_start_us;
        if emitting {
            self.emit_sync_traffic();
        }
        let ghost mid = *self;
        self.deliver_due();
        proof {
            if emitting {
                let (bs, ps, ms) = choose|
                    bs: Seq<Option<MeshMessage>>,
                    ps: Seq<Option<(NodeId, MeshMessage)>>,
                    ms: Seq<SyncView>,
                | #[trigger] emitted(start, mid, bs, ps, ms);
                assert(emitted(start, mid, bs, ps, ms) && delivered(mid, *self));
            }
            assert forall|i: int| 0 <= i < start.nodes().len() implies #[trigger] sync_moved(
                start.nodes()[i],
                self.nodes()[i],
            ) by {
                assert(sync_moved(start.nodes()[i], mid.nodes()[i]));
                assert(sync_moved(mid.nodes()[i], self.nodes()[i]));
            }
        }
    }

    /// Advance only the network and clock model (no audio) by
    /// `duration_us`, in network steps, e.g. to let sync settle.
    pub fn run(&mut self, duration_us: Micros)
        requires
            old(self).wf(),
            old(self).now() + duration_us <= GLOBAL_LIMIT_US,
        ensures
            final(self).wf(),
            final(self).nodes().len() == old(self).nodes().len(),
            final(self).now() == if duration_us > 0 { old(self).now() + duration_us } else { old(self).now() as int },
            final(self).same_settings(old(self)),
            final(self).radio_only(old(self)),
    {
        let end_us = if duration_us > 0 {
            self.global_us + duration_us
        } else {
            self.global_us
        };
        while self.global_us < end_us
            invariant
                self.wf(),
                self.nodes().len() == old(self).nodes().len(),
                self.same_settings(old(self)),
                old(self).now() <= self.global_us <= end_us,
                end_us <= GLOBAL_LIMIT_US,
                self.radio_only(old(self)),
            decreases end_us - self.global_us,
        {
            let ghost before = *self;
            self.step_network();
            proof {
                lemma_radio_only_chain(old(self), &before, self);
            }
            let next = self.global_us + NET_STEP_US;
            self.global_us = if next < end_us {
                next
            } else {
                end_us
            };
        }
    }

    /// Advance the network model across one rendered block of `frames`
    /// samples: the frame time carried over plus the block's, in whole
    /// microseconds, stepped through the network.
    pub fn advance_network(&mut self, frames: usize)
        requires
            old(self).wf(),
            frames <= 0x10_0000,
            old(self).now() + 0x10_0000 * 21 <= GLOBAL_LIMIT_US,
        ensures
            final(self).wf(),
            final(self).nodes().len() == old(self).nodes().len(),
            final(self).same_settings(old(self)),
            ({
                let (dur, rest) = spec_advance(old(self).carry(), frames);
                &&& final(self).carry() == rest
                &&& final(self).now() == if dur > 0 { old(self).now() + dur } else { old(self).now() as int }
            }),
            final(self).radio_only(old(self)),
    {
        let (dur, rest) = advance_time(self.us_acc, frames);
        proof {
            assert(0 <= dur <= 0x10_0000 * 21);
        }
        self.us_acc = rest;
        let target = if dur > 0 {
            self.global_us + dur
        } else {
            self.global_us
        };
        while self.global_us < target
            invariant
                self.wf(),
                self.nodes().len() == old(self).nodes().len(),
                self.same_settings(old(self)),
                self.us_acc == rest,
                old(self).now() <= self.global_us <= target,
                target <= GLOBAL_LIMIT_US,
                self.radio_only(old(self)),
            decreases target - self.global_us,
        {
            let ghost before = *self;
            self.step_network();
            proof {
                lemma_radio_only_chain(old(self), &before, self);
            }
            let next = self.global_us + NET_STEP_US;
            self.global_us = if next < target {
                next
            } else {
                target
            };
        }
    }

    /// A late joiner: a new box at the end, which still gets the scheduled
    /// drop on the shared grid.
    pub fn add_node(&mut self)
        requires
            old(self).wf(),
            old(self).nodes().len() + 1 < 0x1_0000_0000,
        ensures
            final(self).wf(),
            final(self).nodes().len() == old(self).nodes().len() + 1,
            forall|i: int| 0 <= i < old(self).nodes().len() ==> #[trigger] final(self).nodes()[i] == old(self).nodes()[i],
            final(self).nodes().last().device@.id == old(self).nodes().len() + 1,
            final(self).now() == old(self).now(),
            final(self).pending() == old(self).pending(),
            final(self).same_settings(old(self)),
    {
        let ix = self.nodes.len();
        let mut node = NodeSim::new(ix, self.transport, self.seed, &mut self.rng, self.catalog);
        if let Some(drop_tick) = self.drop_tick() {
            node.device.push_event(
                ScheduledEvent { fire_at_tick: drop_tick, action: EventAction::SetSection(Section::Drop), id: 1 },
            );
        }
        self.nodes.push(node);
        assert(self.nodes@.last() == node);
    }

    /// Take box `ix` out of the simulation, with the frames on their way
    /// to it; frames to later boxes follow their new positions.
    pub fn remove_node(&mut self, ix: usize)
        requires
            old(self).wf(),
        ensures
            final(self).wf(),
            ix < old(self).nodes().len() ==> final(self).nodes() == old(self).nodes().remove(ix as int),
            ix >= old(self).nodes().len() ==> final(self).nodes() == old(self).nodes() && final(self).pending()
                == old(self).pending(),
            ix < old(self).nodes().len() ==> final(self).pending() == retargeted(old(self).pending(), ix),
            final(self).now() == old(self).now(),
            final(self).same_settings(old(self)),
    {
        if ix >= self.nodes.len() {
            return;
        }
        self.nodes.remove(ix);
        let mut kept: Vec<PendingMsg> = Vec::new();
        let mut k: usize = 0;
        while k < self.pending.len()
            invariant
                k <= self.pending@.len(),
                self.pending@ == old(self).pending@,
                kept@ == retargeted(self.pending@.take(k as int), ix),
            decreases self.pending@.len() - k,
        {
            let p = self.pending[k];
            assert(self.pending@.take(k + 1).drop_last() == self.pending@.take(k as int));
            if p.target != ix {
                let target = if p.target > ix {
                    p.target - 1
                } else {
                    p.target
                };
                kept.push(PendingMsg { target, ..p });
            }
            k = k + 1;
        }
        assert(self.pending@.take(self.pending@.len() as int) == self.pending@);
        self.pending = kept;
        assert forall|i: int| 0 <= i < self.nodes@.len() implies (#[trigger] self.nodes@[i]).wf() by {
            if i < ix {
                assert(self.nodes@[i] == old(self).nodes@[i]);
            } else {
                assert(self.nodes@[i] == old(self).nodes@[i + 1]);
            }
        }
    }

    /// Start or stop box `ix`.
    pub fn toggle_running(&mut self, ix: usize)
        requires
            old(self).wf(),
        ensures
            final(self).wf(),
            final(self).nodes().len() == old(self).nodes().len(),
            forall|i: int|
                0 <= i < old(self).nodes().len() && i != ix ==> #[trigger] final(self).nodes()[i] == old(self).nodes()[i],
            ix < old(self).nodes().len() ==> final(self).nodes()[ix as int].device@ == (DeviceView {
                running: !old(self).nodes()[ix as int].device@.running,
                ..old(self).nodes()[ix as int].device@
            }),
            final(self).now() == old(self).now(),
            final(self).pending() == old(self).pending(),
            final(self).same_settings(old(self)),
    {
        if ix < self.nodes.len() {
            self.nodes[ix].device.toggle_running();
            assert(self.nodes@[ix as int].wf());
        }
    }

    /// Start or stop every box.
    pub fn set_all_running(&mut self, running: bool)
        requires
            old(self).wf(),
        ensures
            final(self).wf(),
            final(self).nodes().len() == old(self).nodes().len(),
            forall|i: int|
                0 <= i < old(self).nodes().len() ==> #[trigger] final(self).nodes()[i].device@ == (DeviceView {
                    running,
                    ..old(self).nodes()[i].device@
                }),
            final(self).now() == old(self).now(),
            final(self).pending() == old(self).pending(),
            final(self).same_settings(old(self)),
    {
        let n = self.nodes.len();
        let mut i: usize = 0;
        while i < n
            invariant
                self.wf(),
                n == self.nodes@.len(),
                n == old(self).nodes().len(),
                i <= n,
                self.now() == old(self).now(),
                self.pending() == old(self).pending(),
                self.same_settings(old(self)),
                forall|j: int| 0 <= j < i ==> #[trigger] self.nodes@[j].device@ == (DeviceView {
                    running,
                    ..old(self).nodes()[j].device@
                }),
                forall|j: int| i <= j < n ==> #[trigger] self.nodes@[j] == old(self).nodes()[j],
            decreases n - i,
        {
            self.nodes[i].device.set_running(running);
            assert(self.nodes@[i as int].wf());
            i = i + 1;
        }
    }

    pub fn set_sync_enabled(&mut self, enabled: bool)
        requires
            old(self).wf(),
        ensures
            final(self).wf(),
            final(self).syncing() == enabled,
            final(self).nodes() == old(self).nodes(),
            final(self).now() == old(self).now(),
            final(self).pending() == old(self).pending(),
    {
        self.sync_enabled = enabled;
    }

    pub fn sync_enabled(&self) -> (r: bool)
        ensures
            r == self.syncing(),
    {
        self.sync_enabled
    }

    /// Detune box `ix`'s oscillator.
    pub fn set_drift_ppb(&mut self, ix: usize, ppb: i32)
        requires
            old(self).wf(),
        ensures
            final(self).wf(),
            final(self).nodes().len() == old(self).nodes().len(),
            forall|i: int|
                0 <= i < old(self).nodes().len() && i != ix ==> #[trigger] final(self).nodes()[i] == old(self).nodes()[i],
            ix < old(self).nodes().len() ==> final(self).nodes()[ix as int] == (NodeSim {
                drift_ppb: ppb,
                ..old(self).nodes()[ix as int]
            }),
            final(self).now() == old(self).now(),
            final(self).pending() == old(self).pending(),
            final(self).same_settings(old(self)),
    {
        if ix < self.nodes.len() {
            self.nodes[ix].drift_ppb = ppb;
        }
    }

    /// Move box `ix`'s local clock to a new offset from global time.
    pub fn set_offset_us(&mut self, ix: usize, offset_us: Micros)
        requires
            old(self).wf(),
            -OFFSET_LIMIT_US <= offset_us <= OFFSET_LIMIT_US,
        ensures
            final(self).wf(),
            final(self).nodes().len() == old(self).nodes().len(),
            forall|i: int|
                0 <= i < old(self).nodes().len() && i != ix ==> #[trigger] final(self).nodes()[i] == old(self).nodes()[i],
            ix < old(self).nodes().len() ==> final(self).nodes()[ix as int] == (NodeSim {
                local_offset_us: offset_us,
                ..old(self).nodes()[ix as int]
            }),
            final(self).now() == old(self).now(),
            final(self).pending() == old(self).pending(),
            final(self).same_settings(old(self)),
    {
        if ix < self.nodes.len() {
            self.nodes[ix].local_offset_us = offset_us;
        }
    }

    /// Box `ix`'s hardware clock at the current global time.
    pub fn node_local_time(&self, ix: usize) -> (r: Micros)
        requires
            self.wf(),
            ix < self.nodes().len(),
        ensures
            r == spec_local_time(self.now(), self.nodes()[ix as int].local_offset_us, self.nodes()[ix as int].drift_ppb),
    {
        self.nodes[ix].local_time(self.global_us)
    }

    /// Start box `ix`'s next block of audio at global time `block_start_us`.
    pub fn begin_node_block(&mut self, ix: usize, block_start_us: Micros) -> (r: Option<BlockPlan>)
        requires
            old(self).wf(),
            ix < old(self).nodes().len(),
            0 <= block_start_us <= GLOBAL_LIMIT_US,
        ensures
            final(self).wf(),
            final(self).nodes().len() == old(self).nodes().len(),
            forall|i: int|
                0 <= i < old(self).nodes().len() && i != ix ==> #[trigger] final(self).nodes()[i] == old(self).nodes()[i],
            crate::device::block_started(
                old(self).nodes()[ix as int].device@,
                final(self).nodes()[ix as int].device@,
                spec_local_time(
                    block_start_us,
                    old(self).nodes()[ix as int].local_offset_us,
                    old(self).nodes()[ix as int].drift_ppb,
                ) as i64,
                r,
            ),
            final(self).now() == old(self).now(),
            final(self).pending() == old(self).pending(),
            final(self).same_settings(old(self)),
    {
        let local = self.nodes[ix].local_time(block_start_us);
        let r = self.nodes[ix].device.begin_block(local);
        assert(self.nodes@[ix as int].wf());
        r
    }

    /// The mesh time each box in `start..end` reads now (the range cut to
    /// the boxes there are).
    pub fn mesh_times(&self, start: usize, end: usize) -> (r: Vec<Micros>)
        requires
            self.wf(),
        ensures
            r@ == self.readings(self.span(start, end).0, self.span(start, end).1),
    {
        let n = self.nodes.len();
        let lo = if start < n {
            start
        } else {
            n
        };
        let hi0 = if end < n {
            end
        } else {
            n
        };
        let hi = if hi0 < lo {
            lo
        } else {
            hi0
        };
        let mut times: Vec<Micros> = Vec::new();
        let mut i = lo;
        while i < hi
            invariant
                self.wf(),
                lo <= i <= hi,
                hi <= self.nodes@.len(),
                times@ == self.readings(lo as int, hi as int).take(i - lo),
            decreases hi - i,
        {
            let local = self.nodes[i].local_time(self.global_us);
            times.push(self.nodes[i].device.mesh_from_local(local));
            assert(times@ == self.readings(lo as int, hi as int).take(i + 1 - lo));
            i = i + 1;
        }
        assert(self.readings(lo as int, hi as int).take(hi - lo) == self.readings(lo as int, hi as int));
        times
    }

    /// How tightly the boxes in `start..end` agree on mesh time now, when
    /// the statistics fit in 64 bits.
    pub fn phase_stats_for(&self, start: usize, end: usize) -> (r: Option<PhaseStats>)
        requires
            self.wf(),
        ensures
            r is Some <==> stats_fit(self.readings(self.span(start, end).0, self.span(start, end).1)),
            r matches Some(st) ==> st == spec_stats(self.readings(self.span(start, end).0, self.span(start, end).1)),
    {
        let times = self.mesh_times(start, end);
        checked_phase_stats(times.as_slice())
    }

    /// How tightly all boxes agree on mesh time now.
    pub fn phase_stats(&self) -> (r: Option<PhaseStats>)
        requires
            self.wf(),
        ensures
            r is Some <==> stats_fit(self.readings(0, self.nodes().len() as int)),
            r matches Some(st) ==> st == spec_stats(self.readings(0, self.nodes().len() as int)),
    {
        self.phase_stats_for(0, self.nodes.len())
    }

    /// The tick the shared transport plays at the current global time.
    fn drop_tick(&self) -> (r: Option<i64>)
        requires
            self.wf(),
        ensures
            r matches Some(t) ==> t == sim_transport().spec_tick_at(self.now()) + DEMO_DROP_TICKS,
            r is None ==> sim_transport().spec_tick_at(self.now()) > i64::MAX - DEMO_DROP_TICKS,
    {
        let tick = self.transport.tick_at(self.global_us);
        tick.checked_add(DEMO_DROP_TICKS)
    }

    /// Schedule the demo drop and seed change on every device's shared
    /// timeline, eight bars from now.
    pub fn schedule_demo_drop(&mut self)
        requires
            old(self).wf(),
        ensures
            final(self).wf(),
            final(self).nodes().len() == old(self).nodes().len(),
            final(self).now() == old(self).now(),
            final(self).pending() == old(self).pending(),
            ({
                let tick = sim_transport().spec_tick_at(old(self).now());
                tick <= i64::MAX - DEMO_DROP_TICKS ==> forall|i: int|
                    0 <= i < old(self).nodes().len() ==> #[trigger] drop_scheduled(
                        old(self).nodes()[i].device@.events,
                        final(self).nodes()[i].device@.events,
                        (tick + DEMO_DROP_TICKS) as i64,
                        old(self).song_seed() ^ 0xd012_d012_d012_d012,
                    )
            }),
    {
        let drop_tick = match self.drop_tick() {
            Some(t) => t,
            None => return,
        };
        let new_seed = self.seed ^ 0xd012_d012_d012_d012;
        let ghost before = self.nodes@;
        let n = self.nodes.len();
        let mut i: usize = 0;
        while i < n
            invariant
                self.wf(),
                n == self.nodes@.len(),
                before.len() == n,
                i <= n,
                self.now() == old(self).now(),
                self.pending() == old(self).pending(),
                self.seed == old(self).seed,
                new_seed == old(self).seed ^ 0xd012_d012_d012_d012,
                drop_tick == sim_transport().spec_tick_at(old(self).now()) + DEMO_DROP_TICKS,
                before == old(self).nodes(),
                forall|j: int| i <= j < n ==> #[trigger] self.nodes@[j] == before[j],
                forall|j: int|
                    0 <= j < i ==> #[trigger] drop_scheduled(
                        before[j].device@.events,
                        self.nodes@[j].device@.events,
                        drop_tick,
                        new_seed,
                    ),
            decreases n - i,
        {
            let ghost start = self.nodes@[i as int].device@.events;
            self.nodes[i].device.push_event(
                ScheduledEvent { fire_at_tick: drop_tick, action: EventAction::SetSection(Section::Drop), id: 1 },
            );
            let ghost mid = self.nodes@[i as int].device@.events;
            self.nodes[i].device.push_event(
                ScheduledEvent { fire_at_tick: drop_tick, action: EventAction::SetSeed(new_seed), id: 2 },
            );
            assert(start == before[i as int].device@.events);
            assert(pushed(
                start,
                ScheduledEvent { fire_at_tick: drop_tick, action: EventAction::SetSection(Section::Drop), id: 1 },
                mid,
                EVENT_CAPACITY as int,
            ));
            i = i + 1;
        }
    }
}

} // verus!
