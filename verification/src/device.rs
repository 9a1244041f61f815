//! The device runtime that runs identically in firmware and in the
//! simulator: one box's clock, transport, scheduled events, and what its
//! next block of audio and its screen show; plus the peer table, the LCD
//! model and font, and the device's musical identity.
pub mod display;
pub mod font;
pub mod peers;
pub mod voice;

use crate::arith::{clamp, div_euclid_i64, rem_euclid_i64, sat_add_i64, saturating_add_i64, saturating_sub_i64};
use crate::device::display::DisplayState;
use crate::device::voice::{DeviceVoice, Engine, DEFAULT_SAMPLE_RATE};
use crate::event::{pushed, EventAction, EventQueue, ScheduledEvent, Section};
use crate::clock::spec_root_from_local;
use crate::mesh::clock::spec_schedule_now;
use crate::mesh::engine::{
    beacon_polled, handled, is_dispersion, message_in_range, probe_polled, roster_of, RosterView, SyncEngine,
    SyncQuality, SyncView,
};
use crate::mesh::wire::MeshMessage;
use crate::music::arrangement::{
    coin_text, spec_fingerprint, spec_pick, spec_plan, spec_selector, spec_spotlight, spec_window, window_start,
    Arrangement, Role, RolePlan,
};
use crate::music::catalog::{element_is, element_present, rd16, root_slot};
use crate::music::score::drums::known_signature;
use crate::music::content::signature_is;
use crate::music::catalog::{
    catalog_valid, lemma_valid_catalog_readable, lemma_valid_scene_readable, ElementKind, LoopScene,
    PackedCatalog, PackedElement,
};
use crate::music::score::render::{BeatEvolution, ScoreCtx};
use crate::music::score::scene::{resolved, SymbolicScene};
use crate::music::score::session::{session_is, Session};
use crate::transport::Transport;
use crate::{Micros, NodeId};
use vstd::prelude::*;

verus! {

/// Ticks per bar (16 sixteenth steps of 24 ticks at 96 ticks per beat).
pub const TICKS_PER_BAR: i64 = 384;

/// Ticks per eight-bar phrase.
pub const TICKS_PER_PHRASE: i64 = 3072;

/// Scheduled events a device holds at once.
pub const EVENT_CAPACITY: usize = 16;

/// The catalogue can serve a device: well formed, with a coherent loop
/// scene for every seed.
pub open spec fn catalog_serves(c: PackedCatalog) -> bool {
    &&& catalog_valid(c.bytes())
    &&& forall|sel: u64| #[trigger] c.scene_anchor(sel) is Some
}

/// Everything a device holds, as values.
pub ghost struct DeviceView {
    pub id: NodeId,
    pub voice: DeviceVoice,
    pub sample_rate: u32,
    pub catalog: PackedCatalog,
    pub scene: LoopScene,
    pub music_engine: Engine,
    pub session: Session,
    pub symbolic: SymbolicScene,
    pub engine: SyncView,
    pub transport: Transport,
    pub section: Section,
    pub seed: u64,
    pub events: Seq<ScheduledEvent>,
    pub running: bool,
    pub bass_flourish_phrase: i64,
    pub bass_flourish: Option<PackedElement>,
}

/// The seed's session, loop scene, and resolved voices, from the catalogue.
#[verifier::opaque]
pub open spec fn identity_of(
    catalog: PackedCatalog,
    seed: u64,
    session: Session,
    scene: LoopScene,
    symbolic: SymbolicScene,
) -> bool {
    &&& session_is(session, seed, catalog.bytes())
    &&& catalog.scene_is(seed, scene)
    &&& resolved(symbolic, catalog.bytes(), session)
}

/// The device holds its seed's identity.
pub open spec fn follows_seed(v: DeviceView) -> bool {
    identity_of(v.catalog, v.seed, v.session, v.scene, v.symbolic)
}

/// `v` with the musical identity of another seed: its session, loop scene
/// and voices, and the bass flourish forgotten.
pub open spec fn reseeded(v: DeviceView, w: DeviceView, seed: u64) -> bool {
    &&& w.seed == seed
    &&& follows_seed(w)
    &&& w.bass_flourish_phrase == i64::MIN
    &&& w.bass_flourish is None
    &&& w == DeviceView {
        seed,
        session: w.session,
        scene: w.scene,
        symbolic: w.symbolic,
        bass_flourish_phrase: i64::MIN,
        bass_flourish: None,
        ..v
    }
}

/// `w` keeps `v`'s identity, rendering setup, catalogue, sync engine and
/// play state.
pub open spec fn same_setup(v: DeviceView, w: DeviceView) -> bool {
    &&& w.id == v.id
    &&& w.voice == v.voice
    &&& w.sample_rate == v.sample_rate
    &&& w.catalog == v.catalog
    &&& w.music_engine == v.music_engine
    &&& w.engine == v.engine
    &&& w.running == v.running
}

/// How many of the queued events are due at `tick` (the queue is in
/// firing order, so they lead it).
pub open spec fn due_count(events: Seq<ScheduledEvent>, tick: i64) -> nat
    decreases events.len(),
{
    if events.len() > 0 && events[0].fire_at_tick <= tick {
        1 + due_count(events.drop_first(), tick)
    } else {
        0
    }
}

/// The section, seed and transport after the actions of `due` take effect
/// at mesh time `root_us`, in order, with whether any of them set a seed.
pub open spec fn after_actions(
    section: Section,
    seed: u64,
    transport: Transport,
    reseed: bool,
    due: Seq<ScheduledEvent>,
    root_us: Micros,
) -> (Section, u64, Transport, bool)
    decreases due.len(),
{
    if due.len() == 0 {
        (section, seed, transport, reseed)
    } else {
        let (s, d, t, r) = after_actions(section, seed, transport, reseed, due.drop_last(), root_us);
        match due.last().action {
            EventAction::SetSection(x) => (x, d, t, r),
            EventAction::SetSeed(x) => (s, x, t, true),
            EventAction::SetTempo { bpm_milli } => (s, d, t.spec_retimed(root_us, bpm_milli), r),
        }
    }
}

/// The device after the events due at mesh time `root_us` fire: they leave
/// the queue, and their actions take effect in order; a new seed brings its
/// own musical identity.
pub open spec fn events_applied(v: DeviceView, w: DeviceView, root_us: Micros) -> bool {
    let k = due_count(v.events, v.transport.spec_tick_at(root_us));
    let (section, seed, transport, reseed) = after_actions(
        v.section,
        v.seed,
        v.transport,
        false,
        v.events.take(k as int),
        root_us,
    );
    &&& w.events == v.events.skip(k as int)
    &&& w.section == section
    &&& w.transport == transport
    &&& w.seed == seed
    &&& follows_seed(w)
    &&& (reseed ==> w.bass_flourish_phrase == i64::MIN && w.bass_flourish is None)
    &&& (!reseed ==> w.bass_flourish_phrase == v.bass_flourish_phrase && w.bass_flourish == v.bass_flourish)
    &&& same_setup(v, w)
}

proof fn lemma_after_actions_push(
    section: Section,
    seed: u64,
    transport: Transport,
    reseed: bool,
    due: Seq<ScheduledEvent>,
    e: ScheduledEvent,
    root_us: Micros,
)
    ensures
        ({
            let (s, d, t, r) = after_actions(section, seed, transport, reseed, due, root_us);
            after_actions(section, seed, transport, reseed, due.push(e), root_us) == match e.action {
                EventAction::SetSection(x) => (x, d, t, r),
                EventAction::SetSeed(x) => (s, x, t, true),
                EventAction::SetTempo { bpm_milli } => (s, d, t.spec_retimed(root_us, bpm_milli), r),
            }
        }),
{
    assert(due.push(e).drop_last() == due);
}

/// What one block of audio plays: everything the device resolves once per
/// block for its mixer.
#[derive(Clone, Copy, Debug)]
pub struct BlockPlan {
    /// Shared mesh time at the block's first sample.
    pub block_mesh: Micros,
    pub phrase: i64,
    pub roster: RosterView,
    pub arrangement: Arrangement,
    pub role_plan: RolePlan,
    pub evolution: BeatEvolution,
    /// The bass flourish loop, while the low lane holds the spotlight.
    pub bass_flourish: Option<PackedElement>,
    pub score: ScoreCtx,
    pub scene: LoopScene,
    pub music_engine: Engine,
    pub seed: u64,
    pub sample_rate: u32,
}

/// The whole audible behaviour of one physical box.
///
/// Firmware feeds it a monotonic hardware clock; the simulator feeds it a
/// drifting virtual clock. Both call exactly the same methods.
#[derive(Clone, Debug)]
pub struct Device {
    id: NodeId,
    voice: DeviceVoice,
    sample_rate: u32,
    catalog: PackedCatalog,
    scene: LoopScene,
    music_engine: Engine,
    session: Session,
    symbolic_scene: SymbolicScene,
    engine: SyncEngine,
    transport: Transport,
    section: Section,
    seed: u64,
    events: EventQueue<16>,
    running: bool,
    bass_flourish_phrase: i64,
    bass_flourish: Option<PackedElement>,
}

impl View for Device {
    type V = DeviceView;

    closed spec fn view(&self) -> DeviceView {
        DeviceView {
            id: self.id,
            voice: self.voice,
            sample_rate: self.sample_rate,
            catalog: self.catalog,
            scene: self.scene,
            music_engine: self.music_engine,
            session: self.session,
            symbolic: self.symbolic_scene,
            engine: self.engine@,
            transport: self.transport,
            section: self.section,
            seed: self.seed,
            events: self.events@,
            running: self.running,
            bass_flourish_phrase: self.bass_flourish_phrase,
            bass_flourish: self.bass_flourish,
        }
    }
}


/// The tempo product of a transport whose resolution is under 2^31 fits in
/// 64 bits at any tempo.
proof fn lemma_tempo_fits(t: Transport)
    requires
        t.ticks_per_beat < 0x8000_0000,
    ensures
        t.wf(),
        forall|bpm: u32| #[trigger] (bpm as int * t.ticks_per_beat as int) <= i64::MAX,
{
    let tpb = t.ticks_per_beat;
    let bpm = t.bpm_milli;
    assert(bpm as int * tpb as int <= i64::MAX) by (nonlinear_arith)
        requires
            bpm <= u32::MAX,
            tpb < 0x8000_0000,
    ;
    assert forall|b: u32| #[trigger] (b as int * tpb as int) <= i64::MAX by {
        assert(b as int * tpb as int <= i64::MAX) by (nonlinear_arith)
            requires
                b <= u32::MAX,
                tpb < 0x8000_0000,
        ;
    }
}

/// `e` is the bass note the catalogue files under `target` for selector
/// `sel`.
pub open spec fn filed_bass_note(c: PackedCatalog, target: u8, sel: u64, e: Option<PackedElement>) -> bool {
    let slot = rd16(c.bytes(), root_slot(0, target, (sel % 8) as int));
    &&& (slot == u16::MAX ==> e is None)
    &&& (slot != u16::MAX ==> (e is Some <==> element_present(c.bytes(), slot as int)))
    &&& (e matches Some(x) ==> element_is(x, c.bytes(), slot as int))
}

/// The phrase playing at a mesh time.
pub open spec fn phrase_at(t: Transport, mesh_us: Micros) -> int {
    t.spec_tick_at(mesh_us) / 3072
}

/// `plan` is what device `u` (its due events fired) plays for a block at
/// mesh time `mesh_us` starting at local time `local_us`, and `w` is `u`
/// with the phrase's bass flourish looked up when the phrase is new.
pub open spec fn plan_is(u: DeviceView, w: DeviceView, plan: BlockPlan, local_us: Micros, mesh_us: Micros) -> bool {
    let phrase = phrase_at(u.transport, mesh_us);
    let m = plan.roster.members();
    let target = (24 + if u.scene.key_class < 11 { u.scene.key_class as int } else { 11 }) as u8;
    &&& plan.block_mesh == mesh_us
    &&& plan.phrase == phrase
    &&& plan.roster.wf()
    &&& roster_of(u.engine, local_us, m, plan.roster.position() as int)
    &&& plan.arrangement.resolves(u.seed, m, phrase)
    &&& plan.role_plan == spec_plan(plan.roster.position(), m.len() as usize)
    &&& plan.evolution == (BeatEvolution {
        previous: spec_window(u.seed, m, window_start(phrase - 1), phrase - 1).0,
        current: plan.arrangement.params,
        phrase: phrase as i64,
        spotlight: plan.arrangement.spotlight,
    })
    &&& (u.bass_flourish_phrase != phrase ==> {
        &&& w.bass_flourish_phrase == phrase
        &&& filed_bass_note(u.catalog, target, u.seed ^ (phrase as u64).wrapping_mul(0x9e37_79b9), w.bass_flourish)
    })
    &&& (u.bass_flourish_phrase == phrase ==> w.bass_flourish_phrase == u.bass_flourish_phrase && w.bass_flourish
        == u.bass_flourish)
    &&& w == DeviceView { bass_flourish_phrase: w.bass_flourish_phrase, bass_flourish: w.bass_flourish, ..u }
    &&& plan.bass_flourish == if plan.arrangement.spotlight == Role::Low {
        w.bass_flourish
    } else {
        None
    }
    &&& plan.score == (ScoreCtx {
        transport: u.transport,
        session: u.session,
        scene: u.symbolic,
        evolution: plan.evolution,
    })
    &&& plan.score.wf()
    &&& plan.scene == u.scene
    &&& plan.music_engine == u.music_engine
    &&& plan.seed == u.seed
    &&& plan.sample_rate == u.sample_rate
}

/// Starting a block at local time `local_us`: the scheduling clock moves to
/// its mesh time, the events due by then fire, and a running device plans
/// the block (a stopped one plays silence).
pub open spec fn block_started(v: DeviceView, w: DeviceView, local_us: Micros, r: Option<BlockPlan>) -> bool {
    let (clock, mesh_us) = spec_schedule_now(v.engine.clock, local_us);
    let v1 = DeviceView { engine: SyncView { clock, ..v.engine }, ..v };
    let k = due_count(v1.events, v1.transport.spec_tick_at(mesh_us));
    let reseed = after_actions(v1.section, v1.seed, v1.transport, false, v1.events.take(k as int), mesh_us).3;
    let u = if reseed {
        DeviceView { bass_flourish_phrase: i64::MIN, bass_flourish: None, ..w }
    } else {
        DeviceView { bass_flourish_phrase: v.bass_flourish_phrase, bass_flourish: v.bass_flourish, ..w }
    };
    &&& events_applied(v1, u, mesh_us)
    &&& (!u.running ==> r is None && w == u)
    &&& (u.running ==> (r matches Some(plan) && plan_is(u, w, plan, local_us, mesh_us)))
}

/// Where a tick sits against the bars and phrases of a transport with
/// `tpb` ticks per beat: the phrase, the bars left in it, thousandths of a
/// beat to its end, and thousandths of the current bar gone.
pub open spec fn countdown_of(tick: i64, tpb: u32) -> (int, int, int, int) {
    let tpbar = tpb as int * 4;
    let bar_len = if tpbar < 1 { 1 } else { tpbar };
    let beat = if tpb < 1 { 1 } else { tpb as int };
    let to_next = (tick / 3072 + 1) * 3072 - tick;
    (
        (tick / 384) / 8,
        8 - (tick / 384) % 8,
        clamp(to_next * 1000 / beat, 0, u32::MAX as int),
        ((tick as int) % bar_len) * 1000 / bar_len,
    )
}

/// The phrase countdown of a tick, for the screen.
pub fn countdown(tick: i64, ticks_per_beat: u32) -> (r: (i64, u8, u32, u16))
    requires
        (tick / 3072 + 1) * 3072 <= i64::MAX,
    ensures
        r.0 == countdown_of(tick, ticks_per_beat).0,
        r.1 == countdown_of(tick, ticks_per_beat).1,
        r.2 == countdown_of(tick, ticks_per_beat).2,
        r.3 == countdown_of(tick, ticks_per_beat).3,
{
    let ticks_per_bar = (ticks_per_beat as i64) * 4;
    let bar_len = if ticks_per_bar < 1 {
        1
    } else {
        ticks_per_bar
    };
    let beat_phase = rem_euclid_i64(tick, bar_len);
    let bar = div_euclid_i64(tick, TICKS_PER_BAR);
    let phrase = div_euclid_i64(bar, 8);
    let next_phrase_tick = (div_euclid_i64(tick, TICKS_PER_PHRASE) + 1) * TICKS_PER_PHRASE;
    let ticks_to_next = saturating_sub_i64(next_phrase_tick, tick);
    let tpb: i64 = if ticks_per_beat < 1 {
        1
    } else {
        ticks_per_beat as i64
    };
    proof {
        assert(0 < ticks_to_next <= 3072);
    }
    let beats = (ticks_to_next * 1000) / tpb;
    let beats_to_next_milli: u32 = if beats > u32::MAX as i64 {
        u32::MAX
    } else {
        beats as u32
    };
    let bars_to_next = (8 - rem_euclid_i64(bar, 8)) as u8;
    proof {
        assert(0 <= beat_phase < bar_len);
        assert(0 <= beat_phase * 1000 / (bar_len as int) <= 1000) by (nonlinear_arith)
            requires
                0 <= beat_phase < bar_len,
        ;
        assert(0 <= beats);
    }
    (phrase, bars_to_next, beats_to_next_milli, ((beat_phase * 1000) / bar_len) as u16)
}

/// The DAC rate's sample `ix` of a block, on the mesh timeline.
pub fn sample_mesh_us(block_mesh: Micros, ix: usize, sample_rate: u32) -> (r: Micros)
    requires
        ix <= 0x1_0000_0000,
        sample_rate >= 1,
        i64::MIN <= block_mesh + ix * 1_000_000 / (sample_rate as int) <= i64::MAX,
    ensures
        r == block_mesh + ix * 1_000_000 / (sample_rate as int),
{
    block_mesh + (ix as i64 * 1_000_000 / sample_rate as i64)
}

/// A held identity plays one of the reference signatures.
proof fn lemma_identity_signature(
    catalog: PackedCatalog,
    seed: u64,
    session: Session,
    scene: LoopScene,
    symbolic: SymbolicScene,
)
    requires
        identity_of(catalog, seed, session, scene, symbolic),
    ensures
        known_signature(session.signature),
{
    reveal(identity_of);
    let i = crate::music::content::signature_index(seed);
    assert(0 <= i < 3);
}

/// The identity a seed casts from a catalogue that can serve it.
fn identity_for(catalog: &PackedCatalog, seed: u64) -> (r: (LoopScene, Session, SymbolicScene))
    requires
        catalog_serves(*catalog),
    ensures
        catalog.scene_is(seed, r.0),
        session_is(r.1, seed, catalog.bytes()),
        resolved(r.2, catalog.bytes(), r.1),
{
    proof {
        lemma_valid_scene_readable(*catalog, seed);
        assert(catalog.scene_anchor(seed) is Some);
    }
    let scene = catalog.loop_scene(seed).unwrap();
    let session = Session::new(seed, catalog);
    let symbolic = SymbolicScene::resolve(catalog, &session);
    (scene, session, symbolic)
}

impl Device {
    /// The device's parts are consistent: a serving catalogue, a
    /// well-formed sync engine and event queue, the identity of its seed, a
    /// tempo resolution any tempo fits, and a sample rate of at least one.
    pub closed spec fn wf(&self) -> bool {
        &&& catalog_serves(self.catalog)
        &&& self.engine.wf()
        &&& self.events.wf()
        &&& self.transport.ticks_per_beat < 0x8000_0000
        &&& self.sample_rate >= 1
        &&& follows_seed(self@)
    }

    /// A box on `catalog`, running and on the symbolic engine, alone on its
    /// own timeline.
    pub fn new(id: NodeId, voice: DeviceVoice, transport: Transport, seed: u64, catalog: PackedCatalog) -> (r: Self)
        requires
            catalog_serves(catalog),
            transport.ticks_per_beat < 0x8000_0000,
        ensures
            r.wf(),
            r@.id == id,
            r@.voice == voice,
            r@.sample_rate == DEFAULT_SAMPLE_RATE,
            r@.catalog == catalog,
            r@.music_engine == Engine::Symbolic,
            r@.engine.node_id == id,
            r@.engine.root_id == id,
            r@.engine.stratum == 0,
            r@.transport == transport,
            r@.section == Section::Groove,
            r@.seed == seed,
            r@.events.len() == 0,
            r@.running,
            r@.bass_flourish_phrase == i64::MIN,
            r@.bass_flourish is None,
    {
        let (scene, session, symbolic_scene) = identity_for(&catalog, seed);
        proof {
            reveal(identity_of);
        }
        Device {
            id,
            voice,
            sample_rate: DEFAULT_SAMPLE_RATE,
            catalog,
            scene,
            music_engine: Engine::Symbolic,
            session,
            symbolic_scene,
            engine: SyncEngine::new(id),
            transport,
            section: Section::Groove,
            seed,
            events: EventQueue::new(),
            running: true,
            bass_flourish_phrase: i64::MIN,
            bass_flourish: None,
        }
    }

    /// The same box rendering at another rate (at least one).
    pub fn with_sample_rate(self, sample_rate: u32) -> (r: Self)
        requires
            self.wf(),
        ensures
            r.wf(),
            r@ == (DeviceView { sample_rate: if sample_rate < 1 { 1 } else { sample_rate }, ..self@ }),
    {
        let mut d = self;
        d.sample_rate = if sample_rate < 1 {
            1
        } else {
            sample_rate
        };
        d
    }

    /// Point playback at another catalogue: the seed's identity is cast
    /// again from it.
    pub fn with_catalog(self, catalog: PackedCatalog) -> (r: Self)
        requires
            self.wf(),
            catalog_serves(catalog),
        ensures
            r.wf(),
            r@.catalog == catalog,
            follows_seed(r@),
            r@ == (DeviceView {
                catalog,
                session: r@.session,
                scene: r@.scene,
                symbolic: r@.symbolic,
                bass_flourish_phrase: i64::MIN,
                bass_flourish: None,
                ..self@
            }),
    {
        let (scene, session, symbolic_scene) = identity_for(&catalog, self.seed);
        let mut d = self;
        d.catalog = catalog;
        d.scene = scene;
        d.session = session;
        d.symbolic_scene = symbolic_scene;
        d.bass_flourish_phrase = i64::MIN;
        d.bass_flourish = None;
        proof {
            reveal(identity_of);
        }
        d
    }

    /// Select the composer driving the audible path.
    pub fn with_engine(self, engine: Engine) -> (r: Self)
        requires
            self.wf(),
        ensures
            r.wf(),
            r@ == (DeviceView { music_engine: engine, ..self@ }),
    {
        let mut d = self;
        d.music_engine = engine;
        d
    }

    /// Switch the composer in place.
    pub fn set_engine(&mut self, engine: Engine)
        requires
            old(self).wf(),
        ensures
            final(self).wf(),
            final(self)@ == (DeviceView { music_engine: engine, ..old(self)@ }),
    {
        self.music_engine = engine;
    }

    pub fn music_engine(&self) -> (r: Engine)
        ensures
            r == self@.music_engine,
    {
        self.music_engine
    }

    pub fn id(&self) -> (r: NodeId)
        ensures
            r == self@.id,
    {
        self.id
    }

    pub fn voice(&self) -> (r: DeviceVoice)
        ensures
            r == self@.voice,
    {
        self.voice
    }

    pub fn is_running(&self) -> (r: bool)
        ensures
            r == self@.running,
    {
        self.running
    }

    pub fn set_running(&mut self, running: bool)
        requires
            old(self).wf(),
        ensures
            final(self).wf(),
            final(self)@ == (DeviceView { running, ..old(self)@ }),
    {
        self.running = running;
    }

    pub fn toggle_running(&mut self)
        requires
            old(self).wf(),
        ensures
            final(self).wf(),
            final(self)@ == (DeviceView { running: !old(self)@.running, ..old(self)@ }),
    {
        self.running = !self.running;
    }

    pub fn transport(&self) -> (r: Transport)
        ensures
            r == self@.transport,
    {
        self.transport
    }

    pub fn section(&self) -> (r: Section)
        ensures
            r == self@.section,
    {
        self.section
    }

    pub fn seed(&self) -> (r: u64)
        ensures
            r == self@.seed,
    {
        self.seed
    }

    pub fn sample_rate(&self) -> (r: u32)
        ensures
            r == self@.sample_rate,
    {
        self.sample_rate
    }

    /// Map this device's local hardware clock to shared mesh time
    /// (measurement).
    pub fn mesh_from_local(&self, local_us: Micros) -> (r: Micros)
        ensures
            r == spec_root_from_local(self@.engine.clock.model, local_us),
    {
        self.engine.mesh_from_local(local_us)
    }

    /// Schedule an absolute, idempotent future event on the shared timeline;
    /// a full queue drops it.
    pub fn push_event(&mut self, event: ScheduledEvent)
        requires
            old(self).wf(),
        ensures
            final(self).wf(),
            pushed(old(self)@.events, event, final(self)@.events, EVENT_CAPACITY as int),
            final(self)@ == (DeviceView { events: final(self)@.events, ..old(self)@ }),
    {
        let _ = self.events.push(event);
    }

    /// A beacon to broadcast now, if due. `local_us` is the hardware clock.
    pub fn poll_beacon(&mut self, local_us: Micros) -> (r: Option<MeshMessage>)
        requires
            old(self).wf(),
        ensures
            final(self).wf(),
            beacon_polled(old(self)@.engine, final(self)@.engine, local_us, r),
            final(self)@ == (DeviceView { engine: final(self)@.engine, ..old(self)@ }),
    {
        self.engine.due_beacon(local_us)
    }

    /// A probe to unicast to an upstream peer now, if due, with its
    /// destination.
    pub fn poll_probe(&mut self, local_us: Micros) -> (r: Option<(NodeId, MeshMessage)>)
        requires
            old(self).wf(),
        ensures
            final(self).wf(),
            probe_polled(old(self)@.engine, final(self)@.engine, local_us, r),
            final(self)@ == (DeviceView { engine: final(self)@.engine, ..old(self)@ }),
    {
        self.engine.due_probe(local_us)
    }

    /// Ingest a received mesh frame, returning a reply to unicast back if
    /// any. `rx_local_us` is the receive-time hardware clock.
    pub fn handle(&mut self, msg: MeshMessage, rx_local_us: Micros) -> (r: Option<MeshMessage>)
        requires
            old(self).wf(),
            message_in_range(old(self)@.engine, msg, rx_local_us),
        ensures
            final(self).wf(),
            handled(old(self)@.engine, final(self)@.engine, msg, rx_local_us, r),
            final(self)@ == (DeviceView { engine: final(self)@.engine, ..old(self)@ }),
    {
        self.engine.handle(msg, rx_local_us)
    }

    /// Whether a received frame keeps the sync engine's arithmetic within
    /// 64 bits: every frame but a probe response to this box does; such a
    /// response must carry timestamps whose round trip, delay and error fit.
    pub fn accepts(&self, msg: &MeshMessage, rx_local_us: Micros) -> (r: bool)
        ensures
            r == message_in_range(self@.engine, *msg, rx_local_us),
    {
        match msg {
            MeshMessage::ProbeResponse(resp) => {
                if resp.target != self.engine.node_id() {
                    return true;
                }
                let lo = i64::MIN as i128;
                let hi = i64::MAX as i128;
                let a = rx_local_us as i128 - resp.t1_local_us as i128;
                let b = resp.t3_local_us as i128 - resp.t2_local_us as i128;
                if a < lo || a > hi || b < lo || b > hi {
                    return false;
                }
                let rtt = a - b;
                if rtt < lo || rtt > hi {
                    return false;
                }
                if rtt < 0 {
                    return true;
                }
                let delay = rtt / 2;
                if delay > crate::mesh::peer::MAX_DELAY_US as i128 {
                    return false;
                }
                let reference = resp.sender_mesh_us as i128 + delay;
                if reference < lo || reference > hi {
                    return false;
                }
                let error = reference - self.engine.mesh_from_local(rx_local_us) as i128;
                lo < error && error <= hi
            },
            _ => true,
        }
    }

    /// The tick of this device's transport at its hardware clock
    /// `local_us`, read through the mesh clock.
    pub fn tick_at_local(&self, local_us: Micros) -> (r: i64)
        requires
            self.wf(),
        ensures
            r == self@.transport.spec_tick_at(spec_root_from_local(self@.engine.clock.model, local_us)),
    {
        proof {
            lemma_tempo_fits(self.transport);
        }
        self.transport.tick_at(self.engine.mesh_from_local(local_us))
    }

    /// Current mesh sync quality (root, stratum, peer count, dispersion).
    pub fn quality(&self, now_local_us: Micros) -> (r: SyncQuality)
        requires
            self.wf(),
        ensures
            r.root_id == self@.engine.root_id,
            r.stratum == self@.engine.stratum,
            r.peers == crate::mesh::peer::fresh_of(self@.engine.peers, now_local_us).len(),
            crate::mesh::engine::is_dispersion(self@.engine, now_local_us, r.dispersion_us),
            r.is_root == (self@.engine.root_id == self@.engine.node_id),
            r.synced == (self@.engine.root_id == self@.engine.node_id || (self@.engine.stratum > 0
                && self@.engine.clock.has_reference)),
    {
        self.engine.quality(now_local_us)
    }

    /// Start one block of audio at hardware clock `block_start_local_us`:
    /// discipline the mesh clock once, fire the events now due, and resolve
    /// the shared arrangement, this box's roles and the voices for the
    /// block. A stopped device plans nothing: its block is silence.
    #[verifier::rlimit(40)]
    pub fn begin_block(&mut self, block_start_local_us: Micros) -> (r: Option<BlockPlan>)
        requires
            old(self).wf(),
        ensures
            final(self).wf(),
            block_started(old(self)@, final(self)@, block_start_local_us, r),
    {
        let ghost v = self@;
        let block_mesh = self.engine.schedule_now(block_start_local_us);
        let ghost v1 = self@;
        assert(v1 == DeviceView {
            engine: SyncView { clock: spec_schedule_now(v.engine.clock, block_start_local_us).0, ..v.engine },
            ..v
        });
        self.apply_due_events(block_mesh);
        let ghost u = self@;
        if !self.running {
            assert(events_applied(v1, u, block_mesh) && !u.running && self@ == u);
            return None;
        }
        let plan = self.plan_block(block_start_local_us, block_mesh);
        assert(events_applied(v1, u, block_mesh) && u.running && plan_is(u, self@, plan, block_start_local_us, block_mesh));
        Some(plan)
    }

    /// Resolve what a running device plays for the block at mesh time
    /// `block_mesh`, starting at hardware clock `local_us`.
    #[verifier::rlimit(40)]
    fn plan_block(&mut self, local_us: Micros, block_mesh: Micros) -> (plan: BlockPlan)
        requires
            old(self).wf(),
        ensures
            final(self).wf(),
            plan_is(old(self)@, final(self)@, plan, local_us, block_mesh),
    {
        proof {
            lemma_tempo_fits(self.transport);
            lemma_identity_signature(self.catalog, self.seed, self.session, self.scene, self.symbolic_scene);
        }
        let roster = self.engine.roster(local_us);
        let phrase = div_euclid_i64(self.transport.tick_at(block_mesh), TICKS_PER_PHRASE);
        let arrangement = Arrangement::at(self.seed, roster.ids(), phrase);
        let previous_arrangement = Arrangement::at(self.seed, roster.ids(), phrase - 1);
        let role_plan = RolePlan::for_module(roster.my_index(), roster.len());
        if self.bass_flourish_phrase != phrase {
            let key = if self.scene.key_class < 11 {
                self.scene.key_class
            } else {
                11
            };
            let bass_target = 24 + key;
            proof {
                let sel = self.seed ^ (phrase as u64).wrapping_mul(0x9e37_79b9);
                let slot = rd16(self.catalog.bytes(), root_slot(0, bass_target, (sel % 8) as int));
                lemma_valid_catalog_readable(self.catalog.bytes(), slot as int);
            }
            self.bass_flourish = self.catalog.nearest_note(
                ElementKind::BassNote,
                bass_target,
                self.seed ^ (phrase as u64).wrapping_mul(0x9e37_79b9),
            );
            self.bass_flourish_phrase = phrase;
        }
        let bass_flourish = if arrangement.spotlight == Role::Low {
            self.bass_flourish
        } else {
            None
        };
        let evolution = BeatEvolution {
            previous: previous_arrangement.params,
            current: arrangement.params,
            phrase,
            spotlight: arrangement.spotlight,
        };
        let score = ScoreCtx {
            transport: self.transport,
            session: self.session,
            scene: self.symbolic_scene,
            evolution,
        };
        BlockPlan {
            block_mesh,
            phrase,
            roster,
            arrangement,
            role_plan,
            evolution,
            bass_flourish,
            score,
            scene: self.scene,
            music_engine: self.music_engine,
            seed: self.seed,
            sample_rate: self.sample_rate,
        }
    }

    /// Snapshot for the LCD at hardware clock `now_local_us`: identity and
    /// play state, tempo, this box's roles, the arrangement now and next, a
    /// countdown to the next phrase, the mesh's health, and where the bar is.
    #[verifier::rlimit(40)]
    pub fn display_state(&self, now_local_us: Micros) -> (r: DisplayState)
        requires
            self.wf(),
            ({
                let tick = self@.transport.spec_tick_at(spec_root_from_local(self@.engine.clock.model, now_local_us));
                (tick / 3072 + 1) * 3072 <= i64::MAX
            }),
        ensures
            ({
                let v = self@;
                let tick = v.transport.spec_tick_at(spec_root_from_local(v.engine.clock.model, now_local_us));
                let c = countdown_of(tick, v.transport.ticks_per_beat);
                let phrase = c.0;
                &&& r.node_id == v.id as u32
                &&& r.playing == v.running
                &&& r.bpm_milli == v.transport.bpm_milli
                &&& r.phrase == phrase
                &&& r.bars_to_next == c.1
                &&& r.beats_to_next_milli == c.2
                &&& r.beat_phase_milli == c.3
                &&& r.peers == crate::mesh::peer::fresh_of(v.engine.peers, now_local_us).len()
                &&& is_dispersion(v.engine, now_local_us, r.sync_error_us as i32)
                &&& exists|m: Seq<NodeId>, pos: int|
                    {
                        &&& #[trigger] roster_of(v.engine, now_local_us, m, pos)
                        &&& r.role == spec_plan(pos as usize, m.len() as usize).primary
                        &&& r.role_mask == spec_plan(pos as usize, m.len() as usize).mask
                        &&& r.spotlight == spec_spotlight(v.seed, m, phrase)
                        &&& r.selector == spec_selector(m, phrase)
                        &&& r.codename.text() == coin_text(spec_fingerprint(v.seed, m, phrase))
                        &&& r.next_codename.text() == coin_text(spec_fingerprint(v.seed, m, phrase + 1))
                        &&& r.next_feature == spec_pick(v.seed, (phrase + 1) as i64, spec_selector(m, phrase + 1))
                    }
            }),
    {
        proof {
            lemma_tempo_fits(self.transport);
        }
        let mesh_us = self.engine.mesh_from_local(now_local_us);
        let tick = self.transport.tick_at(mesh_us);
        let (phrase, bars_to_next, beats_to_next_milli, beat_phase_milli) = countdown(
            tick,
            self.transport.ticks_per_beat,
        );
        let quality = self.engine.quality(now_local_us);
        let roster = self.engine.roster(now_local_us);
        let arrangement = Arrangement::at(self.seed, roster.ids(), phrase);
        let role_plan = RolePlan::for_module(roster.my_index(), roster.len());
        let next_codename = Arrangement::next_codename(self.seed, roster.ids(), phrase);
        let r = DisplayState {
            node_id: self.id as u32,
            playing: self.running,
            bpm_milli: self.transport.bpm_milli,
            role: role_plan.primary(),
            role_mask: role_plan.mask(),
            spotlight: arrangement.spotlight,
            phrase,
            selector: arrangement.selector,
            codename: arrangement.codename(),
            next_codename,
            bars_to_next,
            beats_to_next_milli,
            next_feature: arrangement.incoming,
            peers: quality.peers,
            sync_error_us: quality.dispersion_us as Micros,
            beat_phase_milli,
        };
        assert(roster_of(self@.engine, now_local_us, roster.members(), roster.position() as int));
        r
    }

    /// Carry out one scheduled action at mesh time `root_us`.
    fn apply_action(&mut self, action: EventAction, root_us: Micros)
        requires
            old(self).wf(),
        ensures
            final(self).wf(),
            match action {
                EventAction::SetSection(x) => final(self)@ == (DeviceView { section: x, ..old(self)@ }),
                EventAction::SetSeed(x) => reseeded(old(self)@, final(self)@, x),
                EventAction::SetTempo { bpm_milli } => final(self)@ == (DeviceView {
                    transport: old(self)@.transport.spec_retimed(root_us, bpm_milli),
                    ..old(self)@
                }),
            },
    {
        match action {
            EventAction::SetSection(section) => {
                self.section = section;
                proof {
                    reveal(identity_of);
                }
            },
            EventAction::SetSeed(seed) => {
                let (scene, session, symbolic_scene) = identity_for(&self.catalog, seed);
                self.seed = seed;
                self.scene = scene;
                self.session = session;
                self.symbolic_scene = symbolic_scene;
                self.bass_flourish_phrase = i64::MIN;
                self.bass_flourish = None;
                proof {
                    reveal(identity_of);
                }
            },
            EventAction::SetTempo { bpm_milli } => {
                proof {
                    reveal(identity_of);
                    let tpb = self.transport.ticks_per_beat;
                    let bpm = self.transport.bpm_milli;
                    assert(bpm_milli as int * tpb as int <= i64::MAX) by (nonlinear_arith)
                        requires
                            bpm_milli <= u32::MAX,
                            tpb < 0x8000_0000,
                    ;
                    assert(bpm as int * tpb as int <= i64::MAX) by (nonlinear_arith)
                        requires
                            bpm <= u32::MAX,
                            tpb < 0x8000_0000,
                    ;
                }
                self.transport = self.transport.retimed(root_us, bpm_milli);
            },
        }
    }

    /// Fire every event due at mesh time `root_us`, in order.
    #[verifier::rlimit(40)]
    fn apply_due_events(&mut self, root_us: Micros)
        requires
            old(self).wf(),
        ensures
            final(self).wf(),
            events_applied(old(self)@, final(self)@, root_us),
    {
        let ghost v = self@;
        proof {
            let tpb = self.transport.ticks_per_beat;
            let bpm = self.transport.bpm_milli;
            assert(bpm as int * tpb as int <= i64::MAX) by (nonlinear_arith)
                requires
                    bpm <= u32::MAX,
                    tpb < 0x8000_0000,
            ;
        }
        let tick = self.transport.tick_at(root_us);
        let ghost k = due_count(v.events, tick);
        let ghost mut j: nat = 0;
        let ghost mut reseed = false;
        loop
            invariant
                self.wf(),
                tick == v.transport.spec_tick_at(root_us),
                j + due_count(self@.events, tick) == k,
                j <= v.events.len(),
                self@.events == v.events.skip(j as int),
                (self@.section, self@.seed, self@.transport, reseed) == after_actions(
                    v.section,
                    v.seed,
                    v.transport,
                    false,
                    v.events.take(j as int),
                    root_us,
                ),
                reseed ==> self.bass_flourish_phrase == i64::MIN && self.bass_flourish is None,
                !reseed ==> self.bass_flourish_phrase == v.bass_flourish_phrase && self.bass_flourish
                    == v.bass_flourish,
                same_setup(v, self@),
            ensures
                self.wf(),
                j == k,
                self@.events == v.events.skip(k as int),
                (self@.section, self@.seed, self@.transport, reseed) == after_actions(
                    v.section,
                    v.seed,
                    v.transport,
                    false,
                    v.events.take(k as int),
                    root_us,
                ),
                reseed ==> self.bass_flourish_phrase == i64::MIN && self.bass_flourish is None,
                !reseed ==> self.bass_flourish_phrase == v.bass_flourish_phrase && self.bass_flourish
                    == v.bass_flourish,
                same_setup(v, self@),
            decreases self@.events.len(),
        {
            let ghost before = self@.events;
            let popped = self.events.pop_due(tick);
            let event = match popped {
                Some(e) => e,
                None => {
                    break;
                },
            };
            proof {
                assert(before.len() > 0 && before[0].fire_at_tick <= tick);
                assert(v.events.take((j + 1) as int) == v.events.take(j as int).push(event));
                assert(v.events.skip(j as int).drop_first() == v.events.skip((j + 1) as int));
                lemma_after_actions_push(
                    v.section,
                    v.seed,
                    v.transport,
                    false,
                    v.events.take(j as int),
                    event,
                    root_us,
                );
                j = j + 1;
            }
            self.apply_action(event.action, root_us);
            proof {
                if event.action is SetSeed {
                    reseed = true;
                }
            }
        }
    }
}

} // verus!
