//! What a browser-hosted virtual box computes: its timeline placed on a
//! requested phrase and tempo, the telemetry it reports, where its frames
//! go, and how the host's split 64-bit timestamps join. The host moves only
//! encoded radio frames between instances and supplies each box's clock.
use crate::arith::{clamp, sat_sub_i64, saturating_sub_i64};
use crate::clock::spec_root_from_local;
use crate::device::voice::{ArpDirection, DeviceVoice};
use crate::device::{catalog_serves, countdown_of, Device};
use crate::mesh::engine::{is_dispersion, roster_of};
use crate::music::arrangement::{spec_pick, spec_plan, spec_selector, spec_spotlight};
use crate::mesh::wire::MeshMessage;
use crate::music::arrangement::Role;
use crate::music::catalog::PackedCatalog;
use crate::transport::{Transport, DEFAULT_TICKS_PER_BEAT};
use crate::{Micros, NodeId};
use vstd::prelude::*;

verus! {

/// Frames per audio quantum.
pub const RENDER_FRAMES: usize = 128;

/// The default tempo.
pub const BPM_MILLI: u32 = 80_000;

/// The destination of a broadcast frame.
pub const BROADCAST: u32 = 0;

/// Fields in the telemetry record.
pub const STATUS_FIELDS: usize = 15;

/// A 64-bit timestamp from its low 32 bits and its signed high half.
pub fn join_micros(low: u32, high: i32) -> (r: Micros)
    ensures
        r == high as int * 0x1_0000_0000 + low as int,
{
    let r = ((high as i64) << 32) | low as i64;
    assert(((high as i64) << 32) | (low as i64) == (high as i64) * 0x1_0000_0000 + (low as i64)) by (bit_vector);
    r
}

/// A role's stable index: pulse, pocket, low, colour, motif.
pub open spec fn role_number(role: Role) -> i32 {
    match role {
        Role::Pulse => 0i32,
        Role::Pocket => 1i32,
        Role::Low => 2i32,
        Role::Color => 3i32,
        Role::Motif => 4i32,
    }
}

pub fn role_index(role: Role) -> (r: i32)
    ensures
        r == role_number(role),
{
    match role {
        Role::Pulse => 0,
        Role::Pocket => 1,
        Role::Low => 2,
        Role::Color => 3,
        Role::Motif => 4,
    }
}

/// Where a frame goes: a beacon to everyone, a probe or its response to
/// its target (the id cut to 32 bits).
pub fn message_destination(message: MeshMessage) -> (r: u32)
    ensures
        r == match message {
            MeshMessage::Beacon(_) => BROADCAST,
            MeshMessage::ProbeRequest(p) => p.target as u32,
            MeshMessage::ProbeResponse(p) => p.target as u32,
        },
{
    match message {
        MeshMessage::Beacon(_) => BROADCAST,
        MeshMessage::ProbeRequest(probe) => probe.target as u32,
        MeshMessage::ProbeResponse(probe) => probe.target as u32,
    }
}

/// The tempo a host request is held to: 40 to 200 BPM.
pub open spec fn held_tempo(bpm_milli: u32) -> u32 {
    clamp(bpm_milli as int, 40_000, 200_000) as u32
}

/// The timeline that puts the start of phrase `start_phrase` on
/// `anchor_us`, at the (held) tempo and the default resolution.
pub open spec fn positioned(anchor_us: Micros, bpm_milli: u32, start_phrase: u32) -> Transport {
    let bpm = held_tempo(bpm_milli);
    let position = (Transport { song_zero_us: 0, bpm_milli: bpm, ticks_per_beat: DEFAULT_TICKS_PER_BEAT })
        .spec_root_time_for_tick((start_phrase as int * 3072) as i64);
    Transport { song_zero_us: sat_sub_i64(anchor_us, position), bpm_milli: bpm, ticks_per_beat: DEFAULT_TICKS_PER_BEAT }
}

pub fn position_transport(anchor_us: Micros, bpm_milli: u32, start_phrase: u32) -> (r: Transport)
    ensures
        r == positioned(anchor_us, bpm_milli, start_phrase),
{
    let bpm = if bpm_milli < 40_000 {
        40_000
    } else if bpm_milli > 200_000 {
        200_000
    } else {
        bpm_milli
    };
    let phrase_ticks = (start_phrase as i64) * 4 * 8 * (DEFAULT_TICKS_PER_BEAT as i64);
    let position = Transport::new(0, bpm, DEFAULT_TICKS_PER_BEAT).root_time_for_tick(phrase_ticks);
    let song_zero_us = saturating_sub_i64(anchor_us, position);
    Transport::new(song_zero_us, bpm, DEFAULT_TICKS_PER_BEAT)
}

/// A virtual box: node `node_id` (at least 1) on `catalog`, rendering at
/// `sample_rate` (at least 1), with phrase `start_phrase` starting at the
/// joined anchor timestamp at the held tempo.
pub fn init_device(
    sample_rate: u32,
    seed: u32,
    node_id: u32,
    anchor_us_low: u32,
    anchor_us_high: i32,
    bpm_milli: u32,
    start_phrase: u32,
    catalog: PackedCatalog,
) -> (r: Device)
    requires
        catalog_serves(catalog),
    ensures
        r.wf(),
        r@.id == if node_id < 1 { 1 } else { node_id as NodeId },
        r@.voice == (DeviceVoice { beep_hz: 440, arp: ArpDirection::Up }),
        r@.sample_rate == if sample_rate < 1 { 1 } else { sample_rate },
        r@.transport == positioned(
            (anchor_us_high as int * 0x1_0000_0000 + anchor_us_low as int) as i64,
            bpm_milli,
            start_phrase,
        ),
        r@.seed == seed as u64,
        r@.catalog == catalog,
        r@.running,
        r@.events.len() == 0,
{
    let rate = if sample_rate < 1 {
        1
    } else {
        sample_rate
    };
    let id: NodeId = if node_id < 1 {
        1
    } else {
        node_id as NodeId
    };
    let anchor_us = join_micros(anchor_us_low, anchor_us_high);
    let transport = position_transport(anchor_us, bpm_milli, start_phrase);
    let voice = DeviceVoice::new(440, ArpDirection::Up);
    Device::new(id, voice, transport, seed as u64, catalog).with_sample_rate(rate)
}

/// The telemetry record at hardware clock `local_us`: node id, root id,
/// peers, dispersion, primary role, synced flag, mesh offset (clamped to 32
/// bits), bar phase, root flag, thousandths of a beat to the next phrase,
/// the arriving feature's code, the role mask, the spotlight role, the
/// phrase and the selector (each cut to 32 bits).
pub fn status_fields(device: &Device, local_us: Micros) -> (r: [i32; 15])
    requires
        device.wf(),
        ({
            let tick = device@.transport.spec_tick_at(spec_root_from_local(device@.engine.clock.model, local_us));
            (tick / 3072 + 1) * 3072 <= i64::MAX
        }),
    ensures
        ({
            let v = device@;
            let tick = v.transport.spec_tick_at(spec_root_from_local(v.engine.clock.model, local_us));
            let c = countdown_of(tick, v.transport.ticks_per_beat);
            &&& r@[0] == v.id as i32
            &&& r@[1] == v.engine.root_id as i32
            &&& r@[2] == crate::mesh::peer::fresh_of(v.engine.peers, local_us).len()
            &&& is_dispersion(v.engine, local_us, r@[3])
            &&& r@[5] == (v.engine.root_id == v.engine.node_id || (v.engine.stratum > 0
                && v.engine.clock.has_reference)) as i32
            &&& r@[6] == clamp(
                sat_sub_i64(spec_root_from_local(v.engine.clock.model, local_us), local_us) as int,
                i32::MIN as int,
                i32::MAX as int,
            )
            &&& r@[7] == c.3
            &&& r@[8] == (v.engine.root_id == v.engine.node_id) as i32
            &&& r@[9] == clamp(c.2, 0, i32::MAX as int)
            &&& r@[13] == clamp(c.0, i32::MIN as int, i32::MAX as int)
            &&& exists|m: Seq<NodeId>, pos: int|
                {
                    &&& #[trigger] roster_of(v.engine, local_us, m, pos)
                    &&& r@[4] == role_number(spec_plan(pos as usize, m.len() as usize).primary)
                    &&& r@[10] == crate::music::arrangement::spec_code(spec_pick(v.seed, (c.0 + 1) as i64, spec_selector(m, c.0 + 1)))
                    &&& r@[11] == spec_plan(pos as usize, m.len() as usize).mask
                    &&& r@[12] == role_number(spec_spotlight(v.seed, m, c.0))
                    &&& r@[14] == clamp(spec_selector(m, c.0) as int, 0, i32::MAX as int)
                }
        }),
{
    let quality = device.quality(local_us);
    let display = device.display_state(local_us);
    let mesh_offset = saturating_sub_i64(device.mesh_from_local(local_us), local_us);
    let offset = if mesh_offset < i32::MIN as i64 {
        i32::MIN
    } else if mesh_offset > i32::MAX as i64 {
        i32::MAX
    } else {
        mesh_offset as i32
    };
    let beats = if display.beats_to_next_milli > i32::MAX as u32 {
        i32::MAX
    } else {
        display.beats_to_next_milli as i32
    };
    let phrase = if display.phrase < i32::MIN as i64 {
        i32::MIN
    } else if display.phrase > i32::MAX as i64 {
        i32::MAX
    } else {
        display.phrase as i32
    };
    let selector = if display.selector > i32::MAX as u64 {
        i32::MAX
    } else {
        display.selector as i32
    };
    [
        device.id() as i32,
        quality.root_id as i32,
        quality.peers as i32,
        quality.dispersion_us,
        role_index(display.role),
        quality.synced as i32,
        offset,
        display.beat_phase_milli as i32,
        quality.is_root as i32,
        beats,
        display.next_feature.code() as i32,
        display.role_mask as i32,
        role_index(display.spotlight),
        phrase,
        selector,
    ]
}

} // verus!
