//! The disciplined mesh clock.
//!
//! Wraps the affine [`ClockModel`] with what musical scheduling needs on top:
//! a cold-start step onto the reference timeline, a re-step after persistent
//! disagreement, and a monotonic, slew-limited scheduling output.
use crate::arith::{clamp, clamp_i64, sat_add_i64, sat_sub_i64, saturating_add_i64, saturating_sub_i64};
use crate::clock::{
    observe_in_range, rejects, sat_i128_to_i64, spec_observe, spec_root_from_local, ClockModel,
    ClockView, DisciplineConfig, Observation, PPB_DENOM,
};
use crate::arith::trunc_div;
use crate::Micros;
use vstd::prelude::*;

verus! {

/// Consecutive rejected observations before the clock steps onto the
/// reference instead of treating them as bad packets.
pub const STEPOUT_REJECTS: u8 = 3;

/// Scheduling-clock corrections are bounded to 0.5% of elapsed local time.
pub const MAX_SCHEDULE_SLEW_PPM: i128 = 5_000;

/// The state of a mesh clock, as the contracts speak of it.
pub struct MeshClockView {
    pub model: ClockView,
    pub last_emitted_us: Micros,
    pub last_local_us: Micros,
    pub has_reference: bool,
    pub reject_streak: u8,
}

/// The most the scheduling output may be corrected over `local_delta`
/// microseconds of local time: 0.5% of it, at least one microsecond.
pub open spec fn max_correction(local_delta: i64) -> i64 {
    clamp(local_delta * MAX_SCHEDULE_SLEW_PPM / 1_000_000, 1, i64::MAX as int) as i64
}

/// The scheduling clock after answering `local_us`, and its answer.
pub open spec fn spec_schedule_now(c: MeshClockView, local_us: Micros) -> (MeshClockView, Micros) {
    let target = spec_root_from_local(c.model, local_us);
    if c.last_emitted_us == i64::MIN || c.last_local_us == i64::MIN {
        (MeshClockView { last_emitted_us: target, last_local_us: local_us, ..c }, target)
    } else {
        let d = sat_sub_i64(local_us, c.last_local_us);
        let local_delta = if d < 0 { 0 } else { d };
        if local_delta == 0 {
            (c, c.last_emitted_us)
        } else {
            let nominal = sat_add_i64(c.last_emitted_us, local_delta);
            let phase_error = sat_sub_i64(target, nominal);
            let m = max_correction(local_delta);
            let correction = clamp(phase_error as int, -m, m as int) as i64;
            let stepped = sat_add_i64(nominal, correction);
            let mesh = if stepped < c.last_emitted_us { c.last_emitted_us } else { stepped };
            (MeshClockView { last_emitted_us: mesh, last_local_us: local_us, ..c }, mesh)
        }
    }
}

/// What an observation reports after a step onto the reference.
pub open spec fn stepped_observation(m: ClockView) -> Observation {
    Observation { accepted: true, error_us: 0, offset_us: m.offset_us, rate_ppb: m.rate_ppb }
}

/// The inputs on which `observe` stays within its integer ranges.
pub open spec fn mesh_observe_in_range(c: MeshClockView, local_rx_us: Micros, observed_mesh_us: Micros, cfg: DisciplineConfig) -> bool {
    c.has_reference ==> observe_in_range(c.model, local_rx_us, observed_mesh_us, cfg)
}

/// The clock after a reference observation, and its report.
pub open spec fn spec_mesh_observe(c: MeshClockView, local_rx_us: Micros, observed_mesh_us: Micros, cfg: DisciplineConfig) -> (MeshClockView, Observation) {
    if !c.has_reference {
        let m = ClockView { offset_us: sat_sub_i64(observed_mesh_us, local_rx_us), rate_ppb: 0, last_sample: None };
        (MeshClockView { model: m, has_reference: true, reject_streak: 0, ..c }, stepped_observation(m))
    } else if !rejects(c.model, local_rx_us, observed_mesh_us, cfg) {
        let m = spec_observe(c.model, local_rx_us, observed_mesh_us, cfg);
        (
            MeshClockView { model: m, reject_streak: 0, ..c },
            Observation {
                accepted: true,
                error_us: sat_sub_i64(observed_mesh_us, spec_root_from_local(c.model, local_rx_us)),
                offset_us: m.offset_us,
                rate_ppb: m.rate_ppb,
            },
        )
    } else {
        let streak = if c.reject_streak == 255 { 255u8 } else { (c.reject_streak + 1) as u8 };
        if streak >= STEPOUT_REJECTS {
            let m = ClockView {
                offset_us: sat_sub_i64(observed_mesh_us, local_rx_us),
                rate_ppb: c.model.rate_ppb,
                last_sample: Some((local_rx_us, observed_mesh_us)),
            };
            (MeshClockView { model: m, reject_streak: 0, ..c }, stepped_observation(m))
        } else {
            (
                MeshClockView { reject_streak: streak, ..c },
                Observation {
                    accepted: false,
                    error_us: sat_sub_i64(observed_mesh_us, spec_root_from_local(c.model, local_rx_us)),
                    offset_us: c.model.offset_us,
                    rate_ppb: c.model.rate_ppb,
                },
            )
        }
    }
}

#[derive(Clone, Copy, Debug)]
pub struct MeshClock {
    model: ClockModel,
    last_emitted_us: Micros,
    last_local_us: Micros,
    has_reference: bool,
    reject_streak: u8,
}

impl View for MeshClock {
    type V = MeshClockView;

    closed spec fn view(&self) -> MeshClockView {
        MeshClockView {
            model: self.model@,
            last_emitted_us: self.last_emitted_us,
            last_local_us: self.last_local_us,
            has_reference: self.has_reference,
            reject_streak: self.reject_streak,
        }
    }
}

impl Default for MeshClock {
    fn default() -> (r: Self)
        ensures
            r@ == MeshClock::spec_new(),
    {
        Self::new()
    }
}

impl MeshClock {
    /// A clock with no reference yet, reading local time unchanged.
    pub open spec fn spec_new() -> MeshClockView {
        MeshClockView {
            model: ClockView { offset_us: 0, rate_ppb: 0, last_sample: None },
            last_emitted_us: i64::MIN,
            last_local_us: i64::MIN,
            has_reference: false,
            reject_streak: 0,
        }
    }

    pub fn new() -> (r: Self)
        ensures
            r@ == Self::spec_new(),
    {
        Self {
            model: ClockModel::new(),
            last_emitted_us: i64::MIN,
            last_local_us: i64::MIN,
            has_reference: false,
            reject_streak: 0,
        }
    }

    /// True once a reference observation has been applied, or the clock was
    /// anchored as the mesh root.
    pub fn has_reference(&self) -> (r: bool)
        ensures
            r == self@.has_reference,
    {
        self.has_reference
    }

    pub fn offset_us(&self) -> (r: Micros)
        ensures
            r == self@.model.offset_us,
    {
        self.model.offset_us()
    }

    pub fn rate_ppb(&self) -> (r: i32)
        ensures
            r == self@.model.rate_ppb,
    {
        self.model.rate_ppb()
    }

    /// Mesh time for a local instant, for measurement; it may step.
    pub fn mesh_from_local(&self, local_us: Micros) -> (r: Micros)
        ensures
            r == spec_root_from_local(self@.model, local_us),
    {
        self.model.root_from_local(local_us)
    }

    /// Local instant for a target mesh time (for scheduling future edges).
    pub fn local_from_mesh(&self, mesh_us: Micros) -> (r: Micros)
        requires
            i64::MIN <= mesh_us - self@.model.offset_us <= i64::MAX,
            self@.model.rate_ppb != -1_000_000_000,
        ensures
            r == sat_i128_to_i64(
                trunc_div((mesh_us - self@.model.offset_us) * PPB_DENOM, PPB_DENOM + self@.model.rate_ppb),
            ),
    {
        self.model.local_from_root(mesh_us)
    }

    /// Monotonic mesh time for scheduling: once the clock has answered, it
    /// never answers less, and it follows discipline corrections by at most
    /// 0.5% of elapsed local time.
    pub fn schedule_now(&mut self, local_us: Micros) -> (r: Micros)
        ensures
            (final(self)@, r) == spec_schedule_now(old(self)@, local_us),
            old(self)@.last_emitted_us != i64::MIN && old(self)@.last_local_us != i64::MIN
                ==> r >= old(self)@.last_emitted_us,
            final(self)@.last_emitted_us == r,
    {
        let target = self.model.root_from_local(local_us);
        if self.last_emitted_us == i64::MIN || self.last_local_us == i64::MIN {
            self.last_emitted_us = target;
            self.last_local_us = local_us;
            return target;
        }
        let d = saturating_sub_i64(local_us, self.last_local_us);
        let local_delta = if d < 0 {
            0
        } else {
            d
        };
        if local_delta == 0 {
            return self.last_emitted_us;
        }
        let nominal = saturating_add_i64(self.last_emitted_us, local_delta);
        let phase_error = saturating_sub_i64(target, nominal);
        proof {
            assert(local_delta as int * 5000 <= 0x8000_0000_0000_0000 * 5000int) by (nonlinear_arith)
                requires
                    0 <= local_delta <= 0x8000_0000_0000_0000,
            ;
            assert(local_delta as int * 5000 >= 0) by (nonlinear_arith)
                requires
                    0 <= local_delta,
            ;
        }
        let wide = ((local_delta as i128) * MAX_SCHEDULE_SLEW_PPM) / 1_000_000;
        let max_correction = if wide < 1 {
            1
        } else if wide > i64::MAX as i128 {
            i64::MAX
        } else {
            wide as i64
        };
        let correction = clamp_i64(phase_error, -max_correction, max_correction);
        let stepped = saturating_add_i64(nominal, correction);
        let mesh = if stepped < self.last_emitted_us {
            self.last_emitted_us
        } else {
            stepped
        };
        self.last_emitted_us = mesh;
        self.last_local_us = local_us;
        mesh
    }

    /// Become the mesh reference (the root): keep the current mapping and stop
    /// expecting upstream corrections.
    pub fn anchor_as_root(&mut self)
        ensures
            final(self)@ == (MeshClockView { has_reference: true, ..old(self)@ }),
    {
        self.has_reference = true;
    }

    /// Apply a reference observation: at local time `local_rx_us`, an upstream
    /// peer says mesh time is `observed_mesh_us`. The first one steps; later
    /// ones slew, and three refusals in a row step again.
    pub fn observe(&mut self, local_rx_us: Micros, observed_mesh_us: Micros, cfg: DisciplineConfig) -> (r: Observation)
        requires
            mesh_observe_in_range(old(self)@, local_rx_us, observed_mesh_us, cfg),
        ensures
            (final(self)@, r) == spec_mesh_observe(old(self)@, local_rx_us, observed_mesh_us, cfg),
            final(self)@.last_emitted_us == old(self)@.last_emitted_us,
            final(self)@.last_local_us == old(self)@.last_local_us,
            final(self)@.has_reference,
    {
        if !self.has_reference {
            self.model = ClockModel::with_offset(saturating_sub_i64(observed_mesh_us, local_rx_us));
            self.has_reference = true;
            self.reject_streak = 0;
            return self.stepped();
        }
        let observation = self.model.observe(local_rx_us, observed_mesh_us, cfg);
        if observation.accepted {
            self.reject_streak = 0;
            return observation;
        }
        self.reject_streak = self.reject_streak.saturating_add(1);
        if self.reject_streak >= STEPOUT_REJECTS {
            self.model.reanchor(local_rx_us, observed_mesh_us);
            self.reject_streak = 0;
            return self.stepped();
        }
        observation
    }

    fn stepped(&self) -> (r: Observation)
        ensures
            r == stepped_observation(self@.model),
    {
        Observation {
            accepted: true,
            error_us: 0,
            offset_us: self.model.offset_us(),
            rate_ppb: self.model.rate_ppb(),
        }
    }

    /// Force a re-step on the next observation (after a root change).
    pub fn request_resync(&mut self)
        ensures
            final(self)@ == (MeshClockView { has_reference: false, ..old(self)@ }),
    {
        self.has_reference = false;
    }
}

/// Scheduling time never runs backwards, whatever discipline happens in
/// between: after the clock has answered once, a later answer, with any
/// reference observation applied in between, is no earlier. (The most
/// negative instant marks "never answered", so an answer at it is excluded.)
pub proof fn lemma_schedule_monotone_across_discipline(
    c: MeshClockView,
    first_local_us: Micros,
    rx_local_us: Micros,
    observed_mesh_us: Micros,
    cfg: DisciplineConfig,
    second_local_us: Micros,
)
    requires
        first_local_us != i64::MIN,
        spec_schedule_now(c, first_local_us).1 != i64::MIN,
    ensures
        ({
            let (c1, first) = spec_schedule_now(c, first_local_us);
            let (c2, _) = spec_mesh_observe(c1, rx_local_us, observed_mesh_us, cfg);
            let (_, second) = spec_schedule_now(c2, second_local_us);
            second >= first
        }),
{
    let (c1, first) = spec_schedule_now(c, first_local_us);
    let (c2, _) = spec_mesh_observe(c1, rx_local_us, observed_mesh_us, cfg);
    assert(c2.last_emitted_us == first);
    assert(c2.last_local_us == c1.last_local_us);
}

/// The scheduling output is slew-limited across whatever happens between two
/// answers. `c` is the clock when it next answers, at `local_us`: it last
/// answered `first` at `first_local_us`, and the calls in between
/// (`observe`, `anchor_as_root`, `request_resync`) keep both. The next answer
/// is never earlier, moves by the elapsed local time `d` give or take the
/// slew limit `m` (0.5% of `d`, at least one microsecond), and repeats when
/// no local time has passed. Stated where the answer does not saturate.
pub proof fn lemma_schedule_slew_limited(c: MeshClockView, first: Micros, first_local_us: Micros, local_us: Micros)
    requires
        c.last_emitted_us == first,
        c.last_local_us == first_local_us,
        first != i64::MIN,
        first_local_us != i64::MIN,
        first_local_us <= local_us <= first_local_us + i64::MAX,
        i64::MIN <= first + (local_us - first_local_us) - max_correction((local_us - first_local_us) as i64),
        first + (local_us - first_local_us) + max_correction((local_us - first_local_us) as i64) <= i64::MAX,
    ensures
        ({
            let d = local_us - first_local_us;
            let m = max_correction(d as i64);
            let r = spec_schedule_now(c, local_us).1;
            &&& m == (if d * 5_000 / 1_000_000 < 1 { 1 } else { d * 5_000 / 1_000_000 })
            &&& r >= first
            &&& d - m <= r - first <= d + m
            &&& d == 0 ==> r == first
        }),
{
    let d = local_us - first_local_us;
    assert(0 <= d * 5_000 / 1_000_000 <= d) by (nonlinear_arith)
        requires
            0 <= d,
    ;
    let m = max_correction(d as i64);
    assert(sat_sub_i64(local_us, first_local_us) == d);
    if d > 0 {
        let nominal = sat_add_i64(first, d as i64);
        assert(nominal == first + d);
        let target = spec_root_from_local(c.model, local_us);
        let phase_error = sat_sub_i64(target, nominal);
        let correction = clamp(phase_error as int, -m, m as int);
        assert(-m <= correction <= m);
        assert(sat_add_i64(nominal, correction as i64) == first + d + correction);
    }
}

/// A clock that has never answered answers with its model's mesh time.
pub proof fn lemma_first_answer_is_mesh_time(c: MeshClockView, local_us: Micros)
    requires
        c.last_emitted_us == i64::MIN || c.last_local_us == i64::MIN,
    ensures
        spec_schedule_now(c, local_us).1 == spec_root_from_local(c.model, local_us),
{
}

} // verus!
