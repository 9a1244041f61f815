//! Groove modes: interchangeable sample generators behind one trait.
use crate::event::Section;
use crate::groove::{groove_sample, sample_i16, GrooveConfig, GroovePart};
use crate::transport::Transport;
use crate::Micros;
use vstd::prelude::*;

verus! {

/// Everything a groove mode reads to render one sample.
#[derive(Clone, Copy, Debug, PartialEq, Eq, Structural)]
pub struct GrooveContext {
    pub root_time_us: Micros,
    pub transport: Transport,
    pub section: Section,
    pub sample_rate: u32,
    pub seed: u64,
    pub density_milli: u16,
    pub swing_milli: u16,
    pub variation: u32,
}

#[derive(Clone, Copy, Debug, PartialEq, Eq, Structural)]
pub enum GrooveModeId {
    DustyTape,
    JazzHop,
    AmbientStudy,
    DrumOnly,
}

/// A groove mode: an identity and a sample function of the context.
pub trait GrooveModeEngine {
    /// The mode's identity.
    spec fn spec_id(&self) -> GrooveModeId;

    /// The contexts (and parts) the mode can render.
    spec fn renders(&self, ctx: GrooveContext, part: GroovePart) -> bool;

    /// The sample the mode renders there.
    spec fn spec_sample(&self, ctx: GrooveContext, part: GroovePart) -> i16;

    fn id(&self) -> (r: GrooveModeId)
        ensures
            r == self.spec_id(),
    ;

    fn sample_i16(&self, ctx: GrooveContext, part: GroovePart) -> (r: i16)
        requires
            self.renders(ctx, part),
        ensures
            r == self.spec_sample(ctx, part),
    ;
}

/// The dusty-tape mode: the integer groove with the context's variation
/// folded into the seed.
#[derive(Clone, Copy, Debug, PartialEq, Eq, Structural)]
pub struct DustyTape;

/// The groove configuration a context and part give the dusty-tape mode.
pub open spec fn dusty_config(ctx: GrooveContext, part: GroovePart) -> GrooveConfig {
    GrooveConfig { sample_rate: ctx.sample_rate, seed: ctx.seed ^ (ctx.variation as u64), part }
}

impl GrooveModeEngine for DustyTape {
    open spec fn spec_id(&self) -> GrooveModeId {
        GrooveModeId::DustyTape
    }

    open spec fn renders(&self, ctx: GrooveContext, part: GroovePart) -> bool {
        &&& ctx.transport.wf()
        &&& groove_sample(ctx.root_time_us, ctx.transport, ctx.section, dusty_config(ctx, part)) is Some
    }

    open spec fn spec_sample(&self, ctx: GrooveContext, part: GroovePart) -> i16 {
        groove_sample(ctx.root_time_us, ctx.transport, ctx.section, dusty_config(ctx, part))->0
    }

    fn id(&self) -> (r: GrooveModeId) {
        GrooveModeId::DustyTape
    }

    fn sample_i16(&self, ctx: GrooveContext, part: GroovePart) -> (r: i16) {
        sample_i16(
            ctx.root_time_us,
            ctx.transport,
            ctx.section,
            GrooveConfig { sample_rate: ctx.sample_rate, seed: ctx.seed ^ ctx.variation as u64, part },
        )
    }
}

} // verus!
