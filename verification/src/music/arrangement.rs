//! The distributed generative arrangement.
//!
//! Boxes take turns. Every phrase (8 bars) the next device in the mesh roster
//! is the *selector* and deterministically picks one feature card; the active
//! arrangement is a sliding window of the two most recent picks. Because the
//! pick is `hash(seed, phrase, selector_id)`, every box computes the same
//! arrangement with no streaming, yet which box selects changes the outcome.
//! The active combination hashes to a coined codename.
use crate::arith::spec_max;
use crate::NodeId;
use vstd::prelude::*;
use vstd::string::StringSliceAdditionalSpecFns;
use vstd::utf8::valid_utf8;

verus! {

/// The jobs a box can take. A lone box plays them all; a swarm spreads them.
#[derive(Clone, Copy, Debug, PartialEq, Eq, Structural)]
pub enum Role {
    Pulse,
    Pocket,
    Low,
    Color,
    Motif,
}

pub const ROLES: [Role; 5] = [Role::Pulse, Role::Pocket, Role::Low, Role::Color, Role::Motif];

/// The role's bit in a role mask.
pub open spec fn spec_bit(r: Role) -> u8 {
    match r {
        Role::Pulse => 1,
        Role::Pocket => 2,
        Role::Low => 4,
        Role::Color => 8,
        Role::Motif => 16,
    }
}

/// The role's display label.
pub open spec fn spec_label(r: Role) -> Seq<char> {
    match r {
        Role::Pulse => seq!['P', 'U', 'L', 'S', 'E'],
        Role::Pocket => seq!['P', 'O', 'C', 'K', 'E', 'T'],
        Role::Low => seq!['L', 'O', 'W'],
        Role::Color => seq!['C', 'O', 'L', 'O', 'R'],
        Role::Motif => seq!['M', 'O', 'T', 'I', 'F'],
    }
}

impl Role {
    pub fn label(self) -> (r: &'static str)
        ensures
            r@ == spec_label(self),
    {
        match self {
            Role::Pulse => {
                proof {
                    reveal_strlit("PULSE");
                }
                "PULSE"
            },
            Role::Pocket => {
                proof {
                    reveal_strlit("POCKET");
                }
                "POCKET"
            },
            Role::Low => {
                proof {
                    reveal_strlit("LOW");
                }
                "LOW"
            },
            Role::Color => {
                proof {
                    reveal_strlit("COLOR");
                }
                "COLOR"
            },
            Role::Motif => {
                proof {
                    reveal_strlit("MOTIF");
                }
                "MOTIF"
            },
        }
    }

    pub fn bit(self) -> (r: u8)
        ensures
            r == spec_bit(self),
    {
        match self {
            Role::Pulse => 1,
            Role::Pocket => 2,
            Role::Low => 4,
            Role::Color => 8,
            Role::Motif => 16,
        }
    }

    /// Does device `index` of `size` play this role?
    pub fn assigned_to(self, index: usize, size: usize) -> (r: bool)
        ensures
            r == spec_plan(index, size).contains_role(self),
    {
        RolePlan::for_module(index, size).contains(self)
    }

    /// The headline role for a device.
    pub fn primary(index: usize, size: usize) -> (r: Role)
        ensures
            r == spec_plan(index, size).primary,
    {
        RolePlan::for_module(index, size).primary()
    }
}

/// The bounded local mix assigned to one module in the current roster.
///
/// One box renders the complete song. Two boxes split every lane. Larger
/// groups give every box one rhythm and one tonal lane.
#[derive(Clone, Copy, Debug, PartialEq, Eq, Structural)]
pub struct RolePlan {
    pub mask: u8,
    pub primary: Role,
}

impl RolePlan {
    pub open spec fn contains_role(self, role: Role) -> bool {
        self.mask & spec_bit(role) != 0
    }
}

/// The plan for device `index` of `size` (a size of zero counts as one, and
/// the index wraps).
pub open spec fn spec_plan(index: usize, size: usize) -> RolePlan {
    let size = if size == 0 { 1 } else { size };
    let index = index % size;
    if size == 1 {
        RolePlan { mask: 31, primary: Role::Pulse }
    } else {
        let rhythm = if index % 2 == 0 { Role::Pulse } else { Role::Pocket };
        let tonal = if index % 3 == 0 { Role::Low } else if index % 3 == 1 { Role::Color } else { Role::Motif };
        let base = spec_bit(rhythm) | spec_bit(tonal);
        RolePlan { mask: if size == 2 && index == 0 { base | 16 } else { base }, primary: rhythm }
    }
}

impl RolePlan {
    pub fn for_module(index: usize, size: usize) -> (r: Self)
        ensures
            r == spec_plan(index, size),
    {
        let size = if size == 0 {
            1
        } else {
            size
        };
        let index = index % size;
        if size == 1 {
            return Self { mask: 31, primary: Role::Pulse };
        }
        let rhythm = if index % 2 == 0 {
            Role::Pulse
        } else {
            Role::Pocket
        };
        let tonal = if index % 3 == 0 {
            Role::Low
        } else if index % 3 == 1 {
            Role::Color
        } else {
            Role::Motif
        };
        let mut mask = rhythm.bit() | tonal.bit();
        if size == 2 && index == 0 {
            mask = mask | Role::Motif.bit();
        }
        Self { mask, primary: rhythm }
    }

    pub fn contains(self, role: Role) -> (r: bool)
        ensures
            r == self.contains_role(role),
    {
        self.mask & role.bit() != 0
    }

    pub fn mask(self) -> (r: u8)
        ensures
            r == self.mask,
    {
        self.mask
    }

    pub fn primary(self) -> (r: Role)
        ensures
            r == self.primary,
    {
        self.primary
    }

    /// Fixed make-up gain for this local subset, in tenths: sparse drum and
    /// tonal pairings need more drive than kick and bass pairings to carry a
    /// room at the same volume.
    pub fn output_trim_tenths(self) -> (r: u8)
        ensures
            r == trim_tenths(self),
            10 <= r <= 70,
    {
        if self.contains(Role::Pulse) && self.contains(Role::Pocket) {
            12
        } else if self.contains(Role::Pulse) {
            if self.contains(Role::Motif) && !self.contains(Role::Low) && !self.contains(Role::Color) {
                18
            } else {
                14
            }
        } else if self.contains(Role::Low) {
            20
        } else if self.contains(Role::Motif) {
            70
        } else {
            55
        }
    }
}

/// The make-up gain of a plan, in tenths: both drum lanes 1.2; the pulse
/// with only the motif 1.8, with anything else 1.4; then low 2.0, motif 7.0,
/// and 5.5 for the rest.
pub open spec fn trim_tenths(p: RolePlan) -> u8 {
    if p.contains_role(Role::Pulse) && p.contains_role(Role::Pocket) {
        12
    } else if p.contains_role(Role::Pulse) {
        if p.contains_role(Role::Motif) && !p.contains_role(Role::Low) && !p.contains_role(Role::Color) {
            18
        } else {
            14
        }
    } else if p.contains_role(Role::Low) {
        20
    } else if p.contains_role(Role::Motif) {
        70
    } else {
        55
    }
}

/// How many roles a mask holds.
pub open spec fn role_count(mask: u8) -> int {
    (if mask & 1 != 0 { 1int } else { 0 }) + (if mask & 2 != 0 { 1int } else { 0 }) + (if mask & 4 != 0 {
        1int
    } else {
        0
    }) + (if mask & 8 != 0 { 1int } else { 0 }) + (if mask & 16 != 0 { 1int } else { 0 })
}

/// Some module of a group of `size` plays `role`.
pub open spec fn covered(role: Role, size: usize) -> bool {
    exists|index: usize| index < size && #[trigger] spec_plan(index, size).contains_role(role)
}

/// Roles are spread across a swarm: a lone box (an empty roster counts as
/// one) plays all five with the pulse at its head; of a pair the first box
/// plays three roles and the second two; in a group of
/// two or more every box plays two or three roles, always one rhythm lane
/// (Pulse or Pocket) and one tonal lane (Low, Color or Motif), never all
/// five, and the group together covers every role.
pub proof fn lemma_roles_spread(size: usize)
    ensures
        role_count(spec_plan(0, 1).mask) == 5,
        size <= 1 ==> forall|index: usize| #[trigger] spec_plan(index, size) == (RolePlan { mask: 31, primary: Role::Pulse }),
        role_count(spec_plan(0, 2).mask) == 3 && role_count(spec_plan(1, 2).mask) == 2,
        size >= 2 ==> forall|index: usize| index < size ==> {
            let plan = #[trigger] spec_plan(index, size);
            &&& 2 <= role_count(plan.mask) <= 3
            &&& plan.contains_role(Role::Pulse) || plan.contains_role(Role::Pocket)
            &&& plan.contains_role(Role::Low) || plan.contains_role(Role::Color) || plan.contains_role(Role::Motif)
        },
        size >= 2 ==> forall|role: Role| #[trigger] covered(role, size),
{
    assert((31u8 & 1) != 0 && (31u8 & 2) != 0 && (31u8 & 4) != 0 && (31u8 & 8) != 0 && (31u8 & 16) != 0) by (bit_vector);
    lemma_small_masks();
    assert(spec_plan(0, 2).mask == 21);
    assert(spec_plan(1, 2).mask == 10);
    if size <= 1 {
        assert forall|index: usize| #[trigger] spec_plan(index, size) == (RolePlan { mask: 31, primary: Role::Pulse }) by {
            assert(index % 1 == 0);
        }
    }
    if size >= 2 {
        assert forall|index: usize| index < size implies {
            let plan = #[trigger] spec_plan(index, size);
            &&& 2 <= role_count(plan.mask) <= 3
            &&& plan.contains_role(Role::Pulse) || plan.contains_role(Role::Pocket)
            &&& plan.contains_role(Role::Low) || plan.contains_role(Role::Color) || plan.contains_role(Role::Motif)
        } by {
            lemma_small_masks();
        }
        assert forall|role: Role| #[trigger] covered(role, size) by {
            lemma_small_masks();
            if size == 2 {
                assert(spec_plan(0, 2).mask == 21);
                assert(spec_plan(1, 2).mask == 10);
                match role {
                    Role::Pulse | Role::Low | Role::Motif => assert(spec_plan(0, size).contains_role(role)),
                    _ => assert(spec_plan(1, size).contains_role(role)),
                }
            } else {
                vstd::arithmetic::div_mod::lemma_small_mod(0, size as nat);
                vstd::arithmetic::div_mod::lemma_small_mod(1, size as nat);
                vstd::arithmetic::div_mod::lemma_small_mod(2, size as nat);
                assert(spec_plan(0, size).mask == 5);
                assert(spec_plan(1, size).mask == 10);
                assert(spec_plan(2, size).mask == 17);
                match role {
                    Role::Pulse | Role::Low => assert(spec_plan(0, size).contains_role(role)),
                    Role::Pocket | Role::Color => assert(spec_plan(1, size).contains_role(role)),
                    Role::Motif => assert(spec_plan(2, size).contains_role(role)),
                }
            }
        }
    }
}

/// A module's plan depends on its place in the roster alone: an index past
/// the roster wraps round it, and an empty roster counts as one box.
pub proof fn lemma_plan_wraps(index: usize, size: usize)
    ensures
        spec_plan(index, size) == spec_plan(index % (if size == 0 { 1 } else { size }), size),
{
    let s = if size == 0 { 1 } else { size };
    vstd::arithmetic::div_mod::lemma_mod_twice(index as int, s as int);
}

/// The bits and role counts of the masks plans use.
proof fn lemma_small_masks()
    ensures
        (1u8 | 4u8) == 5u8 && (1u8 | 8u8) == 9u8 && (1u8 | 16u8) == 17u8,
        (2u8 | 4u8) == 6u8 && (2u8 | 8u8) == 10u8 && (2u8 | 16u8) == 18u8,
        (5u8 | 16u8) == 21u8 && (9u8 | 16u8) == 25u8 && (17u8 | 16u8) == 17u8,
        forall|m: u8| #![trigger role_count(m)] (m == 5 || m == 9 || m == 17 || m == 6 || m == 10 || m == 18) ==> role_count(m) == 2,
        forall|m: u8| #![trigger role_count(m)] (m == 21 || m == 25) ==> role_count(m) == 3,
        (5u8 & 1) != 0 && (5u8 & 4) != 0 && (9u8 & 1) != 0 && (9u8 & 8) != 0 && (17u8 & 1) != 0 && (17u8 & 16) != 0,
        (6u8 & 2) != 0 && (6u8 & 4) != 0 && (10u8 & 2) != 0 && (10u8 & 8) != 0 && (18u8 & 2) != 0 && (18u8 & 16) != 0,
        (21u8 & 1) != 0 && (21u8 & 4) != 0 && (21u8 & 16) != 0 && (25u8 & 1) != 0 && (25u8 & 8) != 0 && (25u8 & 16) != 0,
{
    assert((1u8 | 4u8) == 5u8 && (1u8 | 8u8) == 9u8 && (1u8 | 16u8) == 17u8) by (bit_vector);
    assert((2u8 | 4u8) == 6u8 && (2u8 | 8u8) == 10u8 && (2u8 | 16u8) == 18u8) by (bit_vector);
    assert((5u8 | 16u8) == 21u8 && (9u8 | 16u8) == 25u8 && (17u8 | 16u8) == 17u8) by (bit_vector);
    assert((5u8 & 1) == 1 && (5u8 & 2) == 0 && (5u8 & 4) == 4 && (5u8 & 8) == 0 && (5u8 & 16) == 0) by (bit_vector);
    assert((9u8 & 1) == 1 && (9u8 & 2) == 0 && (9u8 & 4) == 0 && (9u8 & 8) == 8 && (9u8 & 16) == 0) by (bit_vector);
    assert((17u8 & 1) == 1 && (17u8 & 2) == 0 && (17u8 & 4) == 0 && (17u8 & 8) == 0 && (17u8 & 16) == 16) by (bit_vector);
    assert((6u8 & 1) == 0 && (6u8 & 2) == 2 && (6u8 & 4) == 4 && (6u8 & 8) == 0 && (6u8 & 16) == 0) by (bit_vector);
    assert((10u8 & 1) == 0 && (10u8 & 2) == 2 && (10u8 & 4) == 0 && (10u8 & 8) == 8 && (10u8 & 16) == 0) by (bit_vector);
    assert((18u8 & 1) == 0 && (18u8 & 2) == 2 && (18u8 & 4) == 0 && (18u8 & 8) == 0 && (18u8 & 16) == 16) by (bit_vector);
    assert((21u8 & 1) == 1 && (21u8 & 2) == 0 && (21u8 & 4) == 4 && (21u8 & 8) == 0 && (21u8 & 16) == 16) by (bit_vector);
    assert((25u8 & 1) == 1 && (25u8 & 2) == 0 && (25u8 & 4) == 0 && (25u8 & 8) == 8 && (25u8 & 16) == 16) by (bit_vector);
}

/// Generator parameters the composer reads. Features nudge these; the
/// generators clamp and derive pitch from the shared scale, so any
/// combination is safe.
#[derive(Clone, Copy, Debug, PartialEq, Eq, Structural)]
pub struct Params {
    pub kick_variant: u8,
    pub drum_fill: u8,
    /// 0 sparse, 1 normal, 2 double.
    pub hat_density: u8,
    pub open_hats: bool,
    pub ghosts: bool,
    pub half_time: bool,
    /// Added swing percent.
    pub swing_extra: u8,
    pub bass_busy: bool,
    pub bass_walk: bool,
    pub bass_shape: u8,
    pub sub_bass: bool,
    pub rich_chords: bool,
    pub keys_sparse: bool,
    pub keys_shape: u8,
    pub lead_on: bool,
    pub lead_busy: bool,
    pub lead_shape: u8,
    /// 0..3.
    pub dust: u8,
    pub texture_shape: u8,
    /// Progression seed offset.
    pub reharm: u32,
}

/// The parameters before any feature card, drawn from the seed's bits.
pub open spec fn spec_base(seed: u64) -> Params {
    Params {
        kick_variant: 0,
        drum_fill: 0,
        hat_density: 1,
        open_hats: false,
        ghosts: false,
        half_time: false,
        swing_extra: (seed % 6) as u8,
        bass_busy: false,
        bass_walk: false,
        bass_shape: (seed as u8) & 1,
        sub_bass: false,
        rich_chords: false,
        keys_sparse: false,
        keys_shape: ((seed >> 3) as u8) & 1,
        lead_on: true,
        lead_busy: false,
        lead_shape: ((seed >> 5) as u8) % 4,
        dust: 1,
        texture_shape: ((seed >> 7) as u8) & 1,
        reharm: 0,
    }
}

impl Params {
    pub fn base(seed: u64) -> (r: Self)
        ensures
            r == spec_base(seed),
    {
        Self {
            kick_variant: 0,
            drum_fill: 0,
            hat_density: 1,
            open_hats: false,
            ghosts: false,
            half_time: false,
            swing_extra: (seed % 6) as u8,
            bass_busy: false,
            bass_walk: false,
            bass_shape: (seed as u8) & 1,
            sub_bass: false,
            rich_chords: false,
            keys_sparse: false,
            keys_shape: ((seed >> 3) as u8) & 1,
            lead_on: true,
            lead_busy: false,
            lead_shape: ((seed >> 5) as u8) % 4,
            dust: 1,
            texture_shape: ((seed >> 7) as u8) & 1,
            reharm: 0,
        }
    }
}

/// One composable variation: a pure, always-safe delta on `Params`.
#[derive(Clone, Copy, Debug, PartialEq, Eq, Structural)]
pub enum Feature {
    DoubleHats,
    SparseHats,
    OpenHats,
    Ghosts,
    KickA,
    KickB,
    HalfTime,
    DrumFill,
    SwingHard,
    Walk,
    BassSkip,
    SubBass,
    BusyBass,
    RichChords,
    KeyStabs,
    SparseKeys,
    LeadIn,
    BusyLead,
    NewMotif,
    Dusty,
    PadPulse,
    Reharm,
}

/// The cards in rotation: only variations the renderer makes audible.
pub const CATALOG: [Feature; 17] = [
    Feature::DoubleHats,
    Feature::SparseHats,
    Feature::OpenHats,
    Feature::Ghosts,
    Feature::KickA,
    Feature::KickB,
    Feature::HalfTime,
    Feature::DrumFill,
    Feature::SwingHard,
    Feature::Walk,
    Feature::BassSkip,
    Feature::SubBass,
    Feature::BusyBass,
    Feature::RichChords,
    Feature::SparseKeys,
    Feature::BusyLead,
    Feature::PadPulse,
];

/// The parameters after a feature card.
pub open spec fn spec_apply(f: Feature, p: Params) -> Params {
    match f {
        Feature::DoubleHats => Params { hat_density: 2, ..p },
        Feature::SparseHats => Params { hat_density: 0, ..p },
        Feature::OpenHats => Params { open_hats: true, ..p },
        Feature::Ghosts => Params { ghosts: true, ..p },
        Feature::KickA => Params { kick_variant: 1, ..p },
        Feature::KickB => Params { kick_variant: 2, ..p },
        Feature::HalfTime => Params { half_time: true, ..p },
        Feature::DrumFill => Params { drum_fill: p.drum_fill.wrapping_add(1), ..p },
        Feature::SwingHard => Params { swing_extra: 10, ..p },
        Feature::Walk => Params { bass_walk: true, bass_busy: true, ..p },
        Feature::BassSkip => Params { bass_shape: p.bass_shape.wrapping_add(1), ..p },
        Feature::SubBass => Params { sub_bass: true, ..p },
        Feature::BusyBass => Params { bass_busy: true, ..p },
        Feature::RichChords => Params { rich_chords: true, ..p },
        Feature::KeyStabs => Params { keys_shape: p.keys_shape.wrapping_add(1), ..p },
        Feature::SparseKeys => Params { keys_sparse: true, ..p },
        Feature::LeadIn => Params { lead_on: true, ..p },
        Feature::BusyLead => Params { lead_on: true, lead_busy: true, ..p },
        Feature::NewMotif => Params { lead_on: true, lead_shape: p.lead_shape.wrapping_add(1), ..p },
        Feature::Dusty => Params { dust: 3, ..p },
        Feature::PadPulse => Params { texture_shape: p.texture_shape.wrapping_add(1), ..p },
        Feature::Reharm => Params { reharm: p.reharm.wrapping_add(1), ..p },
    }
}

/// The lane a feature belongs to.
pub open spec fn spec_role(f: Feature) -> Role {
    match f {
        Feature::KickA | Feature::KickB | Feature::HalfTime | Feature::SubBass => Role::Pulse,
        Feature::DoubleHats | Feature::SparseHats | Feature::OpenHats | Feature::Ghosts | Feature::DrumFill
        | Feature::SwingHard => Role::Pocket,
        Feature::Walk | Feature::BassSkip | Feature::BusyBass => Role::Low,
        Feature::RichChords | Feature::KeyStabs | Feature::SparseKeys | Feature::Dusty | Feature::PadPulse
        | Feature::Reharm => Role::Color,
        Feature::LeadIn | Feature::BusyLead | Feature::NewMotif => Role::Motif,
    }
}

/// The stable display code of a feature: its position plus one.
pub open spec fn spec_code(f: Feature) -> u8 {
    match f {
        Feature::DoubleHats => 1,
        Feature::SparseHats => 2,
        Feature::OpenHats => 3,
        Feature::Ghosts => 4,
        Feature::KickA => 5,
        Feature::KickB => 6,
        Feature::HalfTime => 7,
        Feature::DrumFill => 8,
        Feature::SwingHard => 9,
        Feature::Walk => 10,
        Feature::BassSkip => 11,
        Feature::SubBass => 12,
        Feature::BusyBass => 13,
        Feature::RichChords => 14,
        Feature::KeyStabs => 15,
        Feature::SparseKeys => 16,
        Feature::LeadIn => 17,
        Feature::BusyLead => 18,
        Feature::NewMotif => 19,
        Feature::Dusty => 20,
        Feature::PadPulse => 21,
        Feature::Reharm => 22,
    }
}

impl Feature {
    pub fn apply(self, p: &mut Params)
        ensures
            *final(p) == spec_apply(self, *old(p)),
    {
        let q = *p;
        *p = match self {
            Feature::DoubleHats => Params { hat_density: 2, ..q },
            Feature::SparseHats => Params { hat_density: 0, ..q },
            Feature::OpenHats => Params { open_hats: true, ..q },
            Feature::Ghosts => Params { ghosts: true, ..q },
            Feature::KickA => Params { kick_variant: 1, ..q },
            Feature::KickB => Params { kick_variant: 2, ..q },
            Feature::HalfTime => Params { half_time: true, ..q },
            Feature::DrumFill => Params { drum_fill: q.drum_fill.wrapping_add(1), ..q },
            Feature::SwingHard => Params { swing_extra: 10, ..q },
            Feature::Walk => Params { bass_walk: true, bass_busy: true, ..q },
            Feature::BassSkip => Params { bass_shape: q.bass_shape.wrapping_add(1), ..q },
            Feature::SubBass => Params { sub_bass: true, ..q },
            Feature::BusyBass => Params { bass_busy: true, ..q },
            Feature::RichChords => Params { rich_chords: true, ..q },
            Feature::KeyStabs => Params { keys_shape: q.keys_shape.wrapping_add(1), ..q },
            Feature::SparseKeys => Params { keys_sparse: true, ..q },
            Feature::LeadIn => Params { lead_on: true, ..q },
            Feature::BusyLead => Params { lead_on: true, lead_busy: true, ..q },
            Feature::NewMotif => Params { lead_on: true, lead_shape: q.lead_shape.wrapping_add(1), ..q },
            Feature::Dusty => Params { dust: 3, ..q },
            Feature::PadPulse => Params { texture_shape: q.texture_shape.wrapping_add(1), ..q },
            Feature::Reharm => Params { reharm: q.reharm.wrapping_add(1), ..q },
        };
    }

    pub fn role(self) -> (r: Role)
        ensures
            r == spec_role(self),
    {
        match self {
            Feature::KickA | Feature::KickB | Feature::HalfTime | Feature::SubBass => Role::Pulse,
            Feature::DoubleHats | Feature::SparseHats | Feature::OpenHats | Feature::Ghosts
            | Feature::DrumFill | Feature::SwingHard => Role::Pocket,
            Feature::Walk | Feature::BassSkip | Feature::BusyBass => Role::Low,
            Feature::RichChords | Feature::KeyStabs | Feature::SparseKeys | Feature::Dusty
            | Feature::PadPulse | Feature::Reharm => Role::Color,
            Feature::LeadIn | Feature::BusyLead | Feature::NewMotif => Role::Motif,
        }
    }

    /// Stable code used by the hardware display and browser telemetry.
    pub fn code(self) -> (r: u8)
        ensures
            r == spec_code(self),
    {
        match self {
            Feature::DoubleHats => 1,
            Feature::SparseHats => 2,
            Feature::OpenHats => 3,
            Feature::Ghosts => 4,
            Feature::KickA => 5,
            Feature::KickB => 6,
            Feature::HalfTime => 7,
            Feature::DrumFill => 8,
            Feature::SwingHard => 9,
            Feature::Walk => 10,
            Feature::BassSkip => 11,
            Feature::SubBass => 12,
            Feature::BusyBass => 13,
            Feature::RichChords => 14,
            Feature::KeyStabs => 15,
            Feature::SparseKeys => 16,
            Feature::LeadIn => 17,
            Feature::BusyLead => 18,
            Feature::NewMotif => 19,
            Feature::Dusty => 20,
            Feature::PadPulse => 21,
            Feature::Reharm => 22,
        }
    }
}

/// Every card in rotation is audible: whatever the seed, it changes the
/// base parameters.
pub proof fn lemma_every_feature_changes_params(seed: u64)
    ensures
        forall|i: int| 0 <= i < 17 ==> spec_apply(#[trigger] CATALOG@[i], spec_base(seed)) != spec_base(seed),
{
    let b = spec_base(seed);
    assert(b.swing_extra < 6);
    assert forall|i: int| 0 <= i < 17 implies spec_apply(#[trigger] CATALOG@[i], spec_base(seed)) != spec_base(seed) by {
        let f = CATALOG@[i];
        let a = spec_apply(f, b);
        match f {
            Feature::DrumFill => assert(a.drum_fill != b.drum_fill),
            Feature::BassSkip => assert(a.bass_shape != b.bass_shape),
            Feature::PadPulse => assert(a.texture_shape != b.texture_shape),
            _ => {},
        }
    }
}


/// Bars per arrangement phrase (one turn).
pub const BARS_PER_PHRASE: i64 = 8;

/// How many phrase cards overlap in the active arrangement.
pub const WINDOW: i64 = 2;

/// The 64-bit avalanche mixer every deterministic choice draws from.
pub open spec fn spec_splitmix(x: u64) -> u64 {
    let a = x.wrapping_add(0x9e37_79b9_7f4a_7c15);
    let b = (a ^ (a >> 30u64)).wrapping_mul(0xbf58_476d_1ce4_e5b9);
    let c = (b ^ (b >> 27u64)).wrapping_mul(0x94d0_49bb_1331_11eb);
    c ^ (c >> 31u64)
}

pub fn splitmix(x: u64) -> (r: u64)
    ensures
        r == spec_splitmix(x),
{
    let mut x = x.wrapping_add(0x9e37_79b9_7f4a_7c15);
    x = (x ^ (x >> 30u64)).wrapping_mul(0xbf58_476d_1ce4_e5b9);
    x = (x ^ (x >> 27u64)).wrapping_mul(0x94d0_49bb_1331_11eb);
    x ^ (x >> 31u64)
}

/// Shared 64-bit avalanche mixer, reused by the kit selector so all
/// deterministic choices draw from the same hash family.
pub fn mix64(x: u64) -> (r: u64)
    ensures
        r == spec_splitmix(x),
{
    splitmix(x)
}

/// The roster member that selects the card of `phrase`: the roster taken
/// round-robin (Euclidean remainder), or node 0 for an empty roster.
pub open spec fn spec_selector(roster: Seq<NodeId>, phrase: int) -> NodeId {
    if roster.len() == 0 {
        0
    } else {
        roster[phrase % (roster.len() as int)]
    }
}

pub fn selector_for(roster: &[NodeId], phrase: i64) -> (r: NodeId)
    ensures
        r == spec_selector(roster@, phrase as int),
{
    if roster.len() == 0 {
        return 0;
    }
    let n = roster.len() as i128;
    let idx = match (phrase as i128).checked_rem_euclid(n) {
        Some(v) => v,
        None => 0,
    };
    roster[idx as usize]
}

/// The feature card `selector` draws for `phrase`.
pub open spec fn spec_pick(seed: u64, phrase: i64, selector: NodeId) -> Feature {
    let h = spec_splitmix(seed ^ (phrase as u64).wrapping_mul(0x9e37_79b9) ^ selector.wrapping_mul(0x85eb_ca6b));
    CATALOG@[(h % 17) as int]
}

pub fn pick(seed: u64, phrase: i64, selector: NodeId) -> (r: Feature)
    ensures
        r == spec_pick(seed, phrase, selector),
{
    let h = splitmix(seed ^ (phrase as u64).wrapping_mul(0x9e37_79b9) ^ selector.wrapping_mul(0x85eb_ca6b));
    CATALOG[(h % 17) as usize]
}

/// The fingerprint after folding in one card drawn by `sel`.
pub open spec fn card_fingerprint(fp: u32, f: Feature, sel: NodeId) -> u32 {
    fp.wrapping_mul(31).wrapping_add(spec_code(f) as u32).wrapping_add(sel as u32)
}

/// Parameters and fingerprint after the cards of phrases `lo..=hi` in turn.
pub open spec fn spec_window(seed: u64, roster: Seq<NodeId>, lo: int, hi: int) -> (Params, u32)
    decreases hi - lo + 1,
{
    if hi < lo {
        (spec_base(seed), (seed as u32) ^ spec_base(seed).reharm)
    } else {
        let prev = spec_window(seed, roster, lo, hi - 1);
        let sel = spec_selector(roster, hi);
        let f = spec_pick(seed, hi as i64, sel);
        (spec_apply(f, prev.0), card_fingerprint(prev.1, f, sel))
    }
}

/// First phrase of the window that ends at `phrase`.
pub open spec fn window_start(phrase: int) -> int {
    spec_max(phrase - WINDOW + 1, 0)
}

/// The resolved arrangement at a given phrase.
#[derive(Clone, Copy, Debug)]
pub struct Arrangement {
    pub params: Params,
    pub selector: NodeId,
    /// The only lane allowed to add a foreground flourish this phrase.
    pub spotlight: Role,
    pub incoming: Feature,
    /// Hash of the active combination; the codename is coined from it.
    pub fingerprint: u32,
}

/// The fingerprint of the arrangement at `phrase`.
pub open spec fn spec_fingerprint(seed: u64, roster: Seq<NodeId>, phrase: int) -> u32 {
    let w = spec_window(seed, roster, window_start(phrase), phrase);
    w.1 ^ w.0.reharm.wrapping_mul(2654435761)
}

/// The spotlight lane at `phrase`: the role of the selector's card (drawn as
/// phrase 0 before the song starts).
pub open spec fn spec_spotlight(seed: u64, roster: Seq<NodeId>, phrase: int) -> Role {
    spec_role(spec_pick(seed, spec_max(phrase, 0) as i64, spec_selector(roster, phrase)))
}

impl Arrangement {
    /// Everything the arrangement at `phrase` holds, as a function of the
    /// seed and the roster.
    pub open spec fn resolves(self, seed: u64, roster: Seq<NodeId>, phrase: int) -> bool {
        &&& self.params == spec_window(seed, roster, window_start(phrase), phrase).0
        &&& self.selector == spec_selector(roster, phrase)
        &&& self.spotlight == spec_spotlight(seed, roster, phrase)
        &&& self.incoming == spec_pick(seed, (phrase + 1) as i64, spec_selector(roster, phrase + 1))
        &&& self.fingerprint == spec_fingerprint(seed, roster, phrase)
    }

    pub fn at(seed: u64, roster: &[NodeId], phrase: i64) -> (r: Self)
        requires
            i64::MIN + WINDOW <= phrase < i64::MAX,
        ensures
            r.resolves(seed, roster@, phrase as int),
    {
        let mut params = Params::base(seed);
        let lower = phrase - WINDOW + 1;
        let start: i64 = if lower > 0 {
            lower
        } else {
            0
        };
        let mut fingerprint: u32 = (seed as u32) ^ params.reharm;
        let selector = selector_for(roster, phrase);
        let first: i64 = if phrase > 0 {
            phrase
        } else {
            0
        };
        let spotlight = pick(seed, first, selector).role();
        let mut p = start;
        while p <= phrase
            invariant
                start == window_start(phrase as int),
                start <= p,
                p <= spec_max(start as int, phrase + 1),
                phrase < i64::MAX,
                (params, fingerprint) == spec_window(seed, roster@, start as int, p - 1),
            decreases phrase - p + 1,
        {
            let sel = selector_for(roster, p);
            let feature = pick(seed, p, sel);
            feature.apply(&mut params);
            fingerprint = fingerprint.wrapping_mul(31).wrapping_add(feature.code() as u32).wrapping_add(
                sel as u32,
            );
            p = p + 1;
        }
        let incoming = pick(seed, phrase + 1, selector_for(roster, phrase + 1));
        fingerprint = fingerprint ^ params.reharm.wrapping_mul(2654435761);
        Self { params, selector, spotlight, incoming, fingerprint }
    }

    /// Codename for the next phrase, so screens can preview what's coming.
    pub fn next_codename(seed: u64, roster: &[NodeId], phrase: i64) -> (r: Codename)
        requires
            i64::MIN + WINDOW <= phrase < i64::MAX - 1,
        ensures
            r.text() == coin_text(spec_fingerprint(seed, roster@, phrase + 1)),
    {
        Arrangement::at(seed, roster, phrase + 1).codename()
    }

    /// A coined, non-descriptive name that hashes the active combination.
    pub fn codename(&self) -> (r: Codename)
        ensures
            r.text() == coin_text(self.fingerprint),
    {
        Codename::coin(self.fingerprint)
    }
}

/// The spotlight is the lane of the card drawn this phrase by the roster
/// member whose turn it is, and that member is the arrangement's selector.
pub proof fn lemma_spotlight_is_selectors_card(seed: u64, roster: Seq<NodeId>, phrase: int, a: Arrangement)
    requires
        a.resolves(seed, roster, phrase),
        0 <= phrase,
    ensures
        a.selector == spec_selector(roster, phrase),
        a.spotlight == spec_role(spec_pick(seed, phrase as i64, a.selector)),
{
}

/// Every card drawn comes from the rotation.
pub proof fn lemma_pick_in_catalog(seed: u64, phrase: i64, selector: NodeId)
    ensures
        exists|k: int| 0 <= k < 17 && spec_pick(seed, phrase, selector) == #[trigger] CATALOG@[k],
{
    let h = spec_splitmix(seed ^ (phrase as u64).wrapping_mul(0x9e37_79b9) ^ selector.wrapping_mul(0x85eb_ca6b));
    let k = (h % 17) as int;
    assert(spec_pick(seed, phrase, selector) == CATALOG@[k]);
}

/// The variation budget is bounded: once the song has started, the active
/// parameters are the seed's base with at most two cards from the rotation
/// applied, the previous phrase's card and then this phrase's.
pub proof fn lemma_bounded_variation(seed: u64, roster: Seq<NodeId>, phrase: int)
    requires
        0 <= phrase,
    ensures
        phrase == 0 ==> exists|i: int| 0 <= i < 17 && spec_window(seed, roster, window_start(phrase), phrase).0
            == spec_apply(#[trigger] CATALOG@[i], spec_base(seed)),
        phrase >= 1 ==> exists|i: int, j: int|
            0 <= i < 17 && 0 <= j < 17 && spec_window(seed, roster, window_start(phrase), phrase).0
                == spec_apply(#[trigger] CATALOG@[j], spec_apply(#[trigger] CATALOG@[i], spec_base(seed))),
{
    let lo = window_start(phrase);
    let sel = spec_selector(roster, phrase);
    lemma_pick_in_catalog(seed, phrase as i64, sel);
    let j = choose|k: int| 0 <= k < 17 && spec_pick(seed, phrase as i64, sel) == #[trigger] CATALOG@[k];
    if phrase == 0 {
        assert(lo == 0);
        assert(spec_window(seed, roster, 0, -1).0 == spec_base(seed));
        assert(spec_window(seed, roster, lo, phrase).0 == spec_apply(CATALOG@[j], spec_base(seed)));
    } else {
        assert(lo == phrase - 1);
        let psel = spec_selector(roster, phrase - 1);
        lemma_pick_in_catalog(seed, (phrase - 1) as i64, psel);
        let i = choose|k: int| 0 <= k < 17 && spec_pick(seed, (phrase - 1) as i64, psel) == #[trigger] CATALOG@[k];
        assert(spec_window(seed, roster, lo, lo - 1).0 == spec_base(seed));
        assert(spec_window(seed, roster, lo, lo).0 == spec_apply(CATALOG@[i], spec_base(seed)));
        assert(spec_window(seed, roster, lo, phrase).0 == spec_apply(CATALOG@[j], spec_apply(CATALOG@[i], spec_base(seed))));
    }
}

/// Consonants a codename is coined from: the ASCII codes of "bdfgklmnprstvzjh".
pub const CONSONANTS: [u8; 16] = [98, 100, 102, 103, 107, 108, 109, 110, 112, 114, 115, 116, 118, 122, 106, 104];

/// Vowels a codename is coined from: the ASCII codes of "aeiouyao".
pub const VOWELS: [u8; 8] = [97, 101, 105, 111, 117, 121, 97, 111];

/// The hash bits left after `i` syllables have used theirs.
pub open spec fn syllable_bits(h: u64, i: nat) -> u64
    decreases i,
{
    if i == 0 {
        h
    } else {
        (syllable_bits(h, (i - 1) as nat) >> 4u64) >> 3u64
    }
}

/// The lower-case letters of the first `n` syllables coined from `h`.
pub open spec fn syllables(h: u64, n: nat) -> Seq<u8>
    decreases n,
{
    if n == 0 {
        seq![]
    } else {
        let b = syllable_bits(h, (n - 1) as nat);
        syllables(h, (n - 1) as nat) + seq![CONSONANTS@[(b & 15) as int], VOWELS@[((b >> 4u64) & 7) as int]]
    }
}

/// An ASCII letter in upper case.
pub open spec fn upper(b: u8) -> u8 {
    if 97 <= b <= 122 {
        (b - 32) as u8
    } else {
        b
    }
}

/// The codename coined from `hash`: two or three consonant-vowel syllables,
/// the first letter capitalised.
pub open spec fn coin_text(hash: u32) -> Seq<u8> {
    let h = spec_splitmix(hash as u64);
    let s = syllables(h, (2 + (h & 1)) as nat);
    s.update(0, upper(s[0]))
}

pub fn ascii_upper(b: u8) -> (r: u8)
    ensures
        r == upper(b),
{
    if 97 <= b && b <= 122 {
        b - 32
    } else {
        b
    }
}

/// A short pronounceable codename, e.g. "Toluma".
#[derive(Clone, Copy, Debug, PartialEq, Eq)]
pub struct Codename {
    bytes: [u8; 10],
    len: u8,
}

impl Codename {
    /// The codename's letters.
    pub closed spec fn text(self) -> Seq<u8> {
        self.bytes@.subrange(0, self.len as int)
    }

    #[verifier::type_invariant]
    spec fn inv(self) -> bool {
        &&& self.len <= 10
        &&& is_ascii_bytes(self.text())
    }

    pub fn coin(hash: u32) -> (r: Self)
        ensures
            r.text() == coin_text(hash),
    {
        let mut bytes = [0u8; 10];
        let h0 = splitmix(hash as u64);
        let mut h = h0;
        proof {
            assert(h0 & 1 == 0 || h0 & 1 == 1) by (bit_vector);
        }
        let count: usize = if h & 1 == 1 {
            3
        } else {
            2
        };
        let mut i: usize = 0;
        let mut len: usize = 0;
        while i < count
            invariant
                count == 2 + (h0 & 1),
                count <= 3,
                i <= count,
                len == 2 * i,
                h == syllable_bits(h0, i as nat),
                bytes@.subrange(0, len as int) == syllables(h0, i as nat),
            decreases count - i,
        {
            let ghost before = bytes@;
            proof {
                assert(h & 15 < 16 && (h >> 4u64) & 7 < 8) by (bit_vector);
            }
            let c = CONSONANTS[(h & 15) as usize];
            bytes[len] = c;
            h = h >> 4u64;
            let v = VOWELS[(h & 7) as usize];
            bytes[len + 1] = v;
            h = h >> 3u64;
            proof {
                assert(bytes@.subrange(0, len as int) == before.subrange(0, len as int));
                assert(bytes@.subrange(0, len + 2) == before.subrange(0, len as int) + seq![c, v]);
            }
            len = len + 2;
            i = i + 1;
        }
        let ghost lower = bytes@.subrange(0, len as int);
        bytes[0] = ascii_upper(bytes[0]);
        proof {
            assert(bytes@.subrange(0, len as int) == lower.update(0, upper(lower[0])));
            lemma_syllables_ascii(h0, count as nat);
        }
        Self { bytes, len: len as u8 }
    }

    pub fn as_str(&self) -> (r: &str)
        ensures
            r.spec_bytes() == self.text(),
            r@ == Seq::new(self.text().len(), |i: int| self.text()[i] as char),
            r@.len() <= 10,
    {
        proof {
            use_type_invariant(self);
        }
        let s = vstd::slice::slice_subrange(self.bytes.as_slice(), 0, self.len as usize);
        proof {
            assert(s@ == self.text());
            lemma_ascii_is_utf8(s@);
        }
        match utf8_str(s) {
            Some(t) => {
                proof {
                    vstd::utf8::encode_utf8_decode_utf8(t@);
                    lemma_ascii_decodes(s@);
                }
                t
            },
            None => "",
        }
    }
}

impl Default for Codename {
    fn default() -> (r: Self)
        ensures
            r.text() == coin_text(0),
    {
        Codename::coin(0)
    }
}

/// Every byte is ASCII.
pub open spec fn is_ascii_bytes(s: Seq<u8>) -> bool {
    forall|i: int| 0 <= i < s.len() ==> #[trigger] s[i] < 128
}

/// Consonant-vowel syllables are ASCII letters, and so is their capitalised
/// form.
proof fn lemma_syllables_ascii(h: u64, n: nat)
    ensures
        syllables(h, n).len() == 2 * n,
        is_ascii_bytes(syllables(h, n)),
        n > 0 ==> is_ascii_bytes(syllables(h, n).update(0, upper(syllables(h, n)[0]))),
    decreases n,
{
    if n > 0 {
        lemma_syllables_ascii(h, (n - 1) as nat);
        let b = syllable_bits(h, (n - 1) as nat);
        assert(b & 15 < 16 && (b >> 4u64) & 7 < 8) by (bit_vector);
        let s = syllables(h, n);
        assert forall|i: int| 0 <= i < s.len() implies #[trigger] s[i] < 128 by {
            if i >= 2 * (n - 1) {
                assert(CONSONANTS@[(b & 15) as int] < 128);
                assert(VOWELS@[((b >> 4u64) & 7) as int] < 128);
            }
        }
    }
}

/// Syllables alternate a consonant and a vowel.
proof fn lemma_syllable_letters(h: u64, n: nat)
    ensures
        syllables(h, n).len() == 2 * n,
        forall|i: int|
            0 <= i < 2 * n ==> (if i % 2 == 0 {
                CONSONANTS@.contains(#[trigger] syllables(h, n)[i])
            } else {
                VOWELS@.contains(syllables(h, n)[i])
            }),
    decreases n,
{
    if n > 0 {
        lemma_syllable_letters(h, (n - 1) as nat);
        let b = syllable_bits(h, (n - 1) as nat);
        assert(b & 15 < 16 && (b >> 4u64) & 7 < 8) by (bit_vector);
        let s = syllables(h, n);
        let prev = syllables(h, (n - 1) as nat);
        assert forall|i: int| 0 <= i < 2 * n implies (if i % 2 == 0 {
            CONSONANTS@.contains(#[trigger] s[i])
        } else {
            VOWELS@.contains(s[i])
        }) by {
            if i < 2 * (n - 1) {
                assert(s[i] == prev[i]);
            } else if i == 2 * (n - 1) {
                assert(s[i] == CONSONANTS@[(b & 15) as int]);
            } else {
                assert(s[i] == VOWELS@[((b >> 4u64) & 7) as int]);
            }
        }
    }
}

/// Codenames are pronounceable: two or three syllables, each a consonant
/// then a vowel, all ASCII, the first letter a capitalised consonant.
pub proof fn lemma_codename_pronounceable(hash: u32)
    ensures
        coin_text(hash).len() == 4 || coin_text(hash).len() == 6,
        is_ascii_bytes(coin_text(hash)),
        exists|c: u8| CONSONANTS@.contains(c) && coin_text(hash)[0] == upper(c),
        forall|i: int|
            1 <= i < coin_text(hash).len() ==> (if i % 2 == 0 {
                CONSONANTS@.contains(#[trigger] coin_text(hash)[i])
            } else {
                VOWELS@.contains(coin_text(hash)[i])
            }),
{
    let h = spec_splitmix(hash as u64);
    assert(h & 1 == 0 || h & 1 == 1) by (bit_vector);
    let n = (2 + (h & 1)) as nat;
    lemma_syllable_letters(h, n);
    lemma_syllables_ascii(h, n);
    let s = syllables(h, n);
    assert(CONSONANTS@.contains(s[0]));
    let t = coin_text(hash);
    assert forall|i: int| 1 <= i < t.len() implies (if i % 2 == 0 {
        CONSONANTS@.contains(#[trigger] t[i])
    } else {
        VOWELS@.contains(t[i])
    }) by {
        assert(t[i] == s[i]);
    }
}

/// A coined codename is pronounceable: the letters `Codename::coin(hash)`
/// holds (and `as_str` shows) are two or three syllables, each a consonant
/// of "bdfgklmnprstvzjh" then a vowel of "aeiouyao", all ASCII, the first
/// letter capitalised; the same hash always coins the same letters.
pub proof fn lemma_coined_codename_pronounceable(c: Codename, d: Codename, hash: u32)
    requires
        c.text() == coin_text(hash),
        d.text() == coin_text(hash),
    ensures
        c.text() == d.text(),
        c.text().len() == 4 || c.text().len() == 6,
        is_ascii_bytes(c.text()),
        exists|x: u8| CONSONANTS@.contains(x) && c.text()[0] == upper(x),
        forall|i: int|
            1 <= i < c.text().len() ==> (if i % 2 == 0 {
                CONSONANTS@.contains(#[trigger] c.text()[i])
            } else {
                VOWELS@.contains(c.text()[i])
            }),
{
    lemma_codename_pronounceable(hash);
}

/// ASCII bytes are valid UTF-8, one byte per character.
proof fn lemma_ascii_is_utf8(s: Seq<u8>)
    requires
        is_ascii_bytes(s),
    ensures
        valid_utf8(s),
    decreases s.len(),
{
    if s.len() > 0 {
        let b = s[0];
        assert(b < 128);
        assert((b & 0x7F) as u32 <= 0x7f) by (bit_vector);
        let rest = s.subrange(1, s.len() as int);
        assert(vstd::utf8::pop_first_scalar(s) == rest);
        lemma_ascii_is_utf8(rest);
    }
}

/// ASCII bytes decode to one character per byte, of the same value.
proof fn lemma_ascii_decodes(s: Seq<u8>)
    requires
        is_ascii_bytes(s),
    ensures
        vstd::utf8::decode_utf8(s) == Seq::new(s.len(), |i: int| s[i] as char),
    decreases s.len(),
{
    lemma_ascii_is_utf8(s);
    if s.len() > 0 {
        let b = s[0];
        assert((b & 0x7F) as u32 == b as u32) by (bit_vector)
            requires
                b < 128,
        ;
        let rest = s.subrange(1, s.len() as int);
        assert(vstd::utf8::pop_first_scalar(s) == rest);
        lemma_ascii_decodes(rest);
        assert(vstd::utf8::decode_utf8(s) =~= Seq::new(s.len(), |i: int| s[i] as char));
    }
}

/// `core::str::from_utf8`: the string slice over the bytes when they are
/// valid UTF-8, and nothing otherwise (its error is dropped).
#[verifier::external_body]
fn utf8_str<'a>(bytes: &'a [u8]) -> (r: Option<&'a str>)
    ensures
        valid_utf8(bytes@) <==> r is Some,
        r matches Some(s) ==> s.spec_bytes() == bytes@,
{
    core::str::from_utf8(bytes).ok()
}

} // verus!
