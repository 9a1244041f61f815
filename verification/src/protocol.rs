//! The fixed 40-byte beat-sync frame: magic, version, kind, then the sender's
//! view of the shared timeline, all little-endian.
use crate::le::{
    get_i64, get_u16, get_u32, get_u64, i64_at, i64_le, lemma_le_round_trips, put_i64, put_u16,
    put_u32, put_u64, put_u8, u16_at, u32_at, u64_at,
};
use crate::{Micros, NodeId};
use vstd::bytes::*;
use vstd::prelude::*;

verus! {

pub const WIRE_LEN: usize = 40;

pub const MAGIC: [u8; 4] = [76u8, 79u8, 70u8, 73u8];

pub const VERSION: u8 = 1;

#[derive(Clone, Copy, Debug, PartialEq, Eq, Structural)]
pub enum MessageKind {
    Sync,
    Beat,
}

impl MessageKind {
    /// The kind's byte on the wire.
    pub open spec fn spec_code(self) -> u8 {
        match self {
            MessageKind::Sync => 1,
            MessageKind::Beat => 2,
        }
    }

    /// The kind's byte on the wire.
    pub fn code(self) -> (r: u8)
        ensures
            r == self.spec_code(),
    {
        match self {
            MessageKind::Sync => 1,
            MessageKind::Beat => 2,
        }
    }
}

#[derive(Clone, Copy, Debug, PartialEq, Eq, Structural)]
pub struct Frame {
    pub kind: MessageKind,
    pub node_id: NodeId,
    pub root_id: NodeId,
    pub sequence: u32,
    pub root_time_us: Micros,
    pub beat_period_us: u32,
    pub flags: u16,
}

#[derive(Clone, Copy, Debug, PartialEq, Eq, Structural)]
pub enum DecodeError {
    Length,
    Magic,
    Version,
    Kind,
    Checksum,
}

/// The 40 bytes of a frame.
pub open spec fn spec_frame_bytes(f: Frame) -> Seq<u8> {
    seq![76u8, 79u8, 70u8, 73u8, VERSION, f.kind.spec_code()]
        + spec_u64_to_le_bytes(f.node_id)
        + spec_u64_to_le_bytes(f.root_id)
        + spec_u32_to_le_bytes(f.sequence)
        + i64_le(f.root_time_us)
        + spec_u32_to_le_bytes(f.beat_period_us)
        + spec_u16_to_le_bytes(f.flags)
}

/// What a received buffer decodes to.
pub open spec fn spec_frame_decode(s: Seq<u8>) -> Result<Frame, DecodeError> {
    if s.len() != WIRE_LEN {
        Err(DecodeError::Length)
    } else if s.subrange(0, 4) != seq![76u8, 79u8, 70u8, 73u8] {
        Err(DecodeError::Magic)
    } else if s[4] != VERSION {
        Err(DecodeError::Version)
    } else if s[5] != 1 && s[5] != 2 {
        Err(DecodeError::Kind)
    } else {
        Ok(Frame {
            kind: if s[5] == 1 { MessageKind::Sync } else { MessageKind::Beat },
            node_id: u64_at(s, 6),
            root_id: u64_at(s, 14),
            sequence: u32_at(s, 22),
            root_time_us: i64_at(s, 26),
            beat_period_us: u32_at(s, 34),
            flags: u16_at(s, 38),
        })
    }
}

impl Frame {
    pub fn encode(&self) -> (r: [u8; WIRE_LEN])
        ensures
            r@ == spec_frame_bytes(*self),
    {
        proof {
            lemma_le_round_trips();
        }
        let mut v: Vec<u8> = Vec::new();
        put_u8(&mut v, 76);
        put_u8(&mut v, 79);
        put_u8(&mut v, 70);
        put_u8(&mut v, 73);
        put_u8(&mut v, VERSION);
        put_u8(&mut v, self.kind.code());
        put_u64(&mut v, self.node_id);
        put_u64(&mut v, self.root_id);
        put_u32(&mut v, self.sequence);
        put_i64(&mut v, self.root_time_us);
        put_u32(&mut v, self.beat_period_us);
        put_u16(&mut v, self.flags);
        assert(v@ =~= spec_frame_bytes(*self));
        let mut out = [0u8; WIRE_LEN];
        let mut i: usize = 0;
        while i < WIRE_LEN
            invariant
                v@.len() == WIRE_LEN,
                i <= WIRE_LEN,
                forall|j: int| 0 <= j < i ==> out@[j] == v@[j],
            decreases WIRE_LEN - i,
        {
            out[i] = v[i];
            i += 1;
        }
        assert(out@ =~= v@);
        out
    }

    pub fn decode(bytes: &[u8]) -> (r: Result<Frame, DecodeError>)
        ensures
            r == spec_frame_decode(bytes@),
    {
        if bytes.len() != WIRE_LEN {
            return Err(DecodeError::Length);
        }
        if bytes[0] != 76 || bytes[1] != 79 || bytes[2] != 70 || bytes[3] != 73 {
            assert(bytes@.subrange(0, 4) != seq![76u8, 79u8, 70u8, 73u8]) by {
                if bytes@.subrange(0, 4) == seq![76u8, 79u8, 70u8, 73u8] {
                    assert(bytes@.subrange(0, 4)[0] == bytes@[0]);
                    assert(bytes@.subrange(0, 4)[1] == bytes@[1]);
                    assert(bytes@.subrange(0, 4)[2] == bytes@[2]);
                    assert(bytes@.subrange(0, 4)[3] == bytes@[3]);
                }
            }
            return Err(DecodeError::Magic);
        }
        assert(bytes@.subrange(0, 4) =~= seq![76u8, 79u8, 70u8, 73u8]);
        if bytes[4] != VERSION {
            return Err(DecodeError::Version);
        }
        let kind = if bytes[5] == 1 {
            MessageKind::Sync
        } else if bytes[5] == 2 {
            MessageKind::Beat
        } else {
            return Err(DecodeError::Kind);
        };
        Ok(Frame {
            kind,
            node_id: get_u64(bytes, 6),
            root_id: get_u64(bytes, 14),
            sequence: get_u32(bytes, 22),
            root_time_us: get_i64(bytes, 26),
            beat_period_us: get_u32(bytes, 34),
            flags: get_u16(bytes, 38),
        })
    }
}

/// A frame survives its own encoding unchanged.
pub proof fn lemma_frame_round_trip(f: Frame)
    ensures
        spec_frame_decode(spec_frame_bytes(f)) == Ok::<Frame, DecodeError>(f),
{
    lemma_le_round_trips();
    let s = spec_frame_bytes(f);
    assert(s.subrange(0, 4) =~= seq![76u8, 79u8, 70u8, 73u8]);
    assert(s.subrange(6, 14) =~= spec_u64_to_le_bytes(f.node_id));
    assert(s.subrange(14, 22) =~= spec_u64_to_le_bytes(f.root_id));
    assert(s.subrange(22, 26) =~= spec_u32_to_le_bytes(f.sequence));
    assert(s.subrange(26, 34) =~= i64_le(f.root_time_us));
    assert(s.subrange(34, 38) =~= spec_u32_to_le_bytes(f.beat_period_us));
    assert(s.subrange(38, 40) =~= spec_u16_to_le_bytes(f.flags));
}

} // verus!
