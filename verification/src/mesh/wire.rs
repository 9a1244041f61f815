//! Compact wire format for the mesh sync protocol.
//!
//! Three message kinds, all well under a 250-byte radio payload: a periodic
//! broadcast `Beacon` (topology + coarse time) and the two halves of an
//! NTP-style timing exchange, `ProbeRequest` / `ProbeResponse`. Every frame is
//! a version byte, a kind byte, then the fields in little-endian order.
use crate::le::{
    get_i32, get_i64, get_u32, get_u64, i32_at, i32_le, i64_at, i64_le, lemma_le_round_trips, put_i32,
    put_i64, put_u32, put_u64, put_u8, u32_at, u64_at,
};
use crate::{Micros, NodeId};
use vstd::bytes::*;
use vstd::prelude::*;

verus! {

pub const MESH_VERSION: u8 = 1;

pub const MESH_WIRE_MAX: usize = 72;

pub const KIND_BEACON: u8 = 1;

pub const KIND_PROBE_REQUEST: u8 = 2;

pub const KIND_PROBE_RESPONSE: u8 = 3;

/// Encoded size of a beacon frame.
pub const BEACON_LEN: usize = 43;

/// Encoded size of a probe request frame.
pub const PROBE_REQUEST_LEN: usize = 30;

/// Encoded size of a probe response frame.
pub const PROBE_RESPONSE_LEN: usize = 63;

/// A periodic broadcast: who I am, who I think the mesh root is, how far I am
/// from it, and my current mesh-time estimate.
#[derive(Clone, Copy, Debug, PartialEq, Eq, Structural)]
pub struct Beacon {
    pub sender: NodeId,
    pub root_id: NodeId,
    pub epoch: u32,
    pub stratum: u8,
    pub seq: u32,
    pub mesh_us: Micros,
    pub rate_ppb: i32,
    pub root_dispersion_us: i32,
}

/// First half of a timing exchange. `t1` is the sender's local send time.
#[derive(Clone, Copy, Debug, PartialEq, Eq, Structural)]
pub struct ProbeRequest {
    pub sender: NodeId,
    pub target: NodeId,
    pub t1_local_us: Micros,
    pub seq: u32,
}

/// Second half: the four-timestamp set plus the responder's mesh-time reading.
#[derive(Clone, Copy, Debug, PartialEq, Eq, Structural)]
pub struct ProbeResponse {
    pub sender: NodeId,
    pub target: NodeId,
    pub t1_local_us: Micros,
    pub t2_local_us: Micros,
    pub t3_local_us: Micros,
    pub sender_mesh_us: Micros,
    pub root_id: NodeId,
    pub stratum: u8,
    pub seq: u32,
}

#[derive(Clone, Copy, Debug, PartialEq, Eq, Structural)]
pub enum MeshMessage {
    Beacon(Beacon),
    ProbeRequest(ProbeRequest),
    ProbeResponse(ProbeResponse),
}

#[derive(Clone, Copy, Debug, PartialEq, Eq, Structural)]
pub enum WireError {
    Short,
    Version,
    Kind,
}

/// The bytes of a message on the air.
pub open spec fn spec_encode(m: MeshMessage) -> Seq<u8> {
    match m {
        MeshMessage::Beacon(b) => seq![MESH_VERSION, KIND_BEACON]
            + spec_u64_to_le_bytes(b.sender)
            + spec_u64_to_le_bytes(b.root_id)
            + spec_u32_to_le_bytes(b.epoch)
            + seq![b.stratum]
            + spec_u32_to_le_bytes(b.seq)
            + i64_le(b.mesh_us)
            + i32_le(b.rate_ppb)
            + i32_le(b.root_dispersion_us),
        MeshMessage::ProbeRequest(p) => seq![MESH_VERSION, KIND_PROBE_REQUEST]
            + spec_u64_to_le_bytes(p.sender)
            + spec_u64_to_le_bytes(p.target)
            + i64_le(p.t1_local_us)
            + spec_u32_to_le_bytes(p.seq),
        MeshMessage::ProbeResponse(p) => seq![MESH_VERSION, KIND_PROBE_RESPONSE]
            + spec_u64_to_le_bytes(p.sender)
            + spec_u64_to_le_bytes(p.target)
            + i64_le(p.t1_local_us)
            + i64_le(p.t2_local_us)
            + i64_le(p.t3_local_us)
            + i64_le(p.sender_mesh_us)
            + spec_u64_to_le_bytes(p.root_id)
            + seq![p.stratum]
            + spec_u32_to_le_bytes(p.seq),
    }
}

/// What a received frame decodes to. Fields are read in order, so a frame
/// too short for its kind is `Short`; bytes past the last field are ignored.
pub open spec fn spec_decode(s: Seq<u8>) -> Result<MeshMessage, WireError> {
    if s.len() < 1 {
        Err(WireError::Short)
    } else if s[0] != MESH_VERSION {
        Err(WireError::Version)
    } else if s.len() < 2 {
        Err(WireError::Short)
    } else if s[1] == KIND_BEACON {
        if s.len() < BEACON_LEN {
            Err(WireError::Short)
        } else {
            Ok(MeshMessage::Beacon(Beacon {
                sender: u64_at(s, 2),
                root_id: u64_at(s, 10),
                epoch: u32_at(s, 18),
                stratum: s[22],
                seq: u32_at(s, 23),
                mesh_us: i64_at(s, 27),
                rate_ppb: i32_at(s, 35),
                root_dispersion_us: i32_at(s, 39),
            }))
        }
    } else if s[1] == KIND_PROBE_REQUEST {
        if s.len() < PROBE_REQUEST_LEN {
            Err(WireError::Short)
        } else {
            Ok(MeshMessage::ProbeRequest(ProbeRequest {
                sender: u64_at(s, 2),
                target: u64_at(s, 10),
                t1_local_us: i64_at(s, 18),
                seq: u32_at(s, 26),
            }))
        }
    } else if s[1] == KIND_PROBE_RESPONSE {
        if s.len() < PROBE_RESPONSE_LEN {
            Err(WireError::Short)
        } else {
            Ok(MeshMessage::ProbeResponse(ProbeResponse {
                sender: u64_at(s, 2),
                target: u64_at(s, 10),
                t1_local_us: i64_at(s, 18),
                t2_local_us: i64_at(s, 26),
                t3_local_us: i64_at(s, 34),
                sender_mesh_us: i64_at(s, 42),
                root_id: u64_at(s, 50),
                stratum: s[58],
                seq: u32_at(s, 59),
            }))
        }
    } else {
        Err(WireError::Kind)
    }
}

impl MeshMessage {
    /// Encode into a fixed buffer, returning the used length.
    pub fn encode(&self) -> (r: ([u8; MESH_WIRE_MAX], usize))
        ensures
            r.1 == spec_encode(*self).len(),
            r.1 <= MESH_WIRE_MAX,
            r.0@.subrange(0, r.1 as int) == spec_encode(*self),
            forall|i: int| r.1 <= i < MESH_WIRE_MAX ==> r.0@[i] == 0,
    {
        proof {
            lemma_le_round_trips();
        }
        let mut v: Vec<u8> = Vec::new();
        put_u8(&mut v, MESH_VERSION);
        match self {
            MeshMessage::Beacon(b) => {
                put_u8(&mut v, KIND_BEACON);
                put_u64(&mut v, b.sender);
                put_u64(&mut v, b.root_id);
                put_u32(&mut v, b.epoch);
                put_u8(&mut v, b.stratum);
                put_u32(&mut v, b.seq);
                put_i64(&mut v, b.mesh_us);
                put_i32(&mut v, b.rate_ppb);
                put_i32(&mut v, b.root_dispersion_us);
            },
            MeshMessage::ProbeRequest(p) => {
                put_u8(&mut v, KIND_PROBE_REQUEST);
                put_u64(&mut v, p.sender);
                put_u64(&mut v, p.target);
                put_i64(&mut v, p.t1_local_us);
                put_u32(&mut v, p.seq);
            },
            MeshMessage::ProbeResponse(p) => {
                put_u8(&mut v, KIND_PROBE_RESPONSE);
                put_u64(&mut v, p.sender);
                put_u64(&mut v, p.target);
                put_i64(&mut v, p.t1_local_us);
                put_i64(&mut v, p.t2_local_us);
                put_i64(&mut v, p.t3_local_us);
                put_i64(&mut v, p.sender_mesh_us);
                put_u64(&mut v, p.root_id);
                put_u8(&mut v, p.stratum);
                put_u32(&mut v, p.seq);
            },
        }
        assert(v@ =~= spec_encode(*self));
        let len = v.len();
        let mut buf = [0u8; MESH_WIRE_MAX];
        let mut i: usize = 0;
        while i < len
            invariant
                len == v@.len(),
                len <= MESH_WIRE_MAX,
                i <= len,
                forall|j: int| 0 <= j < i ==> buf@[j] == v@[j],
                forall|j: int| len <= j < MESH_WIRE_MAX ==> buf@[j] == 0,
            decreases len - i,
        {
            buf[i] = v[i];
            i += 1;
        }
        assert(buf@.subrange(0, len as int) =~= v@);
        (buf, len)
    }

    /// Decode a received frame.
    pub fn decode(bytes: &[u8]) -> (r: Result<MeshMessage, WireError>)
        ensures
            r == spec_decode(bytes@),
    {
        let n = bytes.len();
        if n < 1 {
            return Err(WireError::Short);
        }
        if bytes[0] != MESH_VERSION {
            return Err(WireError::Version);
        }
        if n < 2 {
            return Err(WireError::Short);
        }
        let kind = bytes[1];
        if kind == KIND_BEACON {
            if n < BEACON_LEN {
                return Err(WireError::Short);
            }
            Ok(MeshMessage::Beacon(Beacon {
                sender: get_u64(bytes, 2),
                root_id: get_u64(bytes, 10),
                epoch: get_u32(bytes, 18),
                stratum: bytes[22],
                seq: get_u32(bytes, 23),
                mesh_us: get_i64(bytes, 27),
                rate_ppb: get_i32(bytes, 35),
                root_dispersion_us: get_i32(bytes, 39),
            }))
        } else if kind == KIND_PROBE_REQUEST {
            if n < PROBE_REQUEST_LEN {
                return Err(WireError::Short);
            }
            Ok(MeshMessage::ProbeRequest(ProbeRequest {
                sender: get_u64(bytes, 2),
                target: get_u64(bytes, 10),
                t1_local_us: get_i64(bytes, 18),
                seq: get_u32(bytes, 26),
            }))
        } else if kind == KIND_PROBE_RESPONSE {
            if n < PROBE_RESPONSE_LEN {
                return Err(WireError::Short);
            }
            Ok(MeshMessage::ProbeResponse(ProbeResponse {
                sender: get_u64(bytes, 2),
                target: get_u64(bytes, 10),
                t1_local_us: get_i64(bytes, 18),
                t2_local_us: get_i64(bytes, 26),
                t3_local_us: get_i64(bytes, 34),
                sender_mesh_us: get_i64(bytes, 42),
                root_id: get_u64(bytes, 50),
                stratum: bytes[58],
                seq: get_u32(bytes, 59),
            }))
        } else {
            Err(WireError::Kind)
        }
    }
}

/// Every message decodes back to itself from its encoding, whatever bytes
/// follow it in the receive buffer.
pub proof fn lemma_wire_round_trip(m: MeshMessage, trailing: Seq<u8>)
    ensures
        spec_decode(spec_encode(m) + trailing) == Ok::<MeshMessage, WireError>(m),
        spec_encode(m).len() <= MESH_WIRE_MAX,
{
    lemma_le_round_trips();
    let e = spec_encode(m);
    let s = e + trailing;
    match m {
        MeshMessage::Beacon(b) => {
            assert(s.subrange(2, 10) =~= spec_u64_to_le_bytes(b.sender));
            assert(s.subrange(10, 18) =~= spec_u64_to_le_bytes(b.root_id));
            assert(s.subrange(18, 22) =~= spec_u32_to_le_bytes(b.epoch));
            assert(s.subrange(23, 27) =~= spec_u32_to_le_bytes(b.seq));
            assert(s.subrange(27, 35) =~= i64_le(b.mesh_us));
            assert(s.subrange(35, 39) =~= i32_le(b.rate_ppb));
            assert(s.subrange(39, 43) =~= i32_le(b.root_dispersion_us));
        },
        MeshMessage::ProbeRequest(p) => {
            assert(s.subrange(2, 10) =~= spec_u64_to_le_bytes(p.sender));
            assert(s.subrange(10, 18) =~= spec_u64_to_le_bytes(p.target));
            assert(s.subrange(18, 26) =~= i64_le(p.t1_local_us));
            assert(s.subrange(26, 30) =~= spec_u32_to_le_bytes(p.seq));
        },
        MeshMessage::ProbeResponse(p) => {
            assert(s.subrange(2, 10) =~= spec_u64_to_le_bytes(p.sender));
            assert(s.subrange(10, 18) =~= spec_u64_to_le_bytes(p.target));
            assert(s.subrange(18, 26) =~= i64_le(p.t1_local_us));
            assert(s.subrange(26, 34) =~= i64_le(p.t2_local_us));
            assert(s.subrange(34, 42) =~= i64_le(p.t3_local_us));
            assert(s.subrange(42, 50) =~= i64_le(p.sender_mesh_us));
            assert(s.subrange(50, 58) =~= spec_u64_to_le_bytes(p.root_id));
            assert(s.subrange(59, 63) =~= spec_u32_to_le_bytes(p.seq));
        },
    }
}

} // verus!
