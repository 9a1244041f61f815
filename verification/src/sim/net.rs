//! The simulated radio: which links carry traffic, how lossy they are, where
//! replies go, and how rendered audio advances network time.
use crate::mesh::wire::MeshMessage;
use crate::sim::node::{same_group, SAMPLE_RATE};
use crate::{Micros, NodeId};
use vstd::prelude::*;

verus! {

/// Boxes in one cluster always hear each other; across clusters only once
/// the clusters have joined.
pub fn link_active(source: usize, target: usize, global_us: Micros, group_join_us: Micros) -> (r: bool)
    ensures
        r == (source / 4 == target / 4 || global_us >= group_join_us),
{
    same_group(source, target) || global_us >= group_join_us
}

/// Packet loss in percent: light within a cluster, double across.
pub fn loss_percent(source: usize, target: usize) -> (r: u64)
    ensures
        r == if source / 4 == target / 4 { 4u64 } else { 8u64 },
{
    if same_group(source, target) {
        4
    } else {
        8
    }
}

/// Where a reply is routed back to: a probe response goes to the box that
/// asked; nothing else is a reply.
pub fn reply_target(msg: &MeshMessage) -> (r: Option<NodeId>)
    ensures
        r == match *msg {
            MeshMessage::ProbeResponse(p) => Some(p.target),
            _ => None::<NodeId>,
        },
{
    match msg {
        MeshMessage::ProbeResponse(r) => Some(r.target),
        _ => None,
    }
}

/// Network time covered by `frames` rendered samples, given the
/// microsecond-frames carried over from earlier blocks: the whole
/// microseconds, and the remainder to carry on.
pub open spec fn spec_advance(acc: i64, frames: usize) -> (i64, i64) {
    let total = acc + frames * 1_000_000;
    let dur = crate::arith::trunc_div(total, SAMPLE_RATE as int);
    (dur as i64, (total - dur * SAMPLE_RATE) as i64)
}

pub fn advance_time(acc: i64, frames: usize) -> (r: (i64, i64))
    requires
        frames * 1_000_000 <= i64::MAX,
        i64::MIN <= acc + frames * 1_000_000 <= i64::MAX,
    ensures
        r == spec_advance(acc, frames),
{
    let total = acc + frames as i64 * 1_000_000;
    let dur = total / SAMPLE_RATE as i64;
    let rest = total - dur * SAMPLE_RATE as i64;
    (dur, rest)
}

} // verus!
