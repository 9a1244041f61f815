//! The 64-bit avalanche finaliser every deterministic choice is drawn from.
use vstd::prelude::*;

verus! {

/// The finaliser: xor-shift 30, multiply, xor-shift 27, multiply, xor-shift 31.
pub open spec fn fmix64(x: u64) -> u64 {
    let a = (x ^ (x >> 30u64)).wrapping_mul(0xbf58_476d_1ce4_e5b9);
    let b = (a ^ (a >> 27u64)).wrapping_mul(0x94d0_49bb_1331_11eb);
    b ^ (b >> 31u64)
}

pub fn mix(x: u64) -> (r: u64)
    ensures
        r == fmix64(x),
{
    let mut x = x ^ (x >> 30u64);
    x = x.wrapping_mul(0xbf58_476d_1ce4_e5b9);
    x = x ^ (x >> 27u64);
    x = x.wrapping_mul(0x94d0_49bb_1331_11eb);
    x ^ (x >> 31u64)
}

/// The finaliser's low 32 bits.
pub open spec fn fmix32(x: u64) -> u32 {
    fmix64(x) as u32
}

pub fn mix32(x: u64) -> (r: u32)
    ensures
        r == fmix32(x),
{
    mix(x) as u32
}

} // verus!
