//! Little-endian field codecs shared by the wire formats.
//!
//! Every multi-byte field on the air is little-endian. Writers append a field's
//! bytes to a growing buffer; readers decode the field found at an offset.
use vstd::bytes::*;
use vstd::prelude::*;

verus! {

/// The little-endian bytes of a signed 32-bit value (two's complement).
pub open spec fn i32_le(x: i32) -> Seq<u8> {
    spec_u32_to_le_bytes(x as u32)
}

/// The little-endian bytes of a signed 64-bit value (two's complement).
pub open spec fn i64_le(x: i64) -> Seq<u8> {
    spec_u64_to_le_bytes(x as u64)
}

/// The unsigned 16-bit value stored at `pos`.
pub open spec fn u16_at(s: Seq<u8>, pos: int) -> u16 {
    spec_u16_from_le_bytes(s.subrange(pos, pos + 2))
}

/// The unsigned 32-bit value stored at `pos`.
pub open spec fn u32_at(s: Seq<u8>, pos: int) -> u32 {
    spec_u32_from_le_bytes(s.subrange(pos, pos + 4))
}

/// The unsigned 64-bit value stored at `pos`.
pub open spec fn u64_at(s: Seq<u8>, pos: int) -> u64 {
    spec_u64_from_le_bytes(s.subrange(pos, pos + 8))
}

/// The signed 32-bit value stored at `pos`.
pub open spec fn i32_at(s: Seq<u8>, pos: int) -> i32 {
    u32_at(s, pos) as i32
}

/// The signed 64-bit value stored at `pos`.
pub open spec fn i64_at(s: Seq<u8>, pos: int) -> i64 {
    u64_at(s, pos) as i64
}

/// Lengths of the encodings, and the values decoded back from them.
pub proof fn lemma_le_round_trips()
    ensures
        forall|x: u16| #![trigger spec_u16_to_le_bytes(x)]
            spec_u16_to_le_bytes(x).len() == 2 && spec_u16_from_le_bytes(spec_u16_to_le_bytes(x)) == x,
        forall|x: u32| #![trigger spec_u32_to_le_bytes(x)]
            spec_u32_to_le_bytes(x).len() == 4 && spec_u32_from_le_bytes(spec_u32_to_le_bytes(x)) == x,
        forall|x: u64| #![trigger spec_u64_to_le_bytes(x)]
            spec_u64_to_le_bytes(x).len() == 8 && spec_u64_from_le_bytes(spec_u64_to_le_bytes(x)) == x,
        forall|x: i32| #![trigger i32_le(x)] i32_le(x).len() == 4 && spec_u32_from_le_bytes(i32_le(x)) as i32 == x,
        forall|x: i64| #![trigger i64_le(x)] i64_le(x).len() == 8 && spec_u64_from_le_bytes(i64_le(x)) as i64 == x,
{
    lemma_auto_spec_u16_to_from_le_bytes();
    lemma_auto_spec_u32_to_from_le_bytes();
    lemma_auto_spec_u64_to_from_le_bytes();
    assert forall|x: i32| #![trigger i32_le(x)] i32_le(x).len() == 4 && spec_u32_from_le_bytes(i32_le(x)) as i32 == x by {
        assert(spec_u32_to_le_bytes(x as u32).len() == 4);
        assert(((x as u32) as i32) == x) by (bit_vector);
    }
    assert forall|x: i64| #![trigger i64_le(x)] i64_le(x).len() == 8 && spec_u64_from_le_bytes(i64_le(x)) as i64 == x by {
        assert(spec_u64_to_le_bytes(x as u64).len() == 8);
        assert(((x as u64) as i64) == x) by (bit_vector);
    }
}

/// Append one byte.
pub fn put_u8(out: &mut Vec<u8>, v: u8)
    ensures
        final(out)@ == old(out)@.push(v),
{
    out.push(v);
}

/// Append an unsigned 16-bit field.
pub fn put_u16(out: &mut Vec<u8>, v: u16)
    ensures
        final(out)@ == old(out)@ + spec_u16_to_le_bytes(v),
{
    let mut b = u16_to_le_bytes(v);
    out.append(&mut b);
}

/// Append an unsigned 32-bit field.
pub fn put_u32(out: &mut Vec<u8>, v: u32)
    ensures
        final(out)@ == old(out)@ + spec_u32_to_le_bytes(v),
{
    let mut b = u32_to_le_bytes(v);
    out.append(&mut b);
}

/// Append an unsigned 64-bit field.
pub fn put_u64(out: &mut Vec<u8>, v: u64)
    ensures
        final(out)@ == old(out)@ + spec_u64_to_le_bytes(v),
{
    let mut b = u64_to_le_bytes(v);
    out.append(&mut b);
}

/// Append a signed 32-bit field.
pub fn put_i32(out: &mut Vec<u8>, v: i32)
    ensures
        final(out)@ == old(out)@ + i32_le(v),
{
    put_u32(out, v as u32);
}

/// Append a signed 64-bit field.
pub fn put_i64(out: &mut Vec<u8>, v: i64)
    ensures
        final(out)@ == old(out)@ + i64_le(v),
{
    put_u64(out, v as u64);
}

/// Read the unsigned 16-bit field at `pos`.
pub fn get_u16(s: &[u8], pos: usize) -> (r: u16)
    requires
        pos + 2 <= s@.len(),
    ensures
        r == u16_at(s@, pos as int),
{
    let _n = s.len();
    u16_from_le_bytes(vstd::slice::slice_subrange(s, pos, pos + 2))
}

/// Read the unsigned 32-bit field at `pos`.
pub fn get_u32(s: &[u8], pos: usize) -> (r: u32)
    requires
        pos + 4 <= s@.len(),
    ensures
        r == u32_at(s@, pos as int),
{
    let _n = s.len();
    u32_from_le_bytes(vstd::slice::slice_subrange(s, pos, pos + 4))
}

/// Read the unsigned 64-bit field at `pos`.
pub fn get_u64(s: &[u8], pos: usize) -> (r: u64)
    requires
        pos + 8 <= s@.len(),
    ensures
        r == u64_at(s@, pos as int),
{
    let _n = s.len();
    u64_from_le_bytes(vstd::slice::slice_subrange(s, pos, pos + 8))
}

/// Read the signed 32-bit field at `pos`.
pub fn get_i32(s: &[u8], pos: usize) -> (r: i32)
    requires
        pos + 4 <= s@.len(),
    ensures
        r == i32_at(s@, pos as int),
{
    get_u32(s, pos) as i32
}

/// Read the signed 64-bit field at `pos`.
pub fn get_i64(s: &[u8], pos: usize) -> (r: i64)
    requires
        pos + 8 <= s@.len(),
    ensures
        r == i64_at(s@, pos as int),
{
    get_u64(s, pos) as i64
}

} // verus!
