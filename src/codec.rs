//! Little-endian integers inside archived bytes.
use vstd::bytes::{spec_u32_from_le_bytes, spec_u32_to_le_bytes, u32_from_le_bytes, u32_to_le_bytes};
use vstd::prelude::*;
use vstd::slice::slice_subrange;

verus! {

/// The `u32` stored little-endian at `at` in `bytes`.
pub open spec fn le_u32_at(bytes: Seq<u8>, at: int) -> u32 {
    spec_u32_from_le_bytes(bytes.subrange(at, at + 4))
}

/// The four little-endian bytes of `x`.
pub open spec fn le_u32_bytes(x: u32) -> Seq<u8> {
    spec_u32_to_le_bytes(x)
}

pub proof fn lemma_le_u32_round_trip(x: u32, before: Seq<u8>, after: Seq<u8>)
    ensures
        le_u32_bytes(x).len() == 4,
        le_u32_at(before + le_u32_bytes(x) + after, before.len() as int) == x,
{
    vstd::bytes::lemma_auto_spec_u32_to_from_le_bytes();
    let all = before + le_u32_bytes(x) + after;
    assert(all.subrange(before.len() as int, before.len() + 4int) =~= le_u32_bytes(x));
}

pub proof fn lemma_le_u32_prefix(bytes: Seq<u8>, at: int, n: int)
    requires
        0 <= at,
        at + 4 <= n <= bytes.len(),
    ensures
        le_u32_at(bytes.take(n), at) == le_u32_at(bytes, at),
{
    assert(bytes.take(n).subrange(at, at + 4) =~= bytes.subrange(at, at + 4));
}

/// Reads the `u32` stored little-endian at `at`.
pub fn read_u32(bytes: &[u8], at: usize) -> (r: u32)
    requires
        at + 4 <= bytes@.len(),
    ensures
        r == le_u32_at(bytes@, at as int),
{
    let n = bytes.len();
    assert(at + 4 <= n);
    u32_from_le_bytes(slice_subrange(bytes, at, at + 4))
}

/// Appends the little-endian bytes of `x`.
pub fn push_u32(out: &mut Vec<u8>, x: u32)
    ensures
        final(out)@ == old(out)@ + le_u32_bytes(x),
{
    let mut b = u32_to_le_bytes(x);
    out.append(&mut b);
}

} // verus!
