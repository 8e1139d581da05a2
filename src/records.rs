//! The archived layouts of the example record line: `a: u32` and `b: u8`
//! first, then `c: u32`, then `d: u8`, each evolution padded to the
//! alignment of all its fields.
use vstd::prelude::*;

use crate::codec::{le_u32_at, le_u32_bytes, lemma_le_u32_prefix, lemma_le_u32_round_trip, push_u32, read_u32};
use crate::layout::{
    evolution_sizes, field_offset, layout_valid, lemma_pad_unique, pad, spec_pad, FieldShape,
    PadToAlign,
};

verus! {

/// The first evolution: `a` and `b`.
#[derive(Debug, Clone, Copy, PartialEq, Eq)]
pub struct ArchivedTestV0 {
    pub a: u32,
    pub b: u8,
    pub _pad0: PadToAlign<(u32, u8)>,
}

/// The second evolution: `c` appended.
#[derive(Debug, Clone, Copy, PartialEq, Eq)]
pub struct ArchivedTestV1 {
    pub a: u32,
    pub b: u8,
    pub _pad0: PadToAlign<(u32, u8)>,
    pub c: u32,
    pub _pad1: PadToAlign<(u32, u8, u32)>,
}

/// The third evolution: `d` appended.
#[derive(Debug, Clone, Copy, PartialEq, Eq)]
pub struct ArchivedTestV2 {
    pub a: u32,
    pub b: u8,
    pub _pad0: PadToAlign<(u32, u8)>,
    pub c: u32,
    pub _pad1: PadToAlign<(u32, u8, u32)>,
    pub d: u8,
    pub _pad2: PadToAlign<(u32, u8, u32, u8)>,
}

/// The shapes of the field groups, one group per evolution.
pub open spec fn test_field_groups() -> Seq<Seq<FieldShape>> {
    seq![
        seq![FieldShape { size: 4, align: 4 }, FieldShape { size: 1, align: 1 }],
        seq![FieldShape { size: 4, align: 4 }],
        seq![FieldShape { size: 1, align: 1 }],
    ]
}

/// The sizes and field offsets used below are those that the layout policy
/// gives for the field groups.
pub proof fn lemma_test_layout()
    ensures
        layout_valid(test_field_groups()),
        evolution_sizes(test_field_groups()) == seq![8nat, 12nat, 16nat],
        field_offset(test_field_groups(), 0, 0) == 0,
        field_offset(test_field_groups(), 0, 1) == 4,
        field_offset(test_field_groups(), 1, 0) == 8,
        field_offset(test_field_groups(), 2, 0) == 12,
{
    let g = test_field_groups();
    reveal_with_fuel(crate::layout::evolution_sizes, 4);
    reveal_with_fuel(crate::layout::groups_align, 4);
    reveal_with_fuel(crate::layout::fields_align, 3);
    reveal_with_fuel(crate::layout::fields_end, 3);
    assert(g.drop_last() =~= seq![g[0], g[1]]);
    assert(g.drop_last().drop_last() =~= seq![g[0]]);
    assert(g.drop_last().drop_last().drop_last() =~= Seq::<Seq<FieldShape>>::empty());
    assert(g[0].drop_last() =~= seq![g[0][0]]);
    assert(g[0].drop_last().drop_last() =~= Seq::<FieldShape>::empty());
    assert(g[1].drop_last() =~= Seq::<FieldShape>::empty());
    assert(g[2].drop_last() =~= Seq::<FieldShape>::empty());
    assert(g[0].take(0) =~= Seq::<FieldShape>::empty());
    assert(g[0].take(1) =~= seq![g[0][0]]);
    assert(g[1].take(0) =~= Seq::<FieldShape>::empty());
    assert(g[2].take(0) =~= Seq::<FieldShape>::empty());
    assert(evolution_sizes(g) =~= seq![8nat, 12nat, 16nat]);
}

pub open spec fn spec_read_v0(bytes: Seq<u8>) -> ArchivedTestV0 {
    ArchivedTestV0 { a: le_u32_at(bytes, 0), b: bytes[4], _pad0: spec_pad() }
}

pub open spec fn spec_read_v1(bytes: Seq<u8>) -> ArchivedTestV1 {
    ArchivedTestV1 {
        a: le_u32_at(bytes, 0),
        b: bytes[4],
        _pad0: spec_pad(),
        c: le_u32_at(bytes, 8),
        _pad1: spec_pad(),
    }
}

pub open spec fn spec_read_v2(bytes: Seq<u8>) -> ArchivedTestV2 {
    ArchivedTestV2 {
        a: le_u32_at(bytes, 0),
        b: bytes[4],
        _pad0: spec_pad(),
        c: le_u32_at(bytes, 8),
        _pad1: spec_pad(),
        d: bytes[12],
        _pad2: spec_pad(),
    }
}

pub open spec fn spec_write_v0(v: ArchivedTestV0) -> Seq<u8> {
    le_u32_bytes(v.a) + seq![v.b, 0u8, 0u8, 0u8]
}

pub open spec fn spec_write_v1(v: ArchivedTestV1) -> Seq<u8> {
    le_u32_bytes(v.a) + seq![v.b, 0u8, 0u8, 0u8] + le_u32_bytes(v.c)
}

pub open spec fn spec_write_v2(v: ArchivedTestV2) -> Seq<u8> {
    le_u32_bytes(v.a) + seq![v.b, 0u8, 0u8, 0u8] + le_u32_bytes(v.c) + seq![v.d, 0u8, 0u8, 0u8]
}

pub proof fn lemma_v0_write_read(v: ArchivedTestV0, rest: Seq<u8>)
    ensures
        spec_write_v0(v).len() == 8,
        spec_read_v0(spec_write_v0(v) + rest) == v,
{
    let tail = seq![v.b, 0u8, 0u8, 0u8] + rest;
    lemma_le_u32_round_trip(v.a, Seq::empty(), tail);
    assert(spec_write_v0(v) + rest =~= Seq::<u8>::empty() + le_u32_bytes(v.a) + tail);
    lemma_pad_unique(v._pad0);
}

pub proof fn lemma_v1_write_read(v: ArchivedTestV1, rest: Seq<u8>)
    ensures
        spec_write_v1(v).len() == 12,
        spec_read_v1(spec_write_v1(v) + rest) == v,
{
    let head = le_u32_bytes(v.a) + seq![v.b, 0u8, 0u8, 0u8];
    let tail = seq![v.b, 0u8, 0u8, 0u8] + le_u32_bytes(v.c) + rest;
    lemma_le_u32_round_trip(v.a, Seq::empty(), tail);
    lemma_le_u32_round_trip(v.c, head, rest);
    assert(spec_write_v1(v) + rest =~= Seq::<u8>::empty() + le_u32_bytes(v.a) + tail);
    assert(spec_write_v1(v) + rest =~= head + le_u32_bytes(v.c) + rest);
    lemma_pad_unique(v._pad0);
    lemma_pad_unique(v._pad1);
}

pub proof fn lemma_v2_write_read(v: ArchivedTestV2, rest: Seq<u8>)
    ensures
        spec_write_v2(v).len() == 16,
        spec_read_v2(spec_write_v2(v) + rest) == v,
{
    let head = le_u32_bytes(v.a) + seq![v.b, 0u8, 0u8, 0u8];
    let mid = seq![v.d, 0u8, 0u8, 0u8] + rest;
    let tail = seq![v.b, 0u8, 0u8, 0u8] + le_u32_bytes(v.c) + mid;
    lemma_le_u32_round_trip(v.a, Seq::empty(), tail);
    lemma_le_u32_round_trip(v.c, head, mid);
    assert(spec_write_v2(v) + rest =~= Seq::<u8>::empty() + le_u32_bytes(v.a) + tail);
    assert(spec_write_v2(v) + rest =~= head + le_u32_bytes(v.c) + mid);
    lemma_pad_unique(v._pad0);
    lemma_pad_unique(v._pad1);
    lemma_pad_unique(v._pad2);
}

pub proof fn lemma_read_prefixes(bytes: Seq<u8>)
    ensures
        bytes.len() >= 8 ==> spec_read_v0(bytes) == spec_read_v0(bytes.take(8)),
        bytes.len() >= 12 ==> spec_read_v1(bytes) == spec_read_v1(bytes.take(12)),
        bytes.len() >= 16 ==> spec_read_v2(bytes) == spec_read_v2(bytes.take(16)),
{
    if bytes.len() >= 8 {
        lemma_le_u32_prefix(bytes, 0, 8);
    }
    if bytes.len() >= 12 {
        lemma_le_u32_prefix(bytes, 0, 12);
        lemma_le_u32_prefix(bytes, 8, 12);
    }
    if bytes.len() >= 16 {
        lemma_le_u32_prefix(bytes, 0, 16);
        lemma_le_u32_prefix(bytes, 8, 16);
    }
}

pub fn read_v0(bytes: &[u8]) -> (r: ArchivedTestV0)
    requires
        bytes@.len() >= 8,
    ensures
        r == spec_read_v0(bytes@),
{
    ArchivedTestV0 { a: read_u32(bytes, 0), b: bytes[4], _pad0: pad() }
}

pub fn read_v1(bytes: &[u8]) -> (r: ArchivedTestV1)
    requires
        bytes@.len() >= 12,
    ensures
        r == spec_read_v1(bytes@),
{
    ArchivedTestV1 {
        a: read_u32(bytes, 0),
        b: bytes[4],
        _pad0: pad(),
        c: read_u32(bytes, 8),
        _pad1: pad(),
    }
}

pub fn read_v2(bytes: &[u8]) -> (r: ArchivedTestV2)
    requires
        bytes@.len() >= 16,
    ensures
        r == spec_read_v2(bytes@),
{
    ArchivedTestV2 {
        a: read_u32(bytes, 0),
        b: bytes[4],
        _pad0: pad(),
        c: read_u32(bytes, 8),
        _pad1: pad(),
        d: bytes[12],
        _pad2: pad(),
    }
}

fn push_byte_padded(out: &mut Vec<u8>, x: u8)
    ensures
        final(out)@ == old(out)@ + seq![x, 0u8, 0u8, 0u8],
{
    out.push(x);
    out.push(0);
    out.push(0);
    out.push(0);
    assert(final(out)@ =~= old(out)@ + seq![x, 0u8, 0u8, 0u8]);
}

pub fn write_v0(v: &ArchivedTestV0) -> (r: Vec<u8>)
    ensures
        r@ == spec_write_v0(*v),
{
    let mut out: Vec<u8> = Vec::new();
    push_u32(&mut out, v.a);
    push_byte_padded(&mut out, v.b);
    assert(out@ =~= spec_write_v0(*v));
    out
}

pub fn write_v1(v: &ArchivedTestV1) -> (r: Vec<u8>)
    ensures
        r@ == spec_write_v1(*v),
{
    let mut out: Vec<u8> = Vec::new();
    push_u32(&mut out, v.a);
    push_byte_padded(&mut out, v.b);
    push_u32(&mut out, v.c);
    assert(out@ =~= spec_write_v1(*v));
    out
}

pub fn write_v2(v: &ArchivedTestV2) -> (r: Vec<u8>)
    ensures
        r@ == spec_write_v2(*v),
{
    let mut out: Vec<u8> = Vec::new();
    push_u32(&mut out, v.a);
    push_byte_padded(&mut out, v.b);
    push_u32(&mut out, v.c);
    push_byte_padded(&mut out, v.d);
    assert(out@ =~= spec_write_v2(*v));
    out
}

} // verus!

verus! {

/// Field `a` of archived bytes: present from the first evolution on.
pub open spec fn field_a(bytes: Seq<u8>) -> Option<u32> {
    if bytes.len() >= 8 {
        Some(le_u32_at(bytes, 0))
    } else {
        None
    }
}

/// Field `b` of archived bytes: present from the first evolution on.
pub open spec fn field_b(bytes: Seq<u8>) -> Option<u8> {
    if bytes.len() >= 8 {
        Some(bytes[4])
    } else {
        None
    }
}

/// Field `c` of archived bytes: present from the second evolution on.
pub open spec fn field_c(bytes: Seq<u8>) -> Option<u32> {
    if bytes.len() >= 12 {
        Some(le_u32_at(bytes, 8))
    } else {
        None
    }
}

/// Field `d` of archived bytes: present from the third evolution on.
pub open spec fn field_d(bytes: Seq<u8>) -> Option<u8> {
    if bytes.len() >= 16 {
        Some(bytes[12])
    } else {
        None
    }
}

impl crate::prefix::Prefixed for ArchivedTestV0 {
    type Fields = crate::v2::TestProbe;

    open spec fn spec_size() -> nat {
        8
    }

    open spec fn spec_encode(value: Self) -> Seq<u8> {
        spec_write_v0(value)
    }

    open spec fn spec_decode(bytes: Seq<u8>) -> Self {
        spec_read_v0(bytes)
    }

    proof fn lemma_encode_decode(value: Self, rest: Seq<u8>) {
        lemma_v0_write_read(value, rest);
    }

    proof fn lemma_decode_prefix(bytes: Seq<u8>) {
        lemma_read_prefixes(bytes);
    }

    fn size() -> (r: usize) {
        8
    }

    fn encode(&self) -> (r: Vec<u8>) {
        write_v0(self)
    }

    fn decode(bytes: &[u8]) -> (r: Self) {
        read_v0(bytes)
    }
}

impl crate::prefix::Prefixed for ArchivedTestV1 {
    type Fields = crate::v2::TestProbe;

    open spec fn spec_size() -> nat {
        12
    }

    open spec fn spec_encode(value: Self) -> Seq<u8> {
        spec_write_v1(value)
    }

    open spec fn spec_decode(bytes: Seq<u8>) -> Self {
        spec_read_v1(bytes)
    }

    proof fn lemma_encode_decode(value: Self, rest: Seq<u8>) {
        lemma_v1_write_read(value, rest);
    }

    proof fn lemma_decode_prefix(bytes: Seq<u8>) {
        lemma_read_prefixes(bytes);
    }

    fn size() -> (r: usize) {
        12
    }

    fn encode(&self) -> (r: Vec<u8>) {
        write_v1(self)
    }

    fn decode(bytes: &[u8]) -> (r: Self) {
        read_v1(bytes)
    }
}

impl crate::prefix::Prefixed for ArchivedTestV2 {
    type Fields = crate::v2::TestProbe;

    open spec fn spec_size() -> nat {
        16
    }

    open spec fn spec_encode(value: Self) -> Seq<u8> {
        spec_write_v2(value)
    }

    open spec fn spec_decode(bytes: Seq<u8>) -> Self {
        spec_read_v2(bytes)
    }

    proof fn lemma_encode_decode(value: Self, rest: Seq<u8>) {
        lemma_v2_write_read(value, rest);
    }

    proof fn lemma_decode_prefix(bytes: Seq<u8>) {
        lemma_read_prefixes(bytes);
    }

    fn size() -> (r: usize) {
        16
    }

    fn encode(&self) -> (r: Vec<u8>) {
        write_v2(self)
    }

    fn decode(bytes: &[u8]) -> (r: Self) {
        read_v2(bytes)
    }
}

} // verus!
