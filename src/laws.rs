//! The laws that hold between the operations of the library.
use vstd::prelude::*;

use crate::evolution::{metadata_of, probe_result, sizes_wf, Evolution, Evolving};
use crate::proto::{spec_live_groups, Composite};
use crate::composite::{
    archived_part_a, archived_part_b, archived_part_c, archived_part_d, spec_archive_parts,
    TestParts, TestVersion0, TestVersion1, VERSION_0_END, VERSION_1_END,
};
use crate::records::{
    field_a, field_b, field_c, field_d, lemma_v0_write_read, lemma_v1_write_read,
    spec_read_v0, spec_read_v1, spec_write_v0, spec_write_v1, spec_write_v2, ArchivedTestV0,
    ArchivedTestV1, ArchivedTestV2,
};
use crate::codec::{le_u32_bytes, lemma_le_u32_round_trip};
use crate::layout::{
    evolution_align, field_offset, lemma_align_monotone, lemma_offsets_prefix, lemma_sizes_prefix,
};

verus! {

proof fn lemma_metadata_order<E: Evolving, N: Evolution<Base = E>, M: Evolution<Base = E>>()
    ensures
        M::spec_version().0 < N::spec_version().0 ==> metadata_of::<M>() < metadata_of::<N>(),
        M::spec_version().0 == N::spec_version().0 ==> metadata_of::<M>() == metadata_of::<N>(),
        N::spec_version().0 < M::spec_version().0 ==> metadata_of::<N>() < metadata_of::<M>(),
{
    E::lemma_sizes_wf();
    N::lemma_registered();
    M::lemma_registered();
    let sizes = E::spec_sizes();
    assert(sizes_wf(sizes));
}

/// Monotonic growth: each evolution of a line is strictly larger than the
/// evolutions before it.
pub proof fn lemma_monotonic_growth<E: Evolving, N: Evolution<Base = E>, M: Evolution<Base = E>>()
    requires
        N::spec_version().0 < M::spec_version().0,
    ensures
        metadata_of::<N>() < metadata_of::<M>(),
{
    lemma_metadata_order::<E, N, M>();
}

/// Backward read: bytes written as an evolution `N` can be read as any
/// evolution `M` of the same line that is not newer, and reading them as `N`
/// gives back the value written.
pub proof fn lemma_backward_read<E: Evolving, N: Evolution<Base = E>, M: Evolution<Base = E>>(
    value: N::Archived,
)
    requires
        M::spec_version().0 <= N::spec_version().0,
    ensures
        probe_result::<M>(N::spec_write(value)) is Some,
        probe_result::<N>(N::spec_write(value)) == Some(value),
{
    lemma_metadata_order::<E, N, M>();
    N::lemma_write_read(value, Seq::empty());
    assert(N::spec_write(value) + Seq::empty() =~= N::spec_write(value));
}

/// Forward read: bytes written as an evolution `N` cannot be read as a newer
/// evolution `M`.
pub proof fn lemma_forward_read<E: Evolving, N: Evolution<Base = E>, M: Evolution<Base = E>>(
    value: N::Archived,
)
    requires
        N::spec_version().0 < M::spec_version().0,
    ensures
        probe_result::<M>(N::spec_write(value)) is None,
{
    lemma_metadata_order::<E, N, M>();
    N::lemma_write_read(value, Seq::empty());
}

/// Drop correctness: the drop walk over a well-formed partial value reaches
/// exactly the field groups that it holds, whatever evolution it stops at.
pub proof fn lemma_drop_exact<T: Composite>(parts: T::Parts)
    requires
        T::spec_parts_wf(parts),
    ensures
        spec_live_groups(T::spec_group_ends(), T::spec_parts_len(parts))
            == T::spec_initialized_groups(parts),
{
    T::lemma_drop_walk(parts);
}

} // verus!

verus! {

/// The layout rules, for every line: a later evolution is strictly larger
/// and at least as aligned as an earlier one, and every field of the earlier
/// one keeps its offset in the later one.
pub proof fn lemma_line_layout<E: Evolving>(n: int, m: int)
    requires
        0 <= n < m < E::spec_field_groups().len(),
    ensures
        E::spec_sizes()[n] < E::spec_sizes()[m],
        evolution_align(E::spec_field_groups(), n) <= evolution_align(E::spec_field_groups(), m),
        forall|i: int|
            0 <= i < E::spec_field_groups()[n].len() ==> #[trigger] field_offset(
                E::spec_field_groups().take(m + 1),
                n,
                i,
            ) == field_offset(E::spec_field_groups(), n, i),
{
    let groups = E::spec_field_groups();
    E::lemma_layout();
    E::lemma_sizes_wf();
    lemma_sizes_prefix(groups, 0);
    lemma_align_monotone(groups, n, m);
    assert forall|i: int| 0 <= i < groups[n].len() implies #[trigger] field_offset(
        groups.take(m + 1),
        n,
        i,
    ) == field_offset(groups, n, i) by {
        lemma_offsets_prefix(groups, m + 1, n, i);
    }
}

/// The newer line of the example record appends a group to the older one
/// and keeps its sizes.
pub proof fn lemma_lines_follow_layout()
    ensures
        <crate::v1::Test as Evolving>::spec_field_groups() == <crate::v2::Test as Evolving>::spec_field_groups().take(2),
        <crate::v1::Test as Evolving>::spec_sizes() == <crate::v2::Test as Evolving>::spec_sizes().take(2),
{
    assert(<crate::v2::Test as Evolving>::spec_sizes().take(2) =~= seq![8nat, 12nat]);
}

/// The first evolutions of an archived `ArchivedTestV2`.
pub open spec fn v2_as_v1(v: ArchivedTestV2) -> ArchivedTestV1 {
    ArchivedTestV1 { a: v.a, b: v.b, _pad0: v._pad0, c: v.c, _pad1: v._pad1 }
}

pub open spec fn v1_as_v0(v: ArchivedTestV1) -> ArchivedTestV0 {
    ArchivedTestV0 { a: v.a, b: v.b, _pad0: v._pad0 }
}

/// Append-only archived layout, field for field: the archived bytes of each
/// evolution begin with the archived bytes of the evolution before it, and
/// the fields that both have are read from the same bytes.
pub proof fn lemma_archived_prefix(v: ArchivedTestV2, bytes: Seq<u8>)
    ensures
        spec_write_v2(v).take(12) == spec_write_v1(v2_as_v1(v)),
        spec_write_v1(v2_as_v1(v)).take(8) == spec_write_v0(v1_as_v0(v2_as_v1(v))),
        bytes.len() >= 12 ==> spec_read_v1(bytes).a == spec_read_v0(bytes).a
            && spec_read_v1(bytes).b == spec_read_v0(bytes).b,
{
    lemma_v1_write_read(v2_as_v1(v), Seq::empty());
    lemma_v0_write_read(v1_as_v0(v2_as_v1(v)), Seq::empty());
    assert(spec_write_v2(v) =~= spec_write_v1(v2_as_v1(v)) + seq![v.d, 0u8, 0u8, 0u8]);
    assert(spec_write_v2(v).take(12) =~= spec_write_v1(v2_as_v1(v)));
    assert(spec_write_v1(v2_as_v1(v)) =~= spec_write_v0(v1_as_v0(v2_as_v1(v))) + le_u32_bytes(v.c));
    assert(spec_write_v1(v2_as_v1(v)).take(8) =~= spec_write_v0(v1_as_v0(v2_as_v1(v))));
}

/// Backward read, field for field: bytes written as the third evolution read
/// as either earlier evolution, through either line, give exactly the fields
/// written; bytes written as the second evolution read as the first likewise.
pub proof fn lemma_backward_read_fields(v: ArchivedTestV2, w: ArchivedTestV1)
    ensures
        probe_result::<crate::v2::TestV1>(spec_write_v2(v)) == Some(v2_as_v1(v)),
        probe_result::<crate::v2::TestV0>(spec_write_v2(v)) == Some(v1_as_v0(v2_as_v1(v))),
        probe_result::<crate::v1::TestV1>(spec_write_v2(v)) == Some(v2_as_v1(v)),
        probe_result::<crate::v1::TestV0>(spec_write_v2(v)) == Some(v1_as_v0(v2_as_v1(v))),
        probe_result::<crate::v1::TestV0>(spec_write_v1(w)) == Some(v1_as_v0(w)),
        probe_result::<crate::v2::TestV0>(spec_write_v1(w)) == Some(v1_as_v0(w)),
{
    let r1 = v2_as_v1(v);
    let r0 = v1_as_v0(r1);
    let tail2 = seq![v.d, 0u8, 0u8, 0u8];
    assert(spec_write_v2(v) =~= spec_write_v1(r1) + tail2);
    lemma_v1_write_read(r1, tail2);
    assert(spec_write_v2(v) =~= spec_write_v0(r0) + (le_u32_bytes(v.c) + tail2));
    lemma_v0_write_read(r0, le_u32_bytes(v.c) + tail2);
    assert(spec_write_v1(w) =~= spec_write_v0(v1_as_v0(w)) + le_u32_bytes(w.c));
    lemma_v0_write_read(v1_as_v0(w), le_u32_bytes(w.c));
    lemma_v1_write_read(w, Seq::empty());
}

/// Forward read, field for field: bytes written as an earlier evolution,
/// read through the accessors of the newest line, give every field that the
/// writer had and `None` for the fields appended after it.
pub proof fn lemma_forward_read_fields(w: ArchivedTestV1, u: ArchivedTestV0)
    ensures
        field_a(spec_write_v1(w)) == Some(w.a),
        field_b(spec_write_v1(w)) == Some(w.b),
        field_c(spec_write_v1(w)) == Some(w.c),
        field_d(spec_write_v1(w)) is None,
        field_a(spec_write_v0(u)) == Some(u.a),
        field_b(spec_write_v0(u)) == Some(u.b),
        field_c(spec_write_v0(u)) is None,
        field_d(spec_write_v0(u)) is None,
{
    lemma_v1_write_read(w, Seq::empty());
    assert(spec_write_v1(w) + Seq::empty() =~= spec_write_v1(w));
    lemma_v0_write_read(u, Seq::empty());
    assert(spec_write_v0(u) + Seq::empty() =~= spec_write_v0(u));
}

/// Round trip of partial values: the parts of a partial record built with
/// either evolution give back exactly the fields it was built with, `None`
/// for the fields after it, and so do their archived bytes.
pub proof fn lemma_partial_round_trip(a: i32, b: i32, c: u32, d: u8)
    ensures
        ({
            let p0 = TestParts {
                len: VERSION_0_END,
                version_0: Some(TestVersion0 { a, b }),
                version_1: None,
            };
            let bytes0 = spec_archive_parts(p0);
            &&& p0.spec_version_0() == Some(TestVersion0 { a, b })
            &&& p0.spec_version_1() is None
            &&& archived_part_a(bytes0) == Some(a)
            &&& archived_part_b(bytes0) == Some(b)
            &&& archived_part_c(bytes0) is None
            &&& archived_part_d(bytes0) is None
        }),
        ({
            let p1 = TestParts {
                len: VERSION_1_END,
                version_0: Some(TestVersion0 { a, b }),
                version_1: Some(TestVersion1 { c, d }),
            };
            let bytes1 = spec_archive_parts(p1);
            &&& p1.spec_version_0() == Some(TestVersion0 { a, b })
            &&& p1.spec_version_1() == Some(TestVersion1 { c, d })
            &&& archived_part_a(bytes1) == Some(a)
            &&& archived_part_b(bytes1) == Some(b)
            &&& archived_part_c(bytes1) == Some(c)
            &&& archived_part_d(bytes1) == Some(d)
        }),
{
    let e = Seq::<u8>::empty();
    let la = le_u32_bytes(a as u32);
    let lb = le_u32_bytes(b as u32);
    let lc = le_u32_bytes(c);
    let pd = seq![d, 0u8, 0u8, 0u8];
    lemma_le_u32_round_trip(a as u32, e, lb);
    lemma_le_u32_round_trip(b as u32, la, e);
    assert(la + lb =~= e + la + lb);
    assert(la + lb =~= la + lb + e);
    lemma_le_u32_round_trip(a as u32, e, lb + lc + pd);
    lemma_le_u32_round_trip(b as u32, la, lc + pd);
    lemma_le_u32_round_trip(c, la + lb, pd);
    assert(la + lb + lc + pd =~= e + la + (lb + lc + pd));
    assert(la + lb + lc + pd =~= la + lb + (lc + pd));
    assert((a as u32) as i32 == a) by (bit_vector);
    assert((b as u32) as i32 == b) by (bit_vector);
    assert((la + lb + lc + pd)[12] == d);
}

} // verus!
