//! An example composite record with two evolutions: `{a: i32, b: i32}`, then
//! `{c: u32, d: u8}` appended.
use vstd::prelude::*;

use crate::codec::{le_u32_at, le_u32_bytes, lemma_le_u32_round_trip, push_u32, read_u32};
use crate::layout::{as_nats, evolution_sizes, layout_valid, FieldShape};
use crate::proto::{live_groups, spec_live_groups, Composite, Proto};

verus! {

/// The byte offset at which the first evolution's fields end.
pub const VERSION_0_END: usize = 8;

/// The byte offset at which the second evolution's fields end.
pub const VERSION_1_END: usize = 16;

/// The fields of the first evolution.
#[derive(Debug, Clone, Copy, PartialEq, Eq, Structural)]
pub struct TestVersion0 {
    pub a: i32,
    pub b: i32,
}

impl TestVersion0 {
    pub fn new(a: i32, b: i32) -> (r: Self)
        ensures
            r == (TestVersion0 { a, b }),
    {
        TestVersion0 { a, b }
    }
}

/// The fields that the second evolution appends.
#[derive(Debug, Clone, Copy, PartialEq, Eq, Structural)]
pub struct TestVersion1 {
    pub c: u32,
    pub d: u8,
}

impl TestVersion1 {
    pub fn new(c: u32, d: u8) -> (r: Self)
        ensures
            r == (TestVersion1 { c, d }),
    {
        TestVersion1 { c, d }
    }
}

/// The whole record: one field group per evolution.
#[derive(Debug, Clone, Copy, PartialEq, Eq, Structural)]
pub struct Test {
    pub version_0: TestVersion0,
    pub version_1: TestVersion1,
}

/// The field groups of some evolution of [`Test`] and of those before it,
/// covering the first `len` bytes of the whole record.
#[derive(Debug, Clone, Copy, PartialEq, Eq, Structural)]
pub struct TestParts {
    pub len: usize,
    pub version_0: Option<TestVersion0>,
    pub version_1: Option<TestVersion1>,
}

/// The shapes of the two field groups, as the compiler lays them out.
pub open spec fn test_parts_groups() -> Seq<Seq<FieldShape>> {
    seq![seq![FieldShape { size: 8, align: 4 }], seq![FieldShape { size: 8, align: 4 }]]
}

/// The group ends used here are those that the layout policy gives.
pub proof fn lemma_test_parts_layout()
    ensures
        layout_valid(test_parts_groups()),
        evolution_sizes(test_parts_groups()) == seq![VERSION_0_END as nat, VERSION_1_END as nat],
{
    let g = test_parts_groups();
    reveal_with_fuel(crate::layout::evolution_sizes, 3);
    reveal_with_fuel(crate::layout::groups_align, 3);
    reveal_with_fuel(crate::layout::fields_align, 2);
    reveal_with_fuel(crate::layout::fields_end, 2);
    assert(g.drop_last() =~= seq![g[0]]);
    assert(g.drop_last().drop_last() =~= Seq::<Seq<FieldShape>>::empty());
    assert(g[0].drop_last() =~= Seq::<FieldShape>::empty());
    assert(g[1].drop_last() =~= Seq::<FieldShape>::empty());
    assert(evolution_sizes(g) =~= seq![8nat, 16nat]);
}

impl TestParts {
    /// The first field group, when it lies within the covered bytes.
    pub open spec fn spec_version_0(&self) -> Option<TestVersion0> {
        if VERSION_0_END <= self.len {
            self.version_0
        } else {
            None
        }
    }

    /// The second field group, when it lies within the covered bytes.
    pub open spec fn spec_version_1(&self) -> Option<TestVersion1> {
        if VERSION_1_END <= self.len {
            self.version_1
        } else {
            None
        }
    }

    fn version_0(&self) -> (r: Option<&TestVersion0>)
        ensures
            r is Some <==> self.spec_version_0() is Some,
            r matches Some(v) ==> *v == self.spec_version_0()->0,
    {
        if VERSION_0_END <= self.len {
            self.version_0.as_ref()
        } else {
            None
        }
    }

    fn version_1(&self) -> (r: Option<&TestVersion1>)
        ensures
            r is Some <==> self.spec_version_1() is Some,
            r matches Some(v) ==> *v == self.spec_version_1()->0,
    {
        if VERSION_1_END <= self.len {
            self.version_1.as_ref()
        } else {
            None
        }
    }

    pub fn a(&self) -> (r: Option<&i32>)
        ensures
            r is Some <==> self.spec_version_0() is Some,
            r matches Some(x) ==> *x == self.spec_version_0()->0.a,
    {
        match self.version_0() {
            Some(v) => Some(&v.a),
            None => None,
        }
    }

    pub fn b(&self) -> (r: Option<&i32>)
        ensures
            r is Some <==> self.spec_version_0() is Some,
            r matches Some(x) ==> *x == self.spec_version_0()->0.b,
    {
        match self.version_0() {
            Some(v) => Some(&v.b),
            None => None,
        }
    }

    pub fn c(&self) -> (r: Option<&u32>)
        ensures
            r is Some <==> self.spec_version_1() is Some,
            r matches Some(x) ==> *x == self.spec_version_1()->0.c,
    {
        match self.version_1() {
            Some(v) => Some(&v.c),
            None => None,
        }
    }

    pub fn d(&self) -> (r: Option<&u8>)
        ensures
            r is Some <==> self.spec_version_1() is Some,
            r matches Some(x) ==> *x == self.spec_version_1()->0.d,
    {
        match self.version_1() {
            Some(v) => Some(&v.d),
            None => None,
        }
    }

    pub fn a_mut(&mut self) -> (r: Option<&mut i32>)
        ensures
            r is Some <==> old(self).spec_version_0() is Some,
            r matches Some(x) ==> *x == old(self).spec_version_0()->0.a
                && *final(self) == (TestParts {
                version_0: Some(TestVersion0 { a: *final(x), ..old(self).version_0->0 }),
                ..*old(self)
            }),
            r is None ==> *final(self) == *old(self),
    {
        if VERSION_0_END <= self.len {
            match &mut self.version_0 {
                Some(v) => Some(&mut v.a),
                None => None,
            }
        } else {
            None
        }
    }

    pub fn b_mut(&mut self) -> (r: Option<&mut i32>)
        ensures
            r is Some <==> old(self).spec_version_0() is Some,
            r matches Some(x) ==> *x == old(self).spec_version_0()->0.b
                && *final(self) == (TestParts {
                version_0: Some(TestVersion0 { b: *final(x), ..old(self).version_0->0 }),
                ..*old(self)
            }),
            r is None ==> *final(self) == *old(self),
    {
        if VERSION_0_END <= self.len {
            match &mut self.version_0 {
                Some(v) => Some(&mut v.b),
                None => None,
            }
        } else {
            None
        }
    }

    pub fn c_mut(&mut self) -> (r: Option<&mut u32>)
        ensures
            r is Some <==> old(self).spec_version_1() is Some,
            r matches Some(x) ==> *x == old(self).spec_version_1()->0.c
                && *final(self) == (TestParts {
                version_1: Some(TestVersion1 { c: *final(x), ..old(self).version_1->0 }),
                ..*old(self)
            }),
            r is None ==> *final(self) == *old(self),
    {
        if VERSION_1_END <= self.len {
            match &mut self.version_1 {
                Some(v) => Some(&mut v.c),
                None => None,
            }
        } else {
            None
        }
    }

    pub fn d_mut(&mut self) -> (r: Option<&mut u8>)
        ensures
            r is Some <==> old(self).spec_version_1() is Some,
            r matches Some(x) ==> *x == old(self).spec_version_1()->0.d
                && *final(self) == (TestParts {
                version_1: Some(TestVersion1 { d: *final(x), ..old(self).version_1->0 }),
                ..*old(self)
            }),
            r is None ==> *final(self) == *old(self),
    {
        if VERSION_1_END <= self.len {
            match &mut self.version_1 {
                Some(v) => Some(&mut v.d),
                None => None,
            }
        } else {
            None
        }
    }
}

} // verus!

verus! {

impl Composite for Test {
    type Parts = TestParts;

    open spec fn spec_group_ends() -> Seq<nat> {
        seq![VERSION_0_END as nat, VERSION_1_END as nat]
    }

    open spec fn spec_parts_len(parts: TestParts) -> nat {
        parts.len as nat
    }

    open spec fn spec_parts_wf(parts: TestParts) -> bool {
        ||| parts.len == VERSION_0_END && parts.version_0 is Some && parts.version_1 is None
        ||| parts.len == VERSION_1_END && parts.version_0 is Some && parts.version_1 is Some
    }

    open spec fn spec_initialized_groups(parts: TestParts) -> nat {
        (if parts.version_0 is Some {
            1nat
        } else {
            0nat
        }) + (if parts.version_1 is Some {
            1nat
        } else {
            0nat
        })
    }

    open spec fn spec_split(value: Test) -> TestParts {
        TestParts {
            len: VERSION_1_END,
            version_0: Some(value.version_0),
            version_1: Some(value.version_1),
        }
    }

    open spec fn spec_join(parts: TestParts) -> Test {
        Test { version_0: parts.version_0->0, version_1: parts.version_1->0 }
    }

    proof fn lemma_group_ends_wf() {
    }

    proof fn lemma_parts_at_boundary(parts: TestParts) {
        if parts.len == VERSION_0_END {
            assert(Self::spec_group_ends()[0] == parts.len as nat);
        } else {
            assert(Self::spec_group_ends()[1] == parts.len as nat);
        }
    }

    proof fn lemma_drop_walk(parts: TestParts) {
        let ends = Self::spec_group_ends();
        assert(ends.drop_first() =~= seq![VERSION_1_END as nat]);
        assert(ends.drop_first().drop_first() =~= Seq::<nat>::empty());
        reveal_with_fuel(spec_live_groups, 3);
    }

    proof fn lemma_split_join(value: Test) {
    }

    fn group_ends() -> (r: Vec<usize>) {
        let r = vec![VERSION_0_END, VERSION_1_END];
        assert(as_nats(r@) =~= seq![VERSION_0_END as nat, VERSION_1_END as nat]);
        r
    }

    fn parts_len(parts: &TestParts) -> (r: usize) {
        parts.len
    }

    fn parts_wf(parts: &TestParts) -> (r: bool) {
        (parts.len == VERSION_0_END && parts.version_0.is_some() && parts.version_1.is_none()) || (
        parts.len == VERSION_1_END && parts.version_0.is_some() && parts.version_1.is_some())
    }

    fn split(value: Test) -> (r: TestParts) {
        TestParts {
            len: VERSION_1_END,
            version_0: Some(value.version_0),
            version_1: Some(value.version_1),
        }
    }

    fn join(parts: TestParts) -> (r: Test) {
        match (parts.version_0, parts.version_1) {
            (Some(version_0), Some(version_1)) => Test { version_0, version_1 },
            _ => {
                assert(false);
                Test {
                    version_0: TestVersion0 { a: 0, b: 0 },
                    version_1: TestVersion1 { c: 0, d: 0 },
                }
            },
        }
    }
}

impl TestParts {
    /// How many field groups dropping these parts releases: the groups that
    /// lie wholly within the covered bytes, up to the first one that does not.
    pub fn live_groups(&self) -> (r: usize)
        ensures
            r == spec_live_groups(Test::spec_group_ends(), self.len as nat),
            Test::spec_parts_wf(*self) ==> r == Test::spec_initialized_groups(*self),
    {
        proof {
            if Test::spec_parts_wf(*self) {
                Test::lemma_drop_walk(*self);
            }
        }
        live_groups(&Test::group_ends(), self.len)
    }
}

impl Test {
    /// A partial record holding the first evolution's fields.
    pub fn partial_v0(a: i32, b: i32) -> (r: Proto<Test>)
        ensures
            r.spec_parts() == (TestParts {
                len: VERSION_0_END,
                version_0: Some(TestVersion0 { a, b }),
                version_1: None,
            }),
    {
        let parts = TestParts {
            len: VERSION_0_END,
            version_0: Some(TestVersion0::new(a, b)),
            version_1: None,
        };
        Proto::new_unchecked(parts)
    }

    /// A partial record holding both evolutions' fields.
    pub fn partial_v1(a: i32, b: i32, c: u32, d: u8) -> (r: Proto<Test>)
        ensures
            r.spec_parts() == (TestParts {
                len: VERSION_1_END,
                version_0: Some(TestVersion0 { a, b }),
                version_1: Some(TestVersion1 { c, d }),
            }),
    {
        let parts = TestParts {
            len: VERSION_1_END,
            version_0: Some(TestVersion0::new(a, b)),
            version_1: Some(TestVersion1::new(c, d)),
        };
        Proto::new_unchecked(parts)
    }
}

} // verus!

verus! {

/// The archived bytes of the groups that `parts` holds, in order: the first
/// group as `a` and `b`, each a little-endian `i32`; the second as `c`, a
/// little-endian `u32`, and `d`, padded to four bytes.
pub open spec fn spec_archive_parts(parts: TestParts) -> Seq<u8> {
    match parts.spec_version_0() {
        Some(v0) => {
            let head = le_u32_bytes(v0.a as u32) + le_u32_bytes(v0.b as u32);
            match parts.spec_version_1() {
                Some(v1) => head + le_u32_bytes(v1.c) + seq![v1.d, 0u8, 0u8, 0u8],
                None => head,
            }
        },
        None => Seq::empty(),
    }
}

impl TestParts {
    /// The byte length of the archived form of these parts, which must end
    /// at an evolution boundary: the archived length of the groups held.
    pub fn resolve_metadata(&self) -> (r: usize)
        requires
            Test::spec_parts_wf(*self),
        ensures
            r == spec_archive_parts(*self).len(),
            r == self.len,
    {
        proof {
            vstd::bytes::lemma_auto_spec_u32_to_from_le_bytes();
        }
        match self.version_0() {
            Some(_) => match self.version_1() {
                Some(_) => VERSION_1_END,
                None => VERSION_0_END,
            },
            None => 0,
        }
    }

    /// Appends the archived form of these parts, which must end at an
    /// evolution boundary, to `serializer`, and returns where it starts.
    pub fn serialize_unsized(&self, serializer: &mut Vec<u8>) -> (r: usize)
        requires
            Test::spec_parts_wf(*self),
        ensures
            spec_archive_parts(*self).len() == self.len,
            final(serializer)@ == old(serializer)@ + spec_archive_parts(*self),
            r == old(serializer)@.len(),
    {
        let pos = serializer.len();
        match self.version_0() {
            Some(v0) => {
                push_u32(serializer, v0.a as u32);
                push_u32(serializer, v0.b as u32);
                match self.version_1() {
                    Some(v1) => {
                        push_u32(serializer, v1.c);
                        serializer.push(v1.d);
                        serializer.push(0);
                        serializer.push(0);
                        serializer.push(0);
                    },
                    None => {},
                }
            },
            None => {},
        }
        assert(final(serializer)@ =~= old(serializer)@ + spec_archive_parts(*self));
        proof {
            let v0 = self.version_0->0;
            let v1 = self.version_1->0;
            lemma_le_u32_round_trip(v0.a as u32, Seq::empty(), Seq::empty());
            lemma_le_u32_round_trip(v0.b as u32, Seq::empty(), Seq::empty());
            lemma_le_u32_round_trip(v1.c, Seq::empty(), Seq::empty());
        }
        pos
    }
}

/// Field `a` of archived parts.
pub open spec fn archived_part_a(bytes: Seq<u8>) -> Option<i32> {
    if bytes.len() >= VERSION_0_END {
        Some(le_u32_at(bytes, 0) as i32)
    } else {
        None
    }
}

/// Field `b` of archived parts.
pub open spec fn archived_part_b(bytes: Seq<u8>) -> Option<i32> {
    if bytes.len() >= VERSION_0_END {
        Some(le_u32_at(bytes, 4) as i32)
    } else {
        None
    }
}

/// Field `c` of archived parts.
pub open spec fn archived_part_c(bytes: Seq<u8>) -> Option<u32> {
    if bytes.len() >= VERSION_1_END {
        Some(le_u32_at(bytes, 8))
    } else {
        None
    }
}

/// Field `d` of archived parts.
pub open spec fn archived_part_d(bytes: Seq<u8>) -> Option<u8> {
    if bytes.len() >= VERSION_1_END {
        Some(bytes[12])
    } else {
        None
    }
}

/// The archived form of [`TestParts`]: the archived bytes of the field
/// groups held, whose length tells which.
pub struct ArchivedTestParts {
    data: Vec<u8>,
}

impl ArchivedTestParts {
    pub closed spec fn bytes(&self) -> Seq<u8> {
        self.data@
    }

    pub fn from_bytes(data: Vec<u8>) -> (r: Self)
        ensures
            r.bytes() == data@,
    {
        ArchivedTestParts { data }
    }

    /// Field `a`, present when the first group is.
    pub fn a(&self) -> (r: Option<i32>)
        ensures
            r == archived_part_a(self.bytes()),
    {
        if self.data.len() >= VERSION_0_END {
            Some(read_u32(self.data.as_slice(), 0) as i32)
        } else {
            None
        }
    }

    /// Field `b`, present when the first group is.
    pub fn b(&self) -> (r: Option<i32>)
        ensures
            r == archived_part_b(self.bytes()),
    {
        if self.data.len() >= VERSION_0_END {
            Some(read_u32(self.data.as_slice(), 4) as i32)
        } else {
            None
        }
    }

    /// Field `c`, present when the second group is.
    pub fn c(&self) -> (r: Option<u32>)
        ensures
            r == archived_part_c(self.bytes()),
    {
        if self.data.len() >= VERSION_1_END {
            Some(read_u32(self.data.as_slice(), 8))
        } else {
            None
        }
    }

    /// Field `d`, present when the second group is.
    pub fn d(&self) -> (r: Option<u8>)
        ensures
            r == archived_part_d(self.bytes()),
    {
        if self.data.len() >= VERSION_1_END {
            Some(self.data[12])
        } else {
            None
        }
    }
}

} // verus!
