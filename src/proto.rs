//! Partially built values of composite records.
//!
//! A composite record is laid out as one group of fields per evolution, in
//! append order. A partial value holds the groups of some evolution and
//! those before it; how many bytes of the full record that covers is its
//! version tag.
use vstd::prelude::*;

use crate::evolution::{sizes_wf, version_of_len};
use crate::layout::as_nats;
use crate::version::Version;

verus! {

/// The drop walk over a value of `len` initialized bytes: the number of
/// leading field groups that end within `len`, stopping at the first one that
/// does not.
pub open spec fn spec_live_groups(ends: Seq<nat>, len: nat) -> nat
    decreases ends.len(),
{
    if ends.len() == 0 {
        0
    } else if ends[0] <= len {
        1 + spec_live_groups(ends.drop_first(), len)
    } else {
        0
    }
}

/// A record built from one field group per evolution.
pub trait Composite: Sized {
    /// The record's partial form: the groups of some prefix of its evolutions.
    type Parts;

    /// The byte offset at which each evolution's field group ends.
    spec fn spec_group_ends() -> Seq<nat>;

    /// How many bytes of the full record the parts cover.
    spec fn spec_parts_len(parts: Self::Parts) -> nat;

    /// The parts cover exactly the groups of some evolution and those before it.
    spec fn spec_parts_wf(parts: Self::Parts) -> bool;

    /// How many field groups the parts hold.
    spec fn spec_initialized_groups(parts: Self::Parts) -> nat;

    spec fn spec_split(value: Self) -> Self::Parts;

    spec fn spec_join(parts: Self::Parts) -> Self;

    proof fn lemma_group_ends_wf()
        ensures
            sizes_wf(Self::spec_group_ends()),
    ;

    /// Well-formed parts end at a group boundary.
    proof fn lemma_parts_at_boundary(parts: Self::Parts)
        requires
            Self::spec_parts_wf(parts),
        ensures
            exists|i: int|
                0 <= i < Self::spec_group_ends().len() && Self::spec_group_ends()[i]
                    == Self::spec_parts_len(parts),
    ;

    /// The drop walk over well-formed parts reaches exactly the groups they hold.
    proof fn lemma_drop_walk(parts: Self::Parts)
        requires
            Self::spec_parts_wf(parts),
        ensures
            spec_live_groups(Self::spec_group_ends(), Self::spec_parts_len(parts))
                == Self::spec_initialized_groups(parts),
    ;

    /// Splitting a whole value gives complete parts, which join back to it.
    proof fn lemma_split_join(value: Self)
        ensures
            Self::spec_parts_wf(Self::spec_split(value)),
            Self::spec_parts_len(Self::spec_split(value)) == Self::spec_group_ends().last(),
            Self::spec_join(Self::spec_split(value)) == value,
    ;

    fn group_ends() -> (r: Vec<usize>)
        ensures
            as_nats(r@) == Self::spec_group_ends(),
    ;

    fn parts_len(parts: &Self::Parts) -> (r: usize)
        ensures
            r == Self::spec_parts_len(*parts),
    ;

    fn parts_wf(parts: &Self::Parts) -> (r: bool)
        ensures
            r == Self::spec_parts_wf(*parts),
    ;

    fn split(value: Self) -> (r: Self::Parts)
        ensures
            r == Self::spec_split(value),
    ;

    fn join(parts: Self::Parts) -> (r: Self)
        requires
            Self::spec_parts_wf(parts),
            Self::spec_parts_len(parts) == Self::spec_group_ends().last(),
        ensures
            r == Self::spec_join(parts),
    ;
}

/// The drop walk: the number of leading groups of `ends` that lie within
/// `len` bytes.
pub fn live_groups(ends: &Vec<usize>, len: usize) -> (r: usize)
    ensures
        r == spec_live_groups(as_nats(ends@), len as nat),
{
    let ghost s = as_nats(ends@);
    let mut n: usize = 0;
    assert(s.skip(0) =~= s);
    while n < ends.len() && ends[n] <= len
        invariant
            s == as_nats(ends@),
            0 <= n <= ends@.len(),
            spec_live_groups(s, len as nat) == n + spec_live_groups(s.skip(n as int), len as nat),
        decreases ends@.len() - n,
    {
        assert(s.skip(n as int).drop_first() =~= s.skip(n + 1));
        n += 1;
    }
    if n < ends.len() {
        assert(s.skip(n as int)[0] == ends@[n as int] as nat);
    } else {
        assert(s.skip(n as int).len() == 0);
    }
    n
}

} // verus!

verus! {

/// With strictly increasing group ends, the drop walk over the first `k + 1`
/// groups' worth of bytes reaches exactly those groups.
pub proof fn lemma_live_groups_at(ends: Seq<nat>, k: int)
    requires
        0 <= k < ends.len(),
        forall|i: int, j: int| 0 <= i < j < ends.len() ==> ends[i] < ends[j],
    ensures
        spec_live_groups(ends, ends[k]) == k + 1,
    decreases k,
{
    let rest = ends.drop_first();
    assert(ends[0] <= ends[k]) by {
        if k > 0 {
            assert(ends[0] < ends[k]);
        }
    }
    if k == 0 {
        if rest.len() > 0 {
            assert(rest[0] == ends[1]);
            assert(ends[0] < ends[1]);
        }
        assert(spec_live_groups(rest, ends[0]) == 0);
    } else {
        assert(rest[k - 1] == ends[k]);
        assert forall|i: int, j: int| 0 <= i < j < rest.len() implies rest[i] < rest[j] by {
            assert(rest[i] == ends[i + 1] && rest[j] == ends[j + 1]);
        }
        lemma_live_groups_at(rest, k - 1);
    }
}

/// A partially built value of the composite record `T`: the field groups of
/// some evolution of `T` and of all the evolutions before it.
pub struct Proto<T: Composite> {
    parts: T::Parts,
}

/// The name the builder side goes by.
pub type Partial<T> = Proto<T>;

impl<T: Composite> Proto<T> {
    #[verifier::type_invariant]
    spec fn inv(&self) -> bool {
        T::spec_parts_wf(self.parts)
    }

    /// The parts held.
    pub closed spec fn spec_parts(&self) -> T::Parts {
        self.parts
    }

    /// Whether the value holds every evolution's fields.
    pub open spec fn spec_is_latest(&self) -> bool {
        T::spec_parts_len(self.spec_parts()) == T::spec_group_ends().last()
    }

    /// The partial value made of `parts`, which must hold the field groups
    /// of some evolution and of those before it.
    pub fn new_unchecked(parts: T::Parts) -> (r: Self)
        requires
            T::spec_parts_wf(parts),
        ensures
            r.spec_parts() == parts,
    {
        Proto { parts }
    }

    /// The partial value holding the whole of `value`.
    pub fn latest(value: T) -> (r: Self)
        ensures
            r.spec_parts() == T::spec_split(value),
            r.spec_is_latest(),
    {
        proof {
            T::lemma_split_join(value);
        }
        Proto { parts: T::split(value) }
    }

    /// The parts held.
    pub fn parts(&self) -> (r: &T::Parts)
        ensures
            *r == self.spec_parts(),
            T::spec_parts_wf(*r),
    {
        proof {
            use_type_invariant(self);
        }
        &self.parts
    }

    /// The version of the latest evolution whose fields are held.
    pub fn version(&self) -> (r: Version)
        ensures
            Some(r) == version_of_len(T::spec_group_ends(), T::spec_parts_len(self.spec_parts())),
            r.0 + 1 == T::spec_initialized_groups(self.spec_parts()),
    {
        proof {
            use_type_invariant(self);
            T::lemma_group_ends_wf();
            T::lemma_parts_at_boundary(self.parts);
            T::lemma_drop_walk(self.parts);
        }
        let ghost ends = T::spec_group_ends();
        let ghost len = T::spec_parts_len(self.parts);
        let ghost k = choose|i: int| 0 <= i < ends.len() && ends[i] == len;
        proof {
            lemma_live_groups_at(ends, k);
            crate::evolution::lemma_version_of_len_at(ends, k);
        }
        let count = live_groups(&T::group_ends(), T::parts_len(&self.parts));
        Version((count - 1) as u16)
    }

    /// Whether the value holds every evolution's fields.
    pub fn is_latest(&self) -> (r: bool)
        ensures
            r == self.spec_is_latest(),
    {
        let ends = T::group_ends();
        proof {
            T::lemma_group_ends_wf();
            assert(ends@.len() > 0);
            assert(as_nats(ends@)[ends@.len() - 1] == ends@[ends@.len() - 1] as nat);
        }
        T::parts_len(&self.parts) == ends[ends.len() - 1]
    }

    /// The whole value, when every evolution's fields are held; otherwise the
    /// partial value itself, unchanged.
    pub fn try_unwrap(self) -> (r: Result<T, Self>)
        ensures
            r is Ok <==> self.spec_is_latest(),
            r matches Ok(v) ==> v == T::spec_join(self.spec_parts()),
            r matches Err(p) ==> p == self,
    {
        proof {
            use_type_invariant(&self);
        }
        if self.is_latest() {
            Ok(T::join(self.parts))
        } else {
            Err(self)
        }
    }

    /// The whole value, which must be complete.
    pub fn unwrap(self) -> (r: T)
        requires
            self.spec_is_latest(),
        ensures
            r == T::spec_join(self.spec_parts()),
    {
        proof {
            use_type_invariant(&self);
        }
        T::join(self.parts)
    }

    /// Moves the parts to the heap.
    pub fn into_boxed_accessor(self) -> (r: Box<T::Parts>)
        ensures
            *r == self.spec_parts(),
            T::spec_parts_wf(*r),
    {
        proof {
            use_type_invariant(&self);
        }
        Box::new(self.parts)
    }

    /// Takes boxed parts back, when they hold the field groups of an
    /// evolution of `T` and of those before it; otherwise hands the box back
    /// unchanged. Parts longer than the whole record are refused this way.
    pub fn from_boxed_parts(parts: Box<T::Parts>) -> (r: Result<Self, Box<T::Parts>>)
        ensures
            r is Ok <==> T::spec_parts_wf(*parts),
            r matches Ok(p) ==> p.spec_parts() == *parts,
            r matches Err(b) ==> b == parts,
    {
        if T::parts_wf(&*parts) {
            Ok(Proto { parts: *parts })
        } else {
            Err(parts)
        }
    }
}

} // verus!
