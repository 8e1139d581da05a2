//! The contracts of evolving types, their evolutions and their probes.
use vstd::prelude::*;
use vstd::slice::slice_to_vec;

use crate::error::Error;
use crate::layout::{evolution_sizes, layout_valid, FieldShape};
use crate::version::Version;

verus! {

/// The registered sizes of a line are usable: there is at least one
/// evolution, every evolution is strictly larger than the ones before it, and
/// every size fits the archive envelope.
pub open spec fn sizes_wf(sizes: Seq<nat>) -> bool {
    &&& 0 < sizes.len() <= 0x10000
    &&& 0 < sizes[0]
    &&& forall|i: int, j: int| 0 <= i < j < sizes.len() ==> sizes[i] < sizes[j]
    &&& forall|i: int| 0 <= i < sizes.len() ==> #[trigger] sizes[i] <= u32::MAX
}

/// What probe metadata a line with these sizes gives for `version`.
pub open spec fn metadata_for(sizes: Seq<nat>, version: Version) -> Result<usize, Error> {
    if (version.0 as int) < sizes.len() {
        Ok(sizes[version.0 as int] as usize)
    } else {
        Err(Error::TriedToGetProbeMetadataForNonExistentVersion)
    }
}

/// The version whose archived size is exactly `len`, if there is one.
pub open spec fn version_of_len(sizes: Seq<nat>, len: nat) -> Option<Version> {
    if exists|i: int| 0 <= i < sizes.len() && sizes[i] == len {
        Some(Version((choose|i: int| 0 <= i < sizes.len() && sizes[i] == len) as u16))
    } else {
        None
    }
}

/// A type with several binary-compatible evolutions of one major version.
pub trait Evolving: Sized {
    /// The archived byte size of each evolution, indexed by minor version.
    spec fn spec_sizes() -> Seq<nat>;

    proof fn lemma_sizes_wf()
        ensures
            sizes_wf(Self::spec_sizes()),
    ;

    /// The shapes of the fields that each evolution appends, in order.
    spec fn spec_field_groups() -> Seq<Seq<FieldShape>>;

    /// The registered sizes are those that the layout policy gives for the
    /// field groups, which keep to its rules.
    proof fn lemma_layout()
        ensures
            layout_valid(Self::spec_field_groups()),
            Self::spec_sizes() == evolution_sizes(Self::spec_field_groups()),
    ;

    /// The byte length of a probe that holds the evolution `version`.
    fn probe_metadata(version: Version) -> (r: Result<usize, Error>)
        ensures
            r == metadata_for(Self::spec_sizes(), version),
    ;
}

/// The registered byte size of the evolution `V`.
pub open spec fn metadata_of<V: Evolution>() -> nat {
    <V::Base as Evolving>::spec_sizes()[V::spec_version().0 as int]
}

/// What probing `bytes` as the evolution `V` gives.
pub open spec fn probe_result<V: Evolution>(bytes: Seq<u8>) -> Option<V::Archived> {
    if bytes.len() >= metadata_of::<V>() {
        Some(V::spec_read(bytes))
    } else {
        None
    }
}

/// One concrete evolution (minor version) of an evolving type.
pub trait Evolution: Sized {
    /// The evolving type that this is an evolution of.
    type Base: Evolving;

    /// The archived layout of this evolution.
    type Archived;

    spec fn spec_version() -> Version;

    /// The archived value held by the first bytes of `bytes`.
    spec fn spec_read(bytes: Seq<u8>) -> Self::Archived;

    /// The archived bytes of `value`.
    spec fn spec_write(value: Self::Archived) -> Seq<u8>;

    /// The evolution is registered with its base type.
    proof fn lemma_registered()
        ensures
            (Self::spec_version().0 as int) < <Self::Base as Evolving>::spec_sizes().len(),
    ;

    /// Writing gives exactly the registered number of bytes, and reading them
    /// back, whatever follows, gives the value written.
    proof fn lemma_write_read(value: Self::Archived, rest: Seq<u8>)
        ensures
            Self::spec_write(value).len() == <Self::Base as Evolving>::spec_sizes()[Self::spec_version().0 as int],
            Self::spec_read(Self::spec_write(value) + rest) == value,
    ;

    /// Reading looks at the registered number of leading bytes only.
    proof fn lemma_read_prefix(bytes: Seq<u8>)
        requires
            bytes.len() >= <Self::Base as Evolving>::spec_sizes()[Self::spec_version().0 as int],
        ensures
            Self::spec_read(bytes) == Self::spec_read(bytes.take(<Self::Base as Evolving>::spec_sizes()[Self::spec_version().0 as int] as int)),
    ;

    fn version() -> (r: Version)
        ensures
            r == Self::spec_version(),
    ;

    /// The archived byte size of this evolution.
    fn metadata() -> (r: usize)
        ensures
            r as nat == <Self::Base as Evolving>::spec_sizes()[Self::spec_version().0 as int],
    ;

    fn read(bytes: &[u8]) -> (r: Self::Archived)
        requires
            bytes@.len() >= <Self::Base as Evolving>::spec_sizes()[Self::spec_version().0 as int],
        ensures
            r == Self::spec_read(bytes@),
    ;

    fn write(value: &Self::Archived) -> (r: Vec<u8>)
        ensures
            r@ == Self::spec_write(*value),
    ;
}

/// Finds the version whose archived size is `len` by asking the base type
/// for the size of each of its versions in turn.
pub fn version_from_len<E: Evolving>(len: usize) -> (r: Option<Version>)
    ensures
        r == version_of_len(E::spec_sizes(), len as nat),
{
    proof {
        E::lemma_sizes_wf();
    }
    let ghost sizes = E::spec_sizes();
    let mut v: u32 = 0;
    while v <= 0xffff
        invariant
            sizes == E::spec_sizes(),
            sizes_wf(sizes),
            v <= 0x10000,
            v <= sizes.len(),
            forall|i: int| 0 <= i < v ==> sizes[i] != len as nat,
        decreases 0x10000 - v,
    {
        match E::probe_metadata(Version(v as u16)) {
            Ok(size) => {
                if size == len {
                    proof {
                        lemma_version_of_len_at(sizes, v as int);
                    }
                    return Some(Version(v as u16));
                }
            },
            Err(_) => {
                assert(v >= sizes.len());
                return None;
            },
        }
        v += 1;
    }
    None
}

/// With strictly increasing sizes, the version found for a size is the
/// index at which that size stands.
pub proof fn lemma_version_of_len_at(sizes: Seq<nat>, i: int)
    requires
        sizes_wf(sizes),
        0 <= i < sizes.len(),
    ensures
        version_of_len(sizes, sizes[i]) == Some(Version(i as u16)),
{
    let len = sizes[i];
    assert(exists|j: int| 0 <= j < sizes.len() && sizes[j] == len);
    let c = choose|j: int| 0 <= j < sizes.len() && sizes[j] == len;
    if c < i {
        assert(sizes[c] < sizes[i]);
    } else if c > i {
        assert(sizes[i] < sizes[c]);
    }
}

/// Probes `bytes` as the evolution `V`: its archived value when there are
/// enough bytes for it.
pub fn probe_bytes_as<V: Evolution>(bytes: &[u8]) -> (r: Option<V::Archived>)
    ensures
        r == probe_result::<V>(bytes@),
{
    if V::metadata() <= bytes.len() {
        Some(V::read(bytes))
    } else {
        None
    }
}

/// A view over the archived bytes of some evolution of `Base`, whose length
/// tells which evolutions it can be read as.
pub trait Probe: Sized {
    /// The evolving type that this probes.
    type Base: Evolving;

    spec fn spec_bytes(&self) -> Seq<u8>;

    fn from_bytes(data: Vec<u8>) -> (r: Self)
        ensures
            r.spec_bytes() == data@,
    ;

    fn bytes(&self) -> (r: &[u8])
        ensures
            r@ == self.spec_bytes(),
    ;

    fn into_bytes(self) -> (r: Vec<u8>)
        ensures
            r@ == self.spec_bytes(),
    ;

    /// The version of the contained evolution, if this line knows it.
    fn version(&self) -> (r: Option<Version>)
        ensures
            r == version_of_len(<Self::Base as Evolving>::spec_sizes(), self.spec_bytes().len()),
    ;

    /// Reads the contents as the evolution `V`, when they are long enough.
    fn probe_as<V: Evolution<Base = Self::Base>>(&self) -> (r: Option<V::Archived>)
        ensures
            r == probe_result::<V>(self.spec_bytes()),
    ;

    /// Reads the contents as the evolution `V`, which the caller knows to fit.
    fn as_version_unchecked<V: Evolution<Base = Self::Base>>(&self) -> (r: V::Archived)
        requires
            self.spec_bytes().len() >= metadata_of::<V>(),
        ensures
            r == V::spec_read(self.spec_bytes()),
    ;

    /// The same bytes as a type-erased probe of the line.
    fn as_any_probe(&self) -> (r: AnyProbe<Self::Base>)
        ensures
            r.bytes() == self.spec_bytes(),
    {
        AnyProbe::new(slice_to_vec(self.bytes()))
    }

    /// Moves the bytes into a type-erased probe of the line.
    fn into_boxed_any_probe(self) -> (r: AnyProbe<Self::Base>)
        ensures
            r.bytes() == self.spec_bytes(),
    {
        AnyProbe::new(self.into_bytes())
    }
}

/// A type-erased probe of `E`: the archived bytes of some evolution of some
/// major version of `E`.
pub struct AnyProbe<E> {
    data: Vec<u8>,
    _phantom: core::marker::PhantomData<E>,
}

impl<E> AnyProbe<E> {
    pub closed spec fn bytes(&self) -> Seq<u8> {
        self.data@
    }

    pub fn new(data: Vec<u8>) -> (r: Self)
        ensures
            r.bytes() == data@,
    {
        AnyProbe { data, _phantom: core::marker::PhantomData }
    }

    pub fn len(&self) -> (r: usize)
        ensures
            r == self.bytes().len(),
    {
        self.data.len()
    }

    /// The same bytes as a probe of `F`, another binding of the same major
    /// version, such as the same record as a binary built earlier or later
    /// knows it.
    pub fn reinterpret<F>(self) -> (r: AnyProbe<F>)
        ensures
            r.bytes() == self.bytes(),
    {
        AnyProbe { data: self.data, _phantom: core::marker::PhantomData }
    }
}

impl<E: Evolving> AnyProbe<E> {
    /// Reads the same bytes through the concrete probe `P` of `E`.
    pub fn as_probe_unchecked<P: Probe<Base = E>>(&self) -> (r: P)
        ensures
            r.spec_bytes() == self.bytes(),
    {
        P::from_bytes(slice_to_vec(self.data.as_slice()))
    }

    /// Moves the bytes into the concrete probe `P` of `E`.
    pub fn into_probe<P: Probe<Base = E>>(self) -> (r: P)
        ensures
            r.spec_bytes() == self.bytes(),
    {
        P::from_bytes(self.data)
    }
}

impl<E: Evolving> Probe for AnyProbe<E> {
    type Base = E;

    open spec fn spec_bytes(&self) -> Seq<u8> {
        self.bytes()
    }

    fn from_bytes(data: Vec<u8>) -> (r: Self) {
        AnyProbe::new(data)
    }

    fn bytes(&self) -> (r: &[u8]) {
        self.data.as_slice()
    }

    fn into_bytes(self) -> (r: Vec<u8>) {
        self.data
    }

    fn version(&self) -> (r: Option<Version>) {
        version_from_len::<E>(self.data.len())
    }

    fn probe_as<V: Evolution<Base = E>>(&self) -> (r: Option<V::Archived>) {
        probe_bytes_as::<V>(self.data.as_slice())
    }

    fn as_version_unchecked<V: Evolution<Base = E>>(&self) -> (r: V::Archived) {
        V::read(self.data.as_slice())
    }
}

} // verus!
