//! An owned container for the archived bytes of one evolution.
use vstd::prelude::*;

use crate::error::Error;
use crate::evolution::{Evolution, Evolving, Probe};
use crate::version::Version;

verus! {

/// An owned container for the archived value of one evolution of `E`, sized
/// for the storage evolution `S`.
///
/// It holds `S` or any earlier evolution of the same line, tagged with the
/// version it actually holds.
#[verifier::reject_recursive_types(E)]
pub struct Pylon<E: Evolving, S: Evolution<Base = E>> {
    storage: Vec<u8>,
    contained_version: Version,
    _phantom: core::marker::PhantomData<(E, S)>,
}

impl<E: Evolving, S: Evolution<Base = E>> Pylon<E, S> {
    /// The contained version is not newer than the storage, and the bytes are
    /// exactly as long as that version's archived layout.
    #[verifier::type_invariant]
    spec fn inv(&self) -> bool {
        &&& self.contained_version.0 <= S::spec_version().0
        &&& (self.contained_version.0 as int) < E::spec_sizes().len()
        &&& self.storage@.len() == E::spec_sizes()[self.contained_version.0 as int]
    }

    /// The archived bytes held.
    pub closed spec fn contents(&self) -> Seq<u8> {
        self.storage@
    }

    /// The version of the evolution held.
    pub closed spec fn spec_contained_version(&self) -> Version {
        self.contained_version
    }

    /// Creates a pylon from the archived bytes of the evolution `contained_version`.
    pub fn new_unchecked(storage: Vec<u8>, contained_version: Version) -> (r: Self)
        requires
            contained_version.0 <= S::spec_version().0,
            (contained_version.0 as int) < E::spec_sizes().len(),
            storage@.len() == E::spec_sizes()[contained_version.0 as int],
        ensures
            r.contents() == storage@,
            r.spec_contained_version() == contained_version,
    {
        Pylon { storage, contained_version, _phantom: core::marker::PhantomData }
    }

    /// Creates a pylon holding `value`, an archived value of the evolution
    /// `EV`. Fails when `EV` is newer than the storage evolution, whose room
    /// it would overflow.
    pub fn new<EV: Evolution<Base = E>>(value: EV::Archived) -> (r: Result<Self, Error>)
        ensures
            r is Ok <==> EV::spec_version().0 <= S::spec_version().0,
            r matches Ok(p) ==> p.contents() == EV::spec_write(value)
                && p.spec_contained_version() == EV::spec_version(),
            r matches Err(e) ==> e == Error::CreatePylonWithNewerMinorVersionThanStorage,
    {
        let version = EV::version();
        if version.0 > S::version().0 {
            return Err(Error::CreatePylonWithNewerMinorVersionThanStorage);
        }
        let storage = EV::write(&value);
        proof {
            EV::lemma_registered();
            EV::lemma_write_read(value, Seq::empty());
        }
        Ok(Pylon { storage, contained_version: version, _phantom: core::marker::PhantomData })
    }

    /// The version of the evolution held.
    pub fn contained_version(&self) -> (r: Version)
        ensures
            r == self.spec_contained_version(),
    {
        self.contained_version
    }

    /// Whether the pylon holds the storage evolution itself.
    pub fn is_complete(&self) -> (r: bool)
        ensures
            r == (self.spec_contained_version() == S::spec_version()),
    {
        self.contained_version == S::version()
    }

    /// A probe over a copy of the bytes held.
    pub fn probe<P: Probe<Base = E>>(&self) -> (r: P)
        ensures
            r.spec_bytes() == self.contents(),
    {
        P::from_bytes(vstd::slice::slice_to_vec(self.storage.as_slice()))
    }

    /// The archived value of the storage evolution, when the pylon holds it;
    /// otherwise the pylon itself, unchanged.
    pub fn try_unwrap(self) -> (r: Result<S::Archived, Self>)
        ensures
            r is Ok <==> self.spec_contained_version() == S::spec_version(),
            r matches Ok(v) ==> v == S::spec_read(self.contents()),
            r matches Err(p) ==> p == self,
    {
        proof {
            use_type_invariant(&self);
        }
        if self.is_complete() {
            Ok(S::read(self.storage.as_slice()))
        } else {
            Err(self)
        }
    }

    /// The archived value of the storage evolution, which the pylon must hold.
    pub fn unwrap(self) -> (r: S::Archived)
        requires
            self.spec_contained_version() == S::spec_version(),
        ensures
            r == S::spec_read(self.contents()),
    {
        proof {
            use_type_invariant(&self);
        }
        S::read(self.storage.as_slice())
    }

    /// Moves the bytes held into a probe, whose length is that of the
    /// contained evolution.
    pub fn into_boxed_probe<P: Probe<Base = E>>(self) -> (r: P)
        ensures
            r.spec_bytes() == self.contents(),
            r.spec_bytes().len() == E::spec_sizes()[self.spec_contained_version().0 as int],
    {
        proof {
            use_type_invariant(&self);
        }
        P::from_bytes(self.storage)
    }
}

} // verus!
