//! The archive envelope: an evolution's archived bytes inside a larger
//! archive, recorded with their length so that they can be probed later.
//!
//! An archive is a byte buffer. Serializing an evolving value appends the
//! archived bytes of its evolution; resolving the envelope then appends eight
//! bytes: how far back the payload starts, and how long it is, both as
//! little-endian `u32`. The payload's length is the only version tag.
use vstd::prelude::*;

use crate::codec::{le_u32_at, le_u32_bytes, lemma_le_u32_round_trip, push_u32, read_u32};
use crate::evolution::{
    metadata_of, probe_result, version_of_len, AnyProbe, Evolution, Evolving, Probe,
};
use crate::version::Version;

verus! {

/// The byte size of an envelope.
pub const ENVELOPE_SIZE: usize = 8;

/// The bytes of an envelope whose payload starts `back` bytes before it and
/// is `len` bytes long.
pub open spec fn envelope_bytes(back: u32, len: u32) -> Seq<u8> {
    le_u32_bytes(back) + le_u32_bytes(len)
}

/// Where the payload of the envelope at `pos` lies in `buf`, as a start and a
/// length, when the envelope is inside the buffer and points inside it.
pub open spec fn envelope_target(buf: Seq<u8>, pos: int) -> Option<(int, int)> {
    if 0 <= pos && pos + 8 <= buf.len() {
        let back = le_u32_at(buf, pos) as int;
        let len = le_u32_at(buf, pos + 4) as int;
        if back <= pos && pos - back + len <= buf.len() {
            Some((pos - back, len))
        } else {
            None
        }
    } else {
        None
    }
}

/// What serializing `value` as `EV`, writing `gap` after it, and then
/// resolving its envelope appends to an archive.
pub open spec fn archived_evolution_bytes<EV: Evolution>(value: EV::Archived, gap: Seq<u8>) -> Seq<
    u8,
> {
    EV::spec_write(value) + gap + envelope_bytes(
        (metadata_of::<EV>() + gap.len()) as u32,
        metadata_of::<EV>() as u32,
    )
}

/// The position of a serialized evolution `EV` inside an archive, which
/// resolving its envelope needs.
pub struct ArchivedEvolutionResolver<EV> {
    pos: usize,
    _phantom: core::marker::PhantomData<EV>,
}

impl<EV: Evolution> ArchivedEvolutionResolver<EV> {
    pub closed spec fn spec_pos(&self) -> usize {
        self.pos
    }

    /// A resolver for the evolution `EV` serialized at `pos`.
    pub fn from_archived_version_pos(pos: usize) -> (r: Self)
        ensures
            r.spec_pos() == pos,
    {
        ArchivedEvolutionResolver { pos, _phantom: core::marker::PhantomData }
    }

    pub fn pos(&self) -> (r: usize)
        ensures
            r == self.spec_pos(),
    {
        self.pos
    }
}

/// The archived form of an evolving value `E`: the archived bytes of some
/// evolution of `E`, whose length tells which.
pub struct ArchivedEvolution<E> {
    probe: AnyProbe<E>,
}

impl<E: Evolving> ArchivedEvolution<E> {
    /// The archived bytes of the contained evolution.
    pub closed spec fn bytes(&self) -> Seq<u8> {
        self.probe.bytes()
    }

    /// The version of the contained evolution, if this binary knows it.
    pub fn version(&self) -> (r: Option<Version>)
        ensures
            r == version_of_len(E::spec_sizes(), self.bytes().len()),
    {
        self.probe.version()
    }

    /// The contents as the given probe of `E`.
    pub fn as_specific_probe<P: Probe<Base = E>>(&self) -> (r: P)
        ensures
            r.spec_bytes() == self.bytes(),
    {
        self.probe.as_probe_unchecked()
    }

    /// The contents as a probe of `E`.
    pub fn as_probe<P: Probe<Base = E>>(&self) -> (r: P)
        ensures
            r.spec_bytes() == self.bytes(),
    {
        self.as_specific_probe()
    }

    /// The contents read as the evolution `V`, when they are at least `V`.
    pub fn probe_as_version<V: Evolution<Base = E>>(&self) -> (r: Option<V::Archived>)
        ensures
            r == probe_result::<V>(self.bytes()),
    {
        self.probe.probe_as::<V>()
    }

    /// Appends the archived bytes of `value`, an archived value of the
    /// evolution `EV`, to the archive, and returns where they start.
    pub fn serialize_with_evolution_serializer<EV: Evolution<Base = E>>(
        value: &EV::Archived,
        serializer: &mut Vec<u8>,
    ) -> (r: ArchivedEvolutionResolver<EV>)
        ensures
            final(serializer)@ == old(serializer)@ + EV::spec_write(*value),
            final(serializer)@.len() == old(serializer)@.len() + metadata_of::<EV>(),
            r.spec_pos() == old(serializer)@.len(),
    {
        let pos = serializer.len();
        proof {
            EV::lemma_write_read(*value, Seq::empty());
        }
        let mut bytes = EV::write(value);
        serializer.append(&mut bytes);
        ArchivedEvolutionResolver::from_archived_version_pos(pos)
    }

    /// Appends the envelope of the evolution `EV` that `resolver` locates,
    /// which must lie wholly before the envelope, within `u32::MAX` bytes of it.
    pub fn resolve_from_evolution<EV: Evolution<Base = E>>(
        resolver: ArchivedEvolutionResolver<EV>,
        out: &mut Vec<u8>,
    )
        requires
            resolver.spec_pos() + metadata_of::<EV>() <= old(out)@.len(),
            old(out)@.len() - resolver.spec_pos() <= u32::MAX,
        ensures
            final(out)@ == old(out)@ + envelope_bytes(
                (old(out)@.len() - resolver.spec_pos()) as u32,
                metadata_of::<EV>() as u32,
            ),
    {
        proof {
            E::lemma_sizes_wf();
            EV::lemma_registered();
            assert(metadata_of::<EV>() <= u32::MAX);
        }
        let len = EV::metadata();
        let back = out.len() - resolver.pos();
        push_u32(out, back as u32);
        push_u32(out, len as u32);
        assert(final(out)@ =~= old(out)@ + envelope_bytes(back as u32, len as u32));
    }

    /// Reads the envelope at `pos` in `buf`, and takes the payload that it
    /// points to; `None` when the envelope or its payload is outside `buf`.
    pub fn from_archive(buf: &[u8], pos: usize) -> (r: Option<Self>)
        ensures
            r is Some <==> envelope_target(buf@, pos as int) is Some,
            r matches Some(a) ==> (match envelope_target(buf@, pos as int) {
                Some((start, len)) => a.bytes() == buf@.subrange(start, start + len),
                None => false,
            }),
    {
        let n = buf.len();
        if pos > n || n - pos < ENVELOPE_SIZE {
            return None;
        }
        let back = read_u32(buf, pos) as usize;
        let len = read_u32(buf, pos + 4) as usize;
        if back > pos || len > n - (pos - back) {
            return None;
        }
        let start = pos - back;
        let payload = vstd::slice::slice_to_vec(vstd::slice::slice_subrange(buf, start, start + len));
        Some(ArchivedEvolution { probe: AnyProbe::new(payload) })
    }
}

/// Serializing `value` as `EV` after any `prefix`, writing anything else
/// after it, and then resolving its envelope gives an archive from which the
/// envelope yields exactly the archived bytes of `value`.
pub proof fn lemma_archive_round_trip<EV: Evolution>(
    prefix: Seq<u8>,
    value: EV::Archived,
    gap: Seq<u8>,
)
    requires
        metadata_of::<EV>() + gap.len() <= u32::MAX,
    ensures
        ({
            let buf = prefix + archived_evolution_bytes::<EV>(value, gap);
            let pos = prefix.len() + metadata_of::<EV>() + gap.len();
            &&& envelope_target(buf, pos as int) == Some(
                (prefix.len() as int, metadata_of::<EV>() as int),
            )
            &&& buf.subrange(prefix.len() as int, (prefix.len() + metadata_of::<EV>()) as int)
                == EV::spec_write(value)
        }),
{
    let w = EV::spec_write(value);
    EV::lemma_write_read(value, Seq::empty());
    let m = metadata_of::<EV>();
    let back = (m + gap.len()) as u32;
    let buf = prefix + archived_evolution_bytes::<EV>(value, gap);
    let pos = prefix.len() + m + gap.len();
    let before = prefix + w + gap;
    lemma_le_u32_round_trip(back, before, le_u32_bytes(m as u32));
    lemma_le_u32_round_trip(m as u32, before + le_u32_bytes(back), Seq::empty());
    assert(buf =~= before + le_u32_bytes(back) + le_u32_bytes(m as u32));
    assert(buf =~= before + le_u32_bytes(back) + le_u32_bytes(m as u32) + Seq::empty());
    assert(buf.subrange(prefix.len() as int, (prefix.len() + m) as int) =~= w);
}

/// The modifier that stores an evolving value as an [`ArchivedEvolution`].
pub struct Evolve;

impl Evolve {
    /// Serializes `value`, an archived value of the evolution `EV`.
    pub fn serialize_with<EV: Evolution>(value: &EV::Archived, serializer: &mut Vec<u8>) -> (r:
        ArchivedEvolutionResolver<EV>)
        ensures
            final(serializer)@ == old(serializer)@ + EV::spec_write(*value),
            final(serializer)@.len() == old(serializer)@.len() + metadata_of::<EV>(),
            r.spec_pos() == old(serializer)@.len(),
    {
        ArchivedEvolution::<EV::Base>::serialize_with_evolution_serializer::<EV>(value, serializer)
    }

    /// Resolves the envelope of a value serialized with [`Evolve::serialize_with`].
    pub fn resolve_with<EV: Evolution>(resolver: ArchivedEvolutionResolver<EV>, out: &mut Vec<u8>)
        requires
            resolver.spec_pos() + metadata_of::<EV>() <= old(out)@.len(),
            old(out)@.len() - resolver.spec_pos() <= u32::MAX,
        ensures
            final(out)@ == old(out)@ + envelope_bytes(
                (old(out)@.len() - resolver.spec_pos()) as u32,
                metadata_of::<EV>() as u32,
            ),
    {
        ArchivedEvolution::<EV::Base>::resolve_from_evolution::<EV>(resolver, out)
    }
}

} // verus!
