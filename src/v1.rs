//! A line of the example record that knows two evolutions: `{a, b}` and
//! `{a, b, c}`.
use vstd::prelude::*;

use crate::error::Error;
use crate::evolution::{probe_bytes_as, version_from_len, Evolution, Evolving, Probe};
use crate::layout::{
    evolution_sizes, lemma_sizes_prefix, lemma_valid_prefix, pad, spec_pad, FieldShape,
};
use crate::records::{
    lemma_test_layout, test_field_groups,
    field_a, field_b, field_c, lemma_read_prefixes, lemma_v0_write_read, lemma_v1_write_read,
    read_v0, read_v1, spec_read_v0, spec_read_v1, spec_write_v0, spec_write_v1, write_v0,
    write_v1,
};
use crate::version::Version;

pub use crate::records::{ArchivedTestV0, ArchivedTestV1};

verus! {

/// The record as its latest known evolution has it.
#[derive(Debug, Clone, Copy, PartialEq, Eq, Structural)]
pub struct Test {
    pub a: u32,
    pub b: u8,
    pub c: u32,
}

/// The first evolution of [`Test`].
#[derive(Debug, Clone, Copy, PartialEq, Eq, Structural)]
pub struct TestV0 {
    pub a: u32,
    pub b: u8,
}

/// The second evolution of [`Test`].
#[derive(Debug, Clone, Copy, PartialEq, Eq, Structural)]
pub struct TestV1 {
    pub a: u32,
    pub b: u8,
    pub c: u32,
}

impl From<Test> for ArchivedTestV1 {
    fn from(t: Test) -> Self {
        ArchivedTestV1 { a: t.a, b: t.b, _pad0: pad(), c: t.c, _pad1: pad() }
    }
}

impl vstd::std_specs::convert::FromSpecImpl<Test> for ArchivedTestV1 {
    open spec fn obeys_from_spec() -> bool {
        true
    }

    open spec fn from_spec(t: Test) -> Self {
        ArchivedTestV1 { a: t.a, b: t.b, _pad0: spec_pad(), c: t.c, _pad1: spec_pad() }
    }
}

impl Evolving for Test {
    open spec fn spec_sizes() -> Seq<nat> {
        seq![8nat, 12nat]
    }

    proof fn lemma_sizes_wf() {
    }

    open spec fn spec_field_groups() -> Seq<Seq<FieldShape>> {
        test_field_groups().take(2)
    }

    proof fn lemma_layout() {
        lemma_test_layout();
        lemma_valid_prefix(test_field_groups(), 2);
        lemma_sizes_prefix(test_field_groups(), 2);
        assert(evolution_sizes(test_field_groups()).take(2) =~= seq![8nat, 12nat]);
    }

    fn probe_metadata(version: Version) -> (r: Result<usize, Error>) {
        if version == TestV0::version() {
            Ok(TestV0::metadata())
        } else if version == TestV1::version() {
            Ok(TestV1::metadata())
        } else {
            Err(Error::TriedToGetProbeMetadataForNonExistentVersion)
        }
    }
}

impl Evolution for TestV0 {
    type Base = Test;

    type Archived = ArchivedTestV0;

    open spec fn spec_version() -> Version {
        Version(0)
    }

    open spec fn spec_read(bytes: Seq<u8>) -> ArchivedTestV0 {
        spec_read_v0(bytes)
    }

    open spec fn spec_write(value: ArchivedTestV0) -> Seq<u8> {
        spec_write_v0(value)
    }

    proof fn lemma_registered() {
    }

    proof fn lemma_write_read(value: ArchivedTestV0, rest: Seq<u8>) {
        lemma_v0_write_read(value, rest);
    }

    proof fn lemma_read_prefix(bytes: Seq<u8>) {
        lemma_read_prefixes(bytes);
    }

    fn version() -> (r: Version) {
        Version(0)
    }

    fn metadata() -> (r: usize) {
        8
    }

    fn read(bytes: &[u8]) -> (r: ArchivedTestV0) {
        read_v0(bytes)
    }

    fn write(value: &ArchivedTestV0) -> (r: Vec<u8>) {
        write_v0(value)
    }
}

impl Evolution for TestV1 {
    type Base = Test;

    type Archived = ArchivedTestV1;

    open spec fn spec_version() -> Version {
        Version(1)
    }

    open spec fn spec_read(bytes: Seq<u8>) -> ArchivedTestV1 {
        spec_read_v1(bytes)
    }

    open spec fn spec_write(value: ArchivedTestV1) -> Seq<u8> {
        spec_write_v1(value)
    }

    proof fn lemma_registered() {
    }

    proof fn lemma_write_read(value: ArchivedTestV1, rest: Seq<u8>) {
        lemma_v1_write_read(value, rest);
    }

    proof fn lemma_read_prefix(bytes: Seq<u8>) {
        lemma_read_prefixes(bytes);
    }

    fn version() -> (r: Version) {
        Version(1)
    }

    fn metadata() -> (r: usize) {
        12
    }

    fn read(bytes: &[u8]) -> (r: ArchivedTestV1) {
        read_v1(bytes)
    }

    fn write(value: &ArchivedTestV1) -> (r: Vec<u8>) {
        write_v1(value)
    }
}

/// The probe of this line: archived bytes of some evolution of [`Test`].
pub struct TestProbe {
    data: Vec<u8>,
}

impl Probe for TestProbe {
    type Base = Test;

    closed spec fn spec_bytes(&self) -> Seq<u8> {
        self.data@
    }

    fn from_bytes(data: Vec<u8>) -> (r: Self) {
        TestProbe { data }
    }

    fn bytes(&self) -> (r: &[u8]) {
        self.data.as_slice()
    }

    fn into_bytes(self) -> (r: Vec<u8>) {
        self.data
    }

    fn version(&self) -> (r: Option<Version>) {
        version_from_len::<Test>(self.data.len())
    }

    fn probe_as<V: Evolution<Base = Test>>(&self) -> (r: Option<V::Archived>) {
        probe_bytes_as::<V>(self.data.as_slice())
    }

    fn as_version_unchecked<V: Evolution<Base = Test>>(&self) -> (r: V::Archived) {
        V::read(self.data.as_slice())
    }
}

impl TestProbe {
    /// Field `a`, which every evolution has; `None` only for bytes too short
    /// to hold any evolution.
    pub fn a(&self) -> (r: Option<u32>)
        ensures
            r == field_a(self.spec_bytes()),
    {
        match self.probe_as::<TestV0>() {
            Some(v0) => Some(v0.a),
            None => None,
        }
    }

    /// Field `b`, which every evolution has; `None` only for bytes too short
    /// to hold any evolution.
    pub fn b(&self) -> (r: Option<u8>)
        ensures
            r == field_b(self.spec_bytes()),
    {
        match self.probe_as::<TestV0>() {
            Some(v0) => Some(v0.b),
            None => None,
        }
    }

    /// Field `c`, present when the contents are at least the second evolution.
    pub fn c(&self) -> (r: Option<u32>)
        ensures
            r == field_c(self.spec_bytes()),
    {
        match self.probe_as::<TestV1>() {
            Some(v1) => Some(v1.c),
            None => None,
        }
    }
}

} // verus!
