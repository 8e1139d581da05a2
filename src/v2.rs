//! A line of the example record that knows three evolutions: `{a, b}`,
//! `{a, b, c}` and `{a, b, c, d}`.
use vstd::prelude::*;

use crate::error::Error;
use crate::evolution::{probe_bytes_as, version_from_len, Evolution, Evolving, Probe};
use crate::layout::{pad, spec_pad, FieldShape};
use crate::records::{
    lemma_test_layout, test_field_groups,
    field_a, field_b, field_c, field_d, lemma_read_prefixes, lemma_v0_write_read,
    lemma_v1_write_read, lemma_v2_write_read, read_v0, read_v1, read_v2, spec_read_v0,
    spec_read_v1, spec_read_v2, spec_write_v0, spec_write_v1, spec_write_v2, write_v0, write_v1,
    write_v2,
};
use crate::version::Version;

pub use crate::records::{ArchivedTestV0, ArchivedTestV1, ArchivedTestV2};

verus! {

/// The record as its latest known evolution has it.
#[derive(Debug, Clone, Copy, PartialEq, Eq, Structural)]
pub struct Test {
    pub a: u32,
    pub b: u8,
    pub c: u32,
    pub d: u8,
}

/// The first evolution of [`Test`].
#[derive(Debug, Clone, Copy, PartialEq, Eq, Structural)]
pub struct TestV0 {
    pub a: u32,
    pub b: u8,
}

/// The second evolution of [`Test`].
#[derive(Debug, Clone, Copy, PartialEq, Eq, Structural)]
pub struct TestV1 {
    pub a: u32,
    pub b: u8,
    pub c: u32,
}

/// The third evolution of [`Test`].
#[derive(Debug, Clone, Copy, PartialEq, Eq, Structural)]
pub struct TestV2 {
    pub a: u32,
    pub b: u8,
    pub c: u32,
    pub d: u8,
}

impl From<Test> for ArchivedTestV2 {
    fn from(t: Test) -> Self {
        ArchivedTestV2 {
            a: t.a,
            b: t.b,
            _pad0: pad(),
            c: t.c,
            _pad1: pad(),
            d: t.d,
            _pad2: pad(),
        }
    }
}

impl vstd::std_specs::convert::FromSpecImpl<Test> for ArchivedTestV2 {
    open spec fn obeys_from_spec() -> bool {
        true
    }

    open spec fn from_spec(t: Test) -> Self {
        ArchivedTestV2 {
            a: t.a,
            b: t.b,
            _pad0: spec_pad(),
            c: t.c,
            _pad1: spec_pad(),
            d: t.d,
            _pad2: spec_pad(),
        }
    }
}

impl Evolving for Test {
    open spec fn spec_sizes() -> Seq<nat> {
        seq![8nat, 12nat, 16nat]
    }

    proof fn lemma_sizes_wf() {
    }

    open spec fn spec_field_groups() -> Seq<Seq<FieldShape>> {
        test_field_groups()
    }

    proof fn lemma_layout() {
        lemma_test_layout();
    }

    fn probe_metadata(version: Version) -> (r: Result<usize, Error>) {
        if version == TestV0::version() {
            Ok(TestV0::metadata())
        } else if version == TestV1::version() {
            Ok(TestV1::metadata())
        } else if version == TestV2::version() {
            Ok(TestV2::metadata())
        } else {
            Err(Error::TriedToGetProbeMetadataForNonExistentVersion)
        }
    }
}

impl Evolution for TestV0 {
    type Base = Test;

    type Archived = ArchivedTestV0;

    open spec fn spec_version() -> Version {
        Version(0)
    }

    open spec fn spec_read(bytes: Seq<u8>) -> ArchivedTestV0 {
        spec_read_v0(bytes)
    }

    open spec fn spec_write(value: ArchivedTestV0) -> Seq<u8> {
        spec_write_v0(value)
    }

    proof fn lemma_registered() {
    }

    proof fn lemma_write_read(value: ArchivedTestV0, rest: Seq<u8>) {
        lemma_v0_write_read(value, rest);
    }

    proof fn lemma_read_prefix(bytes: Seq<u8>) {
        lemma_read_prefixes(bytes);
    }

    fn version() -> (r: Version) {
        Version(0)
    }

    fn metadata() -> (r: usize) {
        8
    }

    fn read(bytes: &[u8]) -> (r: ArchivedTestV0) {
        read_v0(bytes)
    }

    fn write(value: &ArchivedTestV0) -> (r: Vec<u8>) {
        write_v0(value)
    }
}

impl Evolution for TestV1 {
    type Base = Test;

    type Archived = ArchivedTestV1;

    open spec fn spec_version() -> Version {
        Version(1)
    }

    open spec fn spec_read(bytes: Seq<u8>) -> ArchivedTestV1 {
        spec_read_v1(bytes)
    }

    open spec fn spec_write(value: ArchivedTestV1) -> Seq<u8> {
        spec_write_v1(value)
    }

    proof fn lemma_registered() {
    }

    proof fn lemma_write_read(value: ArchivedTestV1, rest: Seq<u8>) {
        lemma_v1_write_read(value, rest);
    }

    proof fn lemma_read_prefix(bytes: Seq<u8>) {
        lemma_read_prefixes(bytes);
    }

    fn version() -> (r: Version) {
        Version(1)
    }

    fn metadata() -> (r: usize) {
        12
    }

    fn read(bytes: &[u8]) -> (r: ArchivedTestV1) {
        read_v1(bytes)
    }

    fn write(value: &ArchivedTestV1) -> (r: Vec<u8>) {
        write_v1(value)
    }
}

impl Evolution for TestV2 {
    type Base = Test;

    type Archived = ArchivedTestV2;

    open spec fn spec_version() -> Version {
        Version(2)
    }

    open spec fn spec_read(bytes: Seq<u8>) -> ArchivedTestV2 {
        spec_read_v2(bytes)
    }

    open spec fn spec_write(value: ArchivedTestV2) -> Seq<u8> {
        spec_write_v2(value)
    }

    proof fn lemma_registered() {
    }

    proof fn lemma_write_read(value: ArchivedTestV2, rest: Seq<u8>) {
        lemma_v2_write_read(value, rest);
    }

    proof fn lemma_read_prefix(bytes: Seq<u8>) {
        lemma_read_prefixes(bytes);
    }

    fn version() -> (r: Version) {
        Version(2)
    }

    fn metadata() -> (r: usize) {
        16
    }

    fn read(bytes: &[u8]) -> (r: ArchivedTestV2) {
        read_v2(bytes)
    }

    fn write(value: &ArchivedTestV2) -> (r: Vec<u8>) {
        write_v2(value)
    }
}

/// The probe of this line: archived bytes of some evolution of [`Test`].
pub struct TestProbe {
    data: Vec<u8>,
}

impl Probe for TestProbe {
    type Base = Test;

    closed spec fn spec_bytes(&self) -> Seq<u8> {
        self.data@
    }

    fn from_bytes(data: Vec<u8>) -> (r: Self) {
        TestProbe { data }
    }

    fn bytes(&self) -> (r: &[u8]) {
        self.data.as_slice()
    }

    fn into_bytes(self) -> (r: Vec<u8>) {
        self.data
    }

    fn version(&self) -> (r: Option<Version>) {
        version_from_len::<Test>(self.data.len())
    }

    fn probe_as<V: Evolution<Base = Test>>(&self) -> (r: Option<V::Archived>) {
        probe_bytes_as::<V>(self.data.as_slice())
    }

    fn as_version_unchecked<V: Evolution<Base = Test>>(&self) -> (r: V::Archived) {
        V::read(self.data.as_slice())
    }
}

impl TestProbe {
    /// Field `a`, which every evolution has; `None` only for bytes too short
    /// to hold any evolution.
    pub fn a(&self) -> (r: Option<u32>)
        ensures
            r == field_a(self.spec_bytes()),
    {
        match self.probe_as::<TestV0>() {
            Some(v0) => Some(v0.a),
            None => None,
        }
    }

    /// Field `b`, which every evolution has; `None` only for bytes too short
    /// to hold any evolution.
    pub fn b(&self) -> (r: Option<u8>)
        ensures
            r == field_b(self.spec_bytes()),
    {
        match self.probe_as::<TestV0>() {
            Some(v0) => Some(v0.b),
            None => None,
        }
    }

    /// Field `c`, present when the contents are at least the second evolution.
    pub fn c(&self) -> (r: Option<u32>)
        ensures
            r == field_c(self.spec_bytes()),
    {
        match self.probe_as::<TestV1>() {
            Some(v1) => Some(v1.c),
            None => None,
        }
    }

    /// Field `d`, present when the contents are at least the third evolution.
    pub fn d(&self) -> (r: Option<u8>)
        ensures
            r == field_d(self.spec_bytes()),
    {
        match self.probe_as::<TestV2>() {
            Some(v2) => Some(v2.d),
            None => None,
        }
    }
}

impl crate::prefix::Fields for TestProbe {
    open spec fn spec_field_bytes(&self) -> Seq<u8> {
        <TestProbe as Probe>::spec_bytes(self)
    }

    fn from_field_bytes(bytes: Vec<u8>) -> (r: Self) {
        <TestProbe as Probe>::from_bytes(bytes)
    }
}

} // verus!
