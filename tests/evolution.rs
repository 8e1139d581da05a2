use protoss::archive::ENVELOPE_SIZE;
use protoss::layout::{checked_align_up, evolution_sizes_of, FieldShape};
use protoss::pylon::Pylon;
use protoss::{pad, v1, v2, AnyProbe, ArchivedEvolution, Error, Evolution, Evolve, Evolving, Probe};
use protoss::{ArchivedVersion, Version};

fn v1_probe(a: u32, b: u8, c: u32) -> v1::TestProbe {
    let t = v1::Test { a, b, c };
    let pylon: Pylon<v1::Test, v1::TestV1> =
        Pylon::new::<v1::TestV1>(v1::ArchivedTestV1::from(t)).unwrap();
    pylon.into_boxed_probe()
}

fn v2_probe(a: u32, b: u8, c: u32, d: u8) -> v2::TestProbe {
    let t = v2::Test { a, b, c, d };
    let pylon: Pylon<v2::Test, v2::TestV2> =
        Pylon::new::<v2::TestV2>(v2::ArchivedTestV2::from(t)).unwrap();
    pylon.into_boxed_probe()
}

fn archive_v1(a: u32, b: u8, c: u32) -> Vec<u8> {
    let value = v1::ArchivedTestV1::from(v1::Test { a, b, c });
    let mut buf: Vec<u8> = Vec::new();
    let resolver = Evolve::serialize_with::<v1::TestV1>(&value, &mut buf);
    Evolve::resolve_with(resolver, &mut buf);
    buf
}

fn archive_v2(a: u32, b: u8, c: u32, d: u8) -> Vec<u8> {
    let value = v2::ArchivedTestV2::from(v2::Test { a, b, c, d });
    let mut buf: Vec<u8> = Vec::new();
    let resolver = Evolve::serialize_with::<v2::TestV2>(&value, &mut buf);
    Evolve::resolve_with(resolver, &mut buf);
    buf
}

#[test]
fn into_boxed_probe() {
    let probe_v1 = v1_probe(1, 2, 3);

    assert_eq!(probe_v1.probe_as::<v1::TestV0>(), Some(v1::ArchivedTestV0 { a: 1, b: 2, _pad0: pad() }));
    assert_eq!(
        probe_v1.probe_as::<v1::TestV1>(),
        Some(v1::ArchivedTestV1 { a: 1, b: 2, _pad0: pad(), c: 3, _pad1: pad() })
    );
    assert_eq!(probe_v1.a(), Some(1));
    assert_eq!(probe_v1.b(), Some(2));
    assert_eq!(probe_v1.c(), Some(3));
}

#[test]
fn basic_evolution_minor() {
    let v1_probe = v1_probe(1, 2, 3);
    let v2_probe = v2_probe(5, 6, 7, 8);

    let v1_from_v2: v1::TestProbe = v2_probe.as_any_probe().reinterpret::<v1::Test>().into_probe();

    assert_eq!(v1_from_v2.probe_as::<v1::TestV0>(), Some(v1::ArchivedTestV0 { a: 5, b: 6, _pad0: pad() }));
    assert_eq!(
        v1_from_v2.probe_as::<v1::TestV1>(),
        Some(v1::ArchivedTestV1 { a: 5, b: 6, _pad0: pad(), c: 7, _pad1: pad() })
    );

    let v2_from_v1: v2::TestProbe = v1_probe.as_any_probe().reinterpret::<v2::Test>().into_probe();

    assert_eq!(v2_from_v1.probe_as::<v2::TestV0>(), Some(v2::ArchivedTestV0 { a: 1, b: 2, _pad0: pad() }));
    assert_eq!(
        v2_from_v1.probe_as::<v2::TestV1>(),
        Some(v2::ArchivedTestV1 { a: 1, b: 2, _pad0: pad(), c: 3, _pad1: pad() })
    );
    assert_eq!(v2_from_v1.probe_as::<v2::TestV2>(), None);
    assert_eq!(v2_from_v1.a(), Some(1));
    assert_eq!(v2_from_v1.b(), Some(2));
    assert_eq!(v2_from_v1.c(), Some(3));
    assert_eq!(v2_from_v1.d(), None);
}

#[test]
fn lib_basic_archiving() {
    let buf = archive_v1(1, 2, 3);
    let archived_test = ArchivedEvolution::<v1::Test>::from_archive(&buf, buf.len() - ENVELOPE_SIZE).unwrap();

    let probe: v1::TestProbe = archived_test.as_probe();

    assert_eq!(probe.probe_as::<v1::TestV0>(), Some(v1::ArchivedTestV0 { a: 1, b: 2, _pad0: pad() }));
    assert_eq!(
        probe.probe_as::<v1::TestV1>(),
        Some(v1::ArchivedTestV1 { a: 1, b: 2, _pad0: pad(), c: 3, _pad1: pad() })
    );
    assert_eq!(probe.a(), Some(1));
    assert_eq!(probe.b(), Some(2));
    assert_eq!(probe.c(), Some(3));
}

#[test]
fn basic_archived_backwards_compat_minor() {
    // producer is on v1, serializes a v1; consumer is on v2
    let buf = archive_v1(1, 2, 3);
    let archived_test = ArchivedEvolution::<v2::Test>::from_archive(&buf, buf.len() - ENVELOPE_SIZE).unwrap();

    let probe: v2::TestProbe = archived_test.as_probe();

    assert_eq!(probe.probe_as::<v2::TestV0>(), Some(v2::ArchivedTestV0 { a: 1, b: 2, _pad0: pad() }));
    assert_eq!(
        probe.probe_as::<v2::TestV1>(),
        Some(v2::ArchivedTestV1 { a: 1, b: 2, _pad0: pad(), c: 3, _pad1: pad() })
    );
    assert_eq!(probe.probe_as::<v2::TestV2>(), None);
    assert_eq!(probe.a(), Some(1));
    assert_eq!(probe.b(), Some(2));
    assert_eq!(probe.c(), Some(3));
    assert_eq!(probe.d(), None);
}

#[test]
fn basic_archived_forwards_compat_minor() {
    // producer is on v2, serializes a v2; consumer is on v1
    let buf = archive_v2(5, 6, 7, 8);
    let archived_test = ArchivedEvolution::<v1::Test>::from_archive(&buf, buf.len() - ENVELOPE_SIZE).unwrap();

    let probe: v1::TestProbe = archived_test.as_probe();

    assert_eq!(probe.probe_as::<v1::TestV0>(), Some(v1::ArchivedTestV0 { a: 5, b: 6, _pad0: pad() }));
    assert_eq!(
        probe.probe_as::<v1::TestV1>(),
        Some(v1::ArchivedTestV1 { a: 5, b: 6, _pad0: pad(), c: 7, _pad1: pad() })
    );
    assert_eq!(probe.a(), Some(5));
    assert_eq!(probe.b(), Some(6));
    assert_eq!(probe.c(), Some(7));
    // the v1 line does not know the third evolution
    assert_eq!(probe.version(), None);
    assert_eq!(archived_test.version(), None);
}

#[test]
fn scenario_record_line_v0_v1() {
    let probe = v1_probe(1, 2, 3);
    assert_eq!(probe.probe_as::<v1::TestV0>(), Some(v1::ArchivedTestV0 { a: 1, b: 2, _pad0: pad() }));
    assert_eq!(
        probe.probe_as::<v1::TestV1>(),
        Some(v1::ArchivedTestV1 { a: 1, b: 2, _pad0: pad(), c: 3, _pad1: pad() })
    );
    assert_eq!(probe.version(), Some(Version(1)));
}

#[test]
fn scenario_cross_line_reinterpretation() {
    let probe = v2_probe(5, 6, 7, 8);
    let as_v1: v1::TestProbe = probe.into_boxed_any_probe().reinterpret::<v1::Test>().into_probe();
    assert_eq!(as_v1.version(), None);
    assert_eq!(
        as_v1.probe_as::<v1::TestV1>(),
        Some(v1::ArchivedTestV1 { a: 5, b: 6, _pad0: pad(), c: 7, _pad1: pad() })
    );
    assert_eq!(as_v1.c(), Some(7));
}

#[test]
fn scenario_pylon_storage_overflow() {
    let value = v1::ArchivedTestV1::from(v1::Test { a: 1, b: 2, c: 3 });
    let r = Pylon::<v1::Test, v1::TestV0>::new::<v1::TestV1>(value);
    assert_eq!(r.err(), Some(Error::CreatePylonWithNewerMinorVersionThanStorage));
}

#[test]
fn pylon_holds_older_evolution() {
    let value = v2::ArchivedTestV0 { a: 9, b: 4, _pad0: pad() };
    let pylon = Pylon::<v2::Test, v2::TestV2>::new::<v2::TestV0>(value).unwrap();
    assert!(!pylon.is_complete());
    assert_eq!(pylon.contained_version(), Version(0));
    let pylon = match pylon.try_unwrap() {
        Ok(_) => panic!("an incomplete pylon unwrapped"),
        Err(p) => p,
    };
    let probe: v2::TestProbe = pylon.into_boxed_probe();
    assert_eq!(probe.version(), Some(Version(0)));
    assert_eq!(probe.a(), Some(9));
    assert_eq!(probe.b(), Some(4));
    assert_eq!(probe.c(), None);
    assert_eq!(probe.d(), None);
}

#[test]
fn pylon_unwraps_complete_value() {
    let value = v2::ArchivedTestV2::from(v2::Test { a: 1, b: 2, c: 3, d: 4 });
    let pylon = Pylon::<v2::Test, v2::TestV2>::new::<v2::TestV2>(value).unwrap();
    assert!(pylon.is_complete());
    assert_eq!(pylon.unwrap(), value);
}

#[test]
fn probing_is_idempotent() {
    let probe = v1_probe(10, 20, 30);
    assert_eq!(probe.version(), probe.version());
    assert_eq!(probe.probe_as::<v1::TestV1>(), probe.probe_as::<v1::TestV1>());
    assert_eq!(probe.c(), probe.c());
}

#[test]
fn probe_metadata_by_version() {
    assert_eq!(v2::Test::probe_metadata(Version(0)), Ok(8));
    assert_eq!(v2::Test::probe_metadata(Version(1)), Ok(12));
    assert_eq!(v2::Test::probe_metadata(Version(2)), Ok(16));
    assert_eq!(v1::Test::probe_metadata(Version(2)), Err(Error::TriedToGetProbeMetadataForNonExistentVersion));
    assert_eq!(v1::TestV1::metadata(), 12);
    assert_eq!(v2::TestV2::version(), Version::new(2));
}

#[test]
fn version_from_probe_length() {
    let probe = AnyProbe::<v2::Test>::new(vec![0u8; 12]);
    assert_eq!(probe.version(), Some(Version(1)));
    let probe = AnyProbe::<v2::Test>::new(vec![0u8; 13]);
    assert_eq!(probe.version(), None);
    assert_eq!(probe.probe_as::<v2::TestV1>().map(|v| v.c), Some(0));
    let short = v2::TestProbe::from_bytes(vec![1, 0, 0, 0]);
    assert_eq!(short.a(), None);
    assert_eq!(short.probe_as::<v2::TestV0>(), None);
}

#[test]
fn archived_bytes_are_little_endian() {
    let buf = archive_v1(0x0403_0201, 5, 0x0908_0706);
    assert_eq!(buf, vec![1, 2, 3, 4, 5, 0, 0, 0, 6, 7, 8, 9, 12, 0, 0, 0, 12, 0, 0, 0]);
}

#[test]
fn envelope_outside_archive_is_refused() {
    let buf = archive_v1(1, 2, 3);
    assert!(ArchivedEvolution::<v1::Test>::from_archive(&buf, buf.len() - 4).is_none());
    let mut bad = buf.clone();
    let n = bad.len();
    bad[n - 8] = 200;
    assert!(ArchivedEvolution::<v1::Test>::from_archive(&bad, n - ENVELOPE_SIZE).is_none());
}

#[test]
fn archived_evolution_probes_by_version() {
    let buf = archive_v2(5, 6, 7, 8);
    let archived = ArchivedEvolution::<v2::Test>::from_archive(&buf, buf.len() - ENVELOPE_SIZE).unwrap();
    assert_eq!(archived.version(), Some(Version(2)));
    assert_eq!(
        archived.probe_as_version::<v2::TestV2>(),
        Some(v2::ArchivedTestV2 { a: 5, b: 6, _pad0: pad(), c: 7, _pad1: pad(), d: 8, _pad2: pad() })
    );
    let probe: AnyProbe<v2::Test> = archived.as_specific_probe();
    assert_eq!(probe.len(), 16);
}

#[test]
fn layout_of_the_record_line() {
    let groups = vec![
        vec![FieldShape { size: 4, align: 4 }, FieldShape { size: 1, align: 1 }],
        vec![FieldShape { size: 4, align: 4 }],
        vec![FieldShape { size: 1, align: 1 }],
    ];
    assert_eq!(evolution_sizes_of(&groups), Ok(vec![8, 12, 16]));
}

#[test]
fn layout_rejects_evolution_that_does_not_grow() {
    let groups = vec![vec![FieldShape { size: 4, align: 4 }, FieldShape { size: 1, align: 1 }], vec![FieldShape { size: 0, align: 1 }]];
    assert_eq!(evolution_sizes_of(&groups), Err(Error::InvalidBuilderFields));
    let groups = vec![vec![FieldShape { size: 0, align: 8 }]];
    assert_eq!(evolution_sizes_of(&groups), Err(Error::InvalidBuilderFields));
}

#[test]
fn layout_rejects_zero_alignment_and_overflow() {
    let groups = vec![vec![FieldShape { size: 4, align: 0 }]];
    assert_eq!(evolution_sizes_of(&groups), Err(Error::InvalidBuilderFields));
    let groups = vec![vec![FieldShape { size: usize::MAX, align: 1 }, FieldShape { size: 1, align: 1 }]];
    assert_eq!(evolution_sizes_of(&groups), Err(Error::InvalidBuilderFields));
}

#[test]
fn layout_pads_to_widest_alignment() {
    let groups = vec![vec![FieldShape { size: 1, align: 1 }, FieldShape { size: 8, align: 8 }, FieldShape { size: 1, align: 1 }]];
    assert_eq!(evolution_sizes_of(&groups), Ok(vec![24]));
    assert_eq!(checked_align_up(9, 8), Some(16));
    assert_eq!(checked_align_up(16, 8), Some(16));
    assert_eq!(checked_align_up(usize::MAX, 2), None);
}

#[test]
fn version_archives_and_unarchives() {
    let v = Version::new(7);
    assert_eq!(v.archive(), ArchivedVersion(7));
    assert_eq!(ArchivedVersion(7).unarchived(), v);
}

#[test]
fn error_messages_are_not_empty() {
    assert!(!Error::TriedToGetProbeMetadataForNonExistentVersion.message().is_empty());
    assert!(!Error::InvalidBuilderFields.message().is_empty());
    assert!(!Error::CreatePylonWithNewerMinorVersionThanStorage.message().is_empty());
}

#[test]
fn two_evolving_fields_in_one_archive() {
    let first = v1::ArchivedTestV1::from(v1::Test { a: 1, b: 2, c: 3 });
    let second = v2::ArchivedTestV2::from(v2::Test { a: 4, b: 5, c: 6, d: 7 });
    let mut buf: Vec<u8> = vec![0xee; 3];
    let r1 = Evolve::serialize_with::<v1::TestV1>(&first, &mut buf);
    let r2 = Evolve::serialize_with::<v2::TestV2>(&second, &mut buf);
    let pos1 = buf.len();
    Evolve::resolve_with(r1, &mut buf);
    let pos2 = buf.len();
    Evolve::resolve_with(r2, &mut buf);
    assert_eq!(&buf[pos1..pos1 + 4], &[28, 0, 0, 0]);

    let a1 = ArchivedEvolution::<v1::Test>::from_archive(&buf, pos1).unwrap();
    assert_eq!(a1.version(), Some(Version(1)));
    assert_eq!(a1.probe_as_version::<v1::TestV1>(), Some(first));
    let a2 = ArchivedEvolution::<v2::Test>::from_archive(&buf, pos2).unwrap();
    assert_eq!(a2.version(), Some(Version(2)));
    assert_eq!(a2.probe_as_version::<v2::TestV2>(), Some(second));
}

#[test]
fn error_messages_are_exact() {
    assert_eq!(
        Error::TriedToGetProbeMetadataForNonExistentVersion.message(),
        "tried to get probe metadata for a non-existent version of an Evolving type"
    );
    assert_eq!(
        Error::CreatePylonWithNewerMinorVersionThanStorage.message(),
        "tried to create a pylon holding a newer minor version than its storage version"
    );
}
