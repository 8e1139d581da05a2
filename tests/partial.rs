use protoss::composite::{ArchivedTestParts, Test, TestParts, TestVersion0, TestVersion1};
use protoss::proto::live_groups;
use protoss::{Partial, Proto, Version};

#[test]
fn derive_basic_archiving() {
    let test_v0 = Test::partial_v0(1, 2);

    let mut buf: Vec<u8> = Vec::new();
    let pos = test_v0.parts().serialize_unsized(&mut buf);
    assert_eq!(pos, 0);
    assert_eq!(test_v0.parts().resolve_metadata(), buf.len());

    let archived_v0 = ArchivedTestParts::from_bytes(buf);
    assert_eq!(archived_v0.a(), test_v0.parts().a().copied());
    assert_eq!(archived_v0.b(), test_v0.parts().b().copied());
    assert_eq!(archived_v0.c(), None);
    assert_eq!(archived_v0.d(), None);
}

#[test]
fn partial_round_trip_v0() {
    let p = Test::partial_v0(-1, 2);
    assert!(!p.is_latest());
    assert_eq!(p.version(), Version(0));
    let parts = p.into_boxed_accessor();
    assert_eq!(parts.a(), Some(&-1));
    assert_eq!(parts.b(), Some(&2));
    assert_eq!(parts.c(), None);
    assert_eq!(parts.d(), None);
}

#[test]
fn partial_round_trip_v1() {
    let p = Test::partial_v1(-1, 2, 3, 4);
    assert!(p.is_latest());
    assert_eq!(p.version(), Version(1));
    let parts = p.into_boxed_accessor();
    assert_eq!(parts.a(), Some(&-1));
    assert_eq!(parts.b(), Some(&2));
    assert_eq!(parts.c(), Some(&3));
    assert_eq!(parts.d(), Some(&4));
    let back: Partial<Test> = Proto::from_boxed_parts(parts).ok().unwrap();
    let whole = back.unwrap();
    assert_eq!(whole, Test { version_0: TestVersion0::new(-1, 2), version_1: TestVersion1::new(3, 4) });
}

#[test]
fn archived_parts_of_both_evolutions() {
    let p = Test::partial_v1(-7, 8, 9, 10);
    let mut buf: Vec<u8> = vec![0xaa];
    let pos = p.parts().serialize_unsized(&mut buf);
    assert_eq!(pos, 1);
    assert_eq!(p.parts().resolve_metadata(), 16);
    let archived = ArchivedTestParts::from_bytes(buf[1..].to_vec());
    assert_eq!(archived.a(), Some(-7));
    assert_eq!(archived.b(), Some(8));
    assert_eq!(archived.c(), Some(9));
    assert_eq!(archived.d(), Some(10));
}

#[test]
fn incomplete_partial_does_not_unwrap() {
    let p = Test::partial_v0(5, 6);
    let p = match p.try_unwrap() {
        Ok(_) => panic!("an incomplete partial unwrapped"),
        Err(p) => p,
    };
    assert_eq!(p.parts().a(), Some(&5));
}

#[test]
fn latest_partial_unwraps() {
    let whole = Test { version_0: TestVersion0::new(1, 2), version_1: TestVersion1::new(3, 4) };
    let p = Proto::latest(whole);
    assert!(p.is_latest());
    assert_eq!(p.try_unwrap().ok(), Some(whole));
}

#[test]
fn oversized_parts_are_handed_back() {
    let parts = TestParts { len: 24, version_0: Some(TestVersion0::new(1, 2)), version_1: Some(TestVersion1::new(3, 4)) };
    let boxed = Box::new(parts);
    let back = Proto::<Test>::from_boxed_parts(boxed);
    assert_eq!(back.err().map(|b| *b), Some(parts));
}

#[test]
fn parts_past_their_length_are_absent() {
    let parts = TestParts { len: 8, version_0: Some(TestVersion0::new(1, 2)), version_1: Some(TestVersion1::new(3, 4)) };
    assert_eq!(parts.c(), None);
    assert!(Proto::<Test>::from_boxed_parts(Box::new(parts)).is_err());
}

#[test]
fn accessors_mutate_held_fields() {
    let p = Test::partial_v1(1, 2, 3, 4);
    let mut parts = *p.into_boxed_accessor();
    *parts.a_mut().unwrap() = 10;
    *parts.b_mut().unwrap() = 20;
    *parts.c_mut().unwrap() = 30;
    *parts.d_mut().unwrap() = 40;
    assert_eq!((parts.a(), parts.b(), parts.c(), parts.d()), (Some(&10), Some(&20), Some(&30), Some(&40)));

    let mut parts0 = *Test::partial_v0(1, 2).into_boxed_accessor();
    assert!(parts0.c_mut().is_none());
    assert!(parts0.d_mut().is_none());
    assert_eq!(parts0, *Test::partial_v0(1, 2).into_boxed_accessor());
}

#[test]
fn drop_walk_reaches_initialized_groups_only() {
    let ends = vec![8, 16];
    assert_eq!(live_groups(&ends, 8), 1);
    assert_eq!(live_groups(&ends, 16), 2);
    assert_eq!(live_groups(&ends, 12), 1);
    assert_eq!(live_groups(&ends, 4), 0);
    assert_eq!(Test::partial_v0(1, 2).parts().live_groups(), 1);
    assert_eq!(Test::partial_v1(1, 2, 3, 4).parts().live_groups(), 2);
}
