use protoss::prefix::{Pre, Prefix};
use protoss::records::{ArchivedTestV0, ArchivedTestV1, ArchivedTestV2};
use protoss::pad;

#[test]
fn basic_functionality() {
    let prefix = Prefix::new(ArchivedTestV1 { a: 42, b: 7, _pad0: pad(), c: 100, _pad1: pad() });
    let pre = Pre::new(prefix);

    assert!(pre.get().is_some());
    let value = pre.get().unwrap();

    let as_v0 = pre.cast::<ArchivedTestV0>();
    assert_eq!(as_v0.get(), Some(ArchivedTestV0 { a: 42, b: 7, _pad0: pad() }));

    let as_v2 = pre.cast::<ArchivedTestV2>();
    assert_eq!(as_v2.get(), None);

    let access_v2 = as_v2.fields();
    assert_eq!(access_v2.a(), Some(value.a));
    assert_eq!(access_v2.b(), Some(value.b));
    assert_eq!(access_v2.c(), Some(value.c));
    assert_eq!(access_v2.d(), None);
}

#[test]
fn prefix_fields_cover_the_whole_value() {
    let prefix = Prefix::new(ArchivedTestV0 { a: 3, b: 4, _pad0: pad() });
    let fields = prefix.fields();
    assert_eq!(fields.a(), Some(3));
    assert_eq!(fields.c(), None);
    let short = Pre::<ArchivedTestV0>::from_bytes(vec![1, 2, 3]);
    assert_eq!(short.get(), None);
}
