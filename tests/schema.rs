use protoss::schema::{collect_versions, parse_version, MacroArg, SchemaError, Settings, VersionAttr};

#[test]
fn fields_group_by_version() {
    // #[version = 0] a, b, #[version = 1] c, d
    let fields = vec![vec![VersionAttr::Integer(0)], vec![], vec![VersionAttr::Integer(1)], vec![]];
    assert_eq!(collect_versions(&fields), Ok(vec![(0, vec![0, 1]), (1, vec![2, 3])]));
}

#[test]
fn groups_sorted_by_version() {
    let fields = vec![vec![VersionAttr::Integer(2)], vec![VersionAttr::Integer(0)], vec![], vec![VersionAttr::Integer(2)]];
    assert_eq!(collect_versions(&fields), Ok(vec![(0, vec![1, 2]), (2, vec![0, 3])]));
    assert_eq!(collect_versions(&vec![]), Ok(vec![]));
}

#[test]
fn first_field_needs_a_version() {
    let fields = vec![vec![], vec![VersionAttr::Integer(0)]];
    assert_eq!(collect_versions(&fields), Err(SchemaError::FieldWithoutVersion));
}

#[test]
fn field_with_two_versions_is_refused() {
    let fields = vec![vec![VersionAttr::Integer(0), VersionAttr::Integer(1)]];
    assert_eq!(collect_versions(&fields), Err(SchemaError::FieldWithMultipleVersions));
}

#[test]
fn malformed_version_attributes_are_refused() {
    let fields = vec![vec![VersionAttr::Integer(0)], vec![VersionAttr::NotInteger]];
    assert_eq!(collect_versions(&fields), Err(SchemaError::VersionNotInteger));
    let fields = vec![vec![VersionAttr::NotNameValue, VersionAttr::NotInteger]];
    assert_eq!(collect_versions(&fields), Err(SchemaError::MalformedVersionAttribute));
    assert_eq!(parse_version(&VersionAttr::Integer(3)), Ok(3));
}

#[test]
fn settings_from_the_record_attribute() {
    assert_eq!(Settings::from_attr(&None), Ok(Settings { impl_rkyv: false }));
    assert_eq!(Settings::from_attr(&Some(MacroArg::Path("rkyv".to_string()))), Ok(Settings { impl_rkyv: true }));
    assert_eq!(Settings::from_attr(&Some(MacroArg::Path("serde".to_string()))), Err(SchemaError::UnrecognizedArgument));
    assert_eq!(Settings::from_attr(&Some(MacroArg::Other)), Err(SchemaError::MalformedArgument));
}
