use fast_package_manager::npm::{UrlString, Version, VersionRangeSpecifier};

#[test]
fn version_eq() {
    assert_eq!(
        Version::new(String::from("1.0.0"),),
        Version::new(String::from("1.0.0"))
    )
}

#[test]
fn version_range_eq() {
    assert_eq!(
        VersionRangeSpecifier::new(String::from(">1.0.0")),
        VersionRangeSpecifier::new(String::from(">1.0.0"))
    )
}

#[test]
fn version_range_ref_eq() {
    let range = VersionRangeSpecifier::new(String::from(">1.0.0"));
    let range_ref = &range;

    assert_eq!(
        *range_ref,
        VersionRangeSpecifier::new(String::from(">1.0.0"))
    )
}

#[test]
fn versions_are_compared_as_text() {
    assert_ne!(Version::new(String::from("1.0.0")), Version::new(String::from("v1.0.0")));
    assert_ne!(Version::new(String::from("1.0")), Version::new(String::from("1.0.0")));
    assert!(Version::new(String::from("1.0.0")).same_as(&Version::new(String::from("1.0.0"))));
    assert!(!Version::new(String::from("1.0.0")).same_as(&Version::new(String::from("1.0.1"))));
}

#[test]
fn ranges_are_compared_as_text() {
    // Two ranges that admit the same versions are still two ranges.
    assert_ne!(
        VersionRangeSpecifier::new(String::from("1.0.0")),
        VersionRangeSpecifier::new(String::from("=1.0.0"))
    );
    assert!(!VersionRangeSpecifier::new(String::from("^1"))
        .same_as(&VersionRangeSpecifier::new(String::from("^1.0.0"))));
}

#[test]
fn newtypes_hand_their_text_back() {
    assert_eq!(Version::new(String::from("1.2.3")).as_str(), "1.2.3");
    assert_eq!(Version::new(String::from("1.2.3")).into_string(), "1.2.3");
    assert_eq!(VersionRangeSpecifier::new(String::from("latest")).as_str(), "latest");
    assert_eq!(
        UrlString::new(String::from("https://registry.npmjs.org/a/-/a-1.0.0.tgz")).as_str(),
        "https://registry.npmjs.org/a/-/a-1.0.0.tgz"
    );
    assert_eq!(Version::try_from(String::from("1.2.3")), Ok(Version::new(String::from("1.2.3"))));
    assert_eq!(
        VersionRangeSpecifier::try_from(String::from(">3")),
        Ok(VersionRangeSpecifier::new(String::from(">3")))
    );
    assert_eq!(UrlString::try_from(String::from("u")), Ok(UrlString::new(String::from("u"))));
}
