use fast_package_manager::npm::{
    Engines, NpmPackageVersion, NpmResolvedPackage, NpmVersionDist, NpmVersionDistSignature,
    UrlString, Version, VersionRangeSpecifier,
};
use fast_package_manager::resolve_version_range::{
    newest_flagged, pick_newest, resolve_latest, resolve_version_from_version_range, Error,
};
use fast_package_manager::semver::range_text_is_safe;
use indexmap::IndexMap;

fn is_even_version(version: &str, shasum: &str, integrity: &str, sig: &str) -> NpmPackageVersion {
    NpmPackageVersion {
        name: String::from("is-even"),
        version: Version::new(String::from(version)),
        dependencies: vec![(
            String::from("is-odd"),
            VersionRangeSpecifier::new(String::from("^0.1.2")),
        )],
        dist: NpmVersionDist {
            shasum: String::from(shasum),
            tarball: UrlString::new(format!(
                "https://registry.npmjs.org/is-even/-/is-even-{}.tgz",
                version
            )),
            integrity: Some(String::from(integrity)),
            file_count: None,
            unpacked_size: None,
            npm_signatures: None,
            signatures: Some(vec![NpmVersionDistSignature {
                keyid: String::from("SHA256:jl3bwswu80PjjokCgh0o2w5c2U4LhQAE57gj9cz1kzA"),
                sig: String::from(sig),
            }]),
        },
        engines: Some(Engines::Table(vec![(
            String::from("node"),
            VersionRangeSpecifier::new(String::from(">=0.10.0")),
        )])),
    }
}

fn is_even() -> NpmResolvedPackage {
    let mut versions = IndexMap::new();
    versions.insert(
        String::from("0.1.2"),
        is_even_version(
            "0.1.2",
            "e0432a7379f2d20b6ebbc2cb11e69beaaf31cd63",
            "sha512-Ft/TASRTCMIR20eeGtXIx7W+TfAbw/LkG7D3Pw5rncxaF1LCei/WVgO2qxsJiOROZb7JABl6Z8N2pEHjNONt9A==",
            "MEUCIGBqTtBRc6/6dqmI2lc+kmJRw4bB5kGHp5dM0fQH3V5pAiEA18DczU8X1bgDIkckzUOYpzWgZZJeQnpbgdPp9WtLnwY=",
        ),
    );
    versions.insert(
        String::from("1.0.0"),
        is_even_version(
            "1.0.0",
            "76b5055fbad8d294a86b6a949015e1c97b717c06",
            "sha512-LEhnkAdJqic4Dbqn58A0y52IXoHWlsueqQkKfMfdEnIYG8A1sm/GHidKkS6yvXlMoRrkM34csHnXQtOqcb+Jzg==",
            "MEQCIGdFCa72n+vIbeujikn3ExFVcAX2rnuKWBBFWQlQIH1gAiBn5HXb7zzOTEFwAnHX8zrI8+2gPyDaxgy5gAMFq7fzhA==",
        ),
    );
    NpmResolvedPackage {
        name: String::from("is-even"),
        dist_tags: vec![(String::from("latest"), Version::new(String::from("1.0.0")))],
        versions,
        modified: String::from("2022-06-19T02:40:54.045Z"),
    }
}

fn plain_version(name: &str, version: &str) -> NpmPackageVersion {
    NpmPackageVersion {
        name: String::from(name),
        version: Version::new(String::from(version)),
        dependencies: vec![],
        dist: NpmVersionDist {
            shasum: String::new(),
            tarball: UrlString::new(format!("https://registry.npmjs.org/{0}/-/{0}-{1}.tgz", name, version)),
            integrity: None,
            file_count: None,
            unpacked_size: None,
            npm_signatures: None,
            signatures: None,
        },
        engines: None,
    }
}

fn package_of(name: &str, latest: Option<&str>, versions: &[&str]) -> NpmResolvedPackage {
    let mut map = IndexMap::new();
    for version in versions {
        map.insert(String::from(*version), plain_version(name, version));
    }
    NpmResolvedPackage {
        name: String::from(name),
        dist_tags: match latest {
            Some(version) => vec![
                (String::from("next"), Version::new(String::from("9.9.9"))),
                (String::from("latest"), Version::new(String::from(version))),
            ],
            None => vec![(String::from("next"), Version::new(String::from("9.9.9")))],
        },
        versions: map,
        modified: String::new(),
    }
}

fn resolve(package: &NpmResolvedPackage, range: &str) -> Result<String, Error> {
    resolve_version_from_version_range(package, &VersionRangeSpecifier::new(String::from(range)))
        .map(|version| version.version.into_string())
}

#[test]
fn resolves_latest() {
    let package = is_even();

    let resolved = resolve_version_from_version_range(
        &package,
        &VersionRangeSpecifier::new(String::from("latest")),
    );

    assert_eq!(
        resolved,
        package
            .versions
            .get("1.0.0")
            .map(|version| version.to_owned())
            .ok_or(Error::VersionRangeResolveError)
    );
}

#[test]
fn resolves_semver() {
    let package = is_even();

    let resolved = resolve_version_from_version_range(
        &package,
        &VersionRangeSpecifier::new(String::from("^0.1.2")),
    );

    assert_eq!(
        resolved,
        package
            .versions
            .get("0.1.2")
            .map(|version| version.to_owned())
            .ok_or(Error::VersionRangeResolveError)
    );
}

#[test]
fn resolved_metadata_is_complete() {
    let package = is_even();
    let resolved = resolve_version_from_version_range(
        &package,
        &VersionRangeSpecifier::new(String::from("latest")),
    )
    .unwrap();
    assert_eq!(resolved.name, "is-even");
    assert_eq!(resolved.version, Version::new(String::from("1.0.0")));
    assert_eq!(resolved.dependencies.len(), 1);
    assert_eq!(resolved.dist.shasum, "76b5055fbad8d294a86b6a949015e1c97b717c06");
    assert_eq!(
        resolved.dist.tarball.as_str(),
        "https://registry.npmjs.org/is-even/-/is-even-1.0.0.tgz"
    );
    assert_eq!(resolved.dist.signatures.as_ref().unwrap().len(), 1);
    assert_eq!(
        resolved.engines,
        Some(Engines::Table(vec![(
            String::from("node"),
            VersionRangeSpecifier::new(String::from(">=0.10.0"))
        )]))
    );
}

#[test]
fn latest_needs_the_tag() {
    let package = package_of("a", None, &["1.0.0", "2.0.0"]);
    assert_eq!(resolve(&package, "latest"), Err(Error::VersionRangeResolveError));
    assert_eq!(resolve_latest(&package).is_err(), true);
}

#[test]
fn latest_needs_the_tagged_version() {
    let package = package_of("a", Some("3.0.0"), &["1.0.0", "2.0.0"]);
    assert_eq!(resolve(&package, "latest"), Err(Error::VersionRangeResolveError));
}

#[test]
fn latest_is_what_the_tag_names_not_the_newest() {
    let package = package_of("a", Some("1.0.0"), &["1.0.0", "2.0.0"]);
    assert_eq!(resolve(&package, "latest"), Ok(String::from("1.0.0")));
    assert_eq!(resolve_latest(&package).unwrap().version.as_str(), "1.0.0");
}

#[test]
fn only_the_exact_word_is_the_tag() {
    let package = package_of("a", Some("1.0.0"), &["1.0.0", "2.0.0"]);
    assert_eq!(resolve(&package, "Latest"), Err(Error::VersionRangeResolveError));
    assert_eq!(resolve(&package, "next"), Err(Error::VersionRangeResolveError));
    assert_eq!(resolve(&package, " latest"), Err(Error::VersionRangeResolveError));
}

#[test]
fn newest_satisfying_version_wins() {
    let package = package_of("a", Some("1.0.0"), &["1.0.0", "1.1.0", "1.2.0", "2.0.0"]);
    assert_eq!(resolve(&package, "^1.0.0"), Ok(String::from("1.2.0")));
    assert_eq!(resolve(&package, "~1.0.0"), Ok(String::from("1.0.0")));
    assert_eq!(resolve(&package, ">1.0.0"), Ok(String::from("2.0.0")));
    assert_eq!(resolve(&package, "1.1.0"), Ok(String::from("1.1.0")));
    assert_eq!(resolve(&package, "*"), Ok(String::from("2.0.0")));
    assert_eq!(resolve(&package, ">=1.1.0 <2.0.0"), Ok(String::from("1.2.0")));
    assert_eq!(resolve(&package, "1.0.0 || 1.1.0"), Ok(String::from("1.1.0")));
}

#[test]
fn newest_means_last_in_registry_order() {
    // The registry lists 1.2.0 before 1.1.0: the later entry wins.
    let package = package_of("a", None, &["1.0.0", "1.2.0", "1.1.0"]);
    assert_eq!(resolve(&package, "^1.0.0"), Ok(String::from("1.1.0")));
}

#[test]
fn equal_versions_keep_their_registry_places() {
    // Both read as the version 1.0.0; the later of the two is chosen.
    let package = package_of("a", None, &["1.0.0", "v1.0.0"]);
    assert_eq!(resolve(&package, "1.0.0"), Ok(String::from("v1.0.0")));
}

#[test]
fn versions_that_do_not_parse_are_passed_over() {
    let package = package_of("a", None, &["1.0.0", "not-a-version", "1.x"]);
    assert_eq!(resolve(&package, "^1.0.0"), Ok(String::from("1.0.0")));
}

#[test]
fn no_matching_version_fails() {
    let package = package_of("a", Some("1.0.0"), &["1.0.0", "1.1.0"]);
    assert_eq!(resolve(&package, "^2.0.0"), Err(Error::VersionRangeResolveError));
    let empty = package_of("a", None, &[]);
    assert_eq!(resolve(&empty, "*"), Err(Error::VersionRangeResolveError));
}

#[test]
fn a_range_that_reads_as_nothing_fails() {
    let package = package_of("a", Some("1.0.0"), &["1.0.0", "1.1.0"]);
    assert_eq!(resolve(&package, "not a range"), Err(Error::VersionRangeResolveError));
    assert_eq!(resolve(&package, ""), Err(Error::VersionRangeResolveError));
}

#[test]
fn ranges_that_the_parser_aborts_on_fail() {
    let package = package_of("a", Some("1.0.0"), &["1.0.0", "1.1.0"]);
    for range in ["=*", "=x", "= v X", "~*", "~> x", "~1.x.3", "~>1.*.0", "1.0.0 || =*", "1.0.0 ~x"] {
        assert_eq!(range_text_is_safe(range), false, "{}", range);
        assert_eq!(resolve(&package, range), Err(Error::VersionRangeResolveError), "{}", range);
    }
}

#[test]
fn usual_ranges_are_handed_to_the_parser() {
    for range in [
        "*", "x", "1.x", "1.2.x", "^1.2.3", "~1.2.3", "~1.2", "~1", "~1.x", ">=1.0.0", ">=*", "<=x", ">x", "<*",
        "=1.0.0", "= 1.0.0", "1.0.0 - 2.0.0", "^1 || ^2", "", "~1.x.x", "a=x", "~>1.2.3", "foo~*",
    ] {
        assert_eq!(range_text_is_safe(range), true, "{}", range);
    }
}

#[test]
fn safe_wildcard_ranges_resolve() {
    let package = package_of("a", None, &["0.9.0", "1.0.0", "1.1.0", "2.0.0"]);
    assert_eq!(resolve(&package, "1.x"), Ok(String::from("1.1.0")));
    assert_eq!(resolve(&package, ">=*"), Ok(String::from("2.0.0")));
    assert_eq!(resolve(&package, "~1.x"), Ok(String::from("1.1.0")));
    assert_eq!(resolve(&package, "~1.x.x"), Ok(String::from("1.1.0")));
}

#[test]
fn texts_beyond_ascii_are_read_like_any_other() {
    let package = package_of("a", None, &["1.0.0", "１.０.０", "1.0.0-é", "2.0.0"]);
    assert_eq!(resolve(&package, "^1.0.0"), Ok(String::from("1.0.0")));
    assert_eq!(resolve(&package, "１.０.０"), Err(Error::VersionRangeResolveError));
    assert_eq!(resolve(&package, "^1.0.0 é"), Ok(String::from("1.0.0")));
    assert_eq!(resolve(&package, "=é"), Err(Error::VersionRangeResolveError));
    assert_eq!(resolve(&package, "~\u{a0}x"), Err(Error::VersionRangeResolveError));
}

#[test]
fn selection_is_repeatable() {
    let package = package_of("a", Some("1.0.0"), &["1.0.0", "1.1.0", "1.2.0", "2.0.0"]);
    let same = package_of("a", Some("1.0.0"), &["1.0.0", "1.1.0", "1.2.0", "2.0.0"]);
    for range in ["latest", "^1.0.0", "~1.1.0", "*", "^3", "nonsense"] {
        assert_eq!(resolve(&package, range), resolve(&package, range));
        assert_eq!(resolve(&package, range), resolve(&same, range));
    }
}

#[test]
fn newest_flagged_is_the_last_set_flag() {
    assert_eq!(newest_flagged(&vec![]), None);
    assert_eq!(newest_flagged(&vec![false, false]), None);
    assert_eq!(newest_flagged(&vec![true, false]), Some(0));
    assert_eq!(newest_flagged(&vec![true, true, false, true, false]), Some(3));
}

#[test]
fn pick_newest_takes_the_last_flagged_version() {
    let package = package_of("a", None, &["1.0.0", "1.1.0", "2.0.0"]);
    assert_eq!(
        pick_newest(&package, &vec![true, true, false]).map(|v| v.version.into_string()),
        Ok(String::from("1.1.0"))
    );
    assert_eq!(
        pick_newest(&package, &vec![true, false, false]).map(|v| v.version.into_string()),
        Ok(String::from("1.0.0"))
    );
    assert_eq!(
        pick_newest(&package, &vec![false, false, false]),
        Err(Error::VersionRangeResolveError)
    );
    assert_eq!(pick_newest(&package, &vec![]), Err(Error::VersionRangeResolveError));
    // A flag beyond the last version counts for nothing.
    assert_eq!(
        pick_newest(&package, &vec![true, false, false, true]),
        Err(Error::VersionRangeResolveError)
    );
}

#[test]
fn error_names_itself() {
    assert_eq!(Error::VersionRangeResolveError.to_string(), "VersionRangeResolveError");
}
