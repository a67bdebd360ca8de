use fast_package_manager::dependency_resolver::{
    construct_dependency_tree, construct_dependency_vec, get_npm_package_version, seed_requests,
    Error, FetchOutcome, FetchRequest, ResolvedVersions,
};
use fast_package_manager::http;
use fast_package_manager::npm::{
    NpmPackageVersion, NpmResolvedPackage, NpmVersionDist, UrlString, Version,
    VersionRangeSpecifier,
};
use indexmap::IndexMap;

fn range(text: &str) -> VersionRangeSpecifier {
    VersionRangeSpecifier::new(String::from(text))
}

fn version(name: &str, number: &str, deps: &[(&str, &str)]) -> NpmPackageVersion {
    NpmPackageVersion {
        name: String::from(name),
        version: Version::new(String::from(number)),
        dependencies: deps.iter().map(|(n, r)| (String::from(*n), range(r))).collect(),
        dist: NpmVersionDist {
            shasum: String::new(),
            tarball: UrlString::new(format!("https://registry.npmjs.org/{0}/-/{0}-{1}.tgz", name, number)),
            integrity: None,
            file_count: None,
            unpacked_size: None,
            npm_signatures: None,
            signatures: None,
        },
        engines: None,
    }
}

fn request(name: &str, r: &str, is_root: bool) -> FetchRequest {
    FetchRequest { name: String::from(name), range: range(r), is_root }
}

fn resolved(r: &str, v: NpmPackageVersion, is_root: bool) -> FetchOutcome {
    FetchOutcome::Resolved { range: range(r), version: v, is_root }
}

fn table(entries: Vec<(&str, NpmPackageVersion, bool)>) -> ResolvedVersions {
    let mut table = ResolvedVersions::new();
    for (r, v, is_root) in entries {
        table.insert(range(r), v, is_root);
    }
    table
}

#[test]
fn seeds_are_roots_one_for_each_name() {
    let seeds = seed_requests(&vec![
        (String::from("a"), range("^1")),
        (String::from("b"), range("latest")),
        (String::from("a"), range("^2")),
    ]);
    assert_eq!(seeds, vec![request("a", "^1", true), request("b", "latest", true)]);
    assert_eq!(seed_requests(&vec![]), vec![]);
}

#[test]
fn a_failed_fetch_changes_nothing() {
    let mut table = table(vec![("^1", version("a", "1.0.0", &[]), true)]);
    let requests = table.step(FetchOutcome::Failed);
    assert_eq!(requests, vec![]);
    assert_eq!(table.len(), 1);
}

#[test]
fn first_sight_of_a_package_starts_no_fetch() {
    // The table knows nothing of `b`: its dependency is not followed.
    let mut table = ResolvedVersions::new();
    let requests = table.step(resolved("^1", version("a", "1.0.0", &[("b", "^2")]), true));
    assert_eq!(requests, vec![]);
    assert_eq!(table.len(), 1);
    assert!(table.contains_name(&String::from("a")));
    assert!(!table.contains_name(&String::from("b")));
}

#[test]
fn a_known_package_under_a_new_range_is_fetched() {
    let mut table = table(vec![("^2", version("b", "2.1.0", &[]), true)]);
    let requests = table.step(resolved(
        "^1",
        version("a", "1.0.0", &[("b", "^1"), ("b", "^2"), ("c", "*")]),
        true,
    ));
    assert_eq!(requests, vec![request("b", "^1", false)]);
    assert_eq!(table.len(), 2);
}

#[test]
fn dependencies_are_looked_up_before_the_version_is_recorded() {
    // `a` depends on itself under another range: when `a` arrives the table
    // does not hold it yet, so nothing is fetched.
    let mut table = ResolvedVersions::new();
    let requests = table.step(resolved("^1", version("a", "1.0.0", &[("a", "^0.9")]), true));
    assert_eq!(requests, vec![]);
    // The second time it does.
    let requests = table.step(resolved("^2", version("a", "2.0.0", &[("a", "^0.9")]), false));
    assert_eq!(requests, vec![request("a", "^0.9", false)]);
}

#[test]
fn a_recorded_key_is_never_replaced() {
    let mut table = ResolvedVersions::new();
    table.insert(range("^1"), version("a", "1.0.0", &[]), true);
    table.insert(range("^1"), version("a", "1.5.0", &[]), false);
    assert_eq!(table.len(), 1);
    let entry = table.get(&String::from("a"), &range("^1")).unwrap();
    assert_eq!(entry.version.version.as_str(), "1.0.0");
    assert_eq!(entry.is_root, true);
    assert_eq!(table.position(&String::from("a"), &range("^1")), Some(0));
    assert_eq!(table.position(&String::from("a"), &range("^2")), None);
    assert!(table.get(&String::from("b"), &range("^1")).is_none());
    assert_eq!(table.entry(0).unwrap().name, "a");
    assert!(table.entry(1).is_none());
}

#[test]
fn the_key_is_the_name_in_the_metadata() {
    let mut table = ResolvedVersions::new();
    table.step(resolved("latest", version("real-name", "1.0.0", &[]), true));
    assert!(table.contains_name(&String::from("real-name")));
    assert_eq!(table.entry(0).unwrap().range, range("latest"));
}

#[test]
fn resolved_set_links_what_was_resolved() {
    let table = table(vec![
        ("^1", version("a", "1.0.0", &[("b", "^2"), ("c", "*")]), true),
        ("^2", version("b", "2.1.0", &[]), false),
    ]);
    let set = construct_dependency_vec(&table).unwrap();
    assert_eq!(set.len(), 2);
    assert_eq!(set[0].version.name, "a");
    assert_eq!(set[0].is_root, true);
    // `c` was never resolved and is left out.
    assert_eq!(set[0].dependencies, vec![version("b", "2.1.0", &[])]);
    assert_eq!(set[1].version.name, "b");
    assert_eq!(set[1].is_root, false);
    assert_eq!(set[1].dependencies, vec![]);
}

#[test]
fn resolved_set_of_nothing_is_empty() {
    assert_eq!(construct_dependency_vec(&ResolvedVersions::new()).unwrap(), vec![]);
}

#[test]
fn a_package_under_two_ranges_comes_out_once() {
    let table = table(vec![
        ("^2", version("b", "2.1.0", &[]), false),
        ("latest", version("b", "2.1.0", &[]), true),
        ("^1", version("b", "1.0.0", &[]), false),
    ]);
    let set = construct_dependency_vec(&table).unwrap();
    assert_eq!(set.len(), 2);
    assert_eq!(set[0].version.version.as_str(), "2.1.0");
    // A root under any range is a root.
    assert_eq!(set[0].is_root, true);
    assert_eq!(set[1].version.version.as_str(), "1.0.0");
    assert_eq!(set[1].is_root, false);
}

#[test]
fn exactly_the_requested_packages_are_roots() {
    // A run for the request {a: ^1, b: ^2}, where `a` depends on `b` under
    // another range.
    let requested = vec![(String::from("a"), range("^1")), (String::from("b"), range("^2"))];
    let mut pending = seed_requests(&requested);
    let mut table = ResolvedVersions::new();
    let registry = |r: &FetchRequest| match (r.name.as_str(), r.range.as_str()) {
        ("a", "^1") => version("a", "1.0.0", &[("b", "^1")]),
        ("b", "^2") => version("b", "2.0.0", &[]),
        ("b", "^1") => version("b", "1.0.0", &[]),
        _ => unreachable!(),
    };
    // `b` answers first, so that `a` finds it in the table.
    pending.reverse();
    while !pending.is_empty() {
        let r = pending.remove(0);
        let found = registry(&r);
        let outcome = FetchOutcome::Resolved { range: r.range, version: found, is_root: r.is_root };
        let mut next = table.step(outcome);
        pending.append(&mut next);
    }
    let set = construct_dependency_vec(&table).unwrap();
    let mut flags: Vec<(String, String, bool)> = set
        .iter()
        .map(|p| (p.version.name.clone(), p.version.version.as_str().to_string(), p.is_root))
        .collect();
    flags.sort();
    assert_eq!(
        flags,
        vec![
            (String::from("a"), String::from("1.0.0"), true),
            (String::from("b"), String::from("1.0.0"), false),
            (String::from("b"), String::from("2.0.0"), true),
        ]
    );
}

#[test]
fn tree_of_a_resolved_package() {
    let table = table(vec![
        ("^1", version("a", "1.0.0", &[("b", "^2"), ("c", "*")]), true),
        ("^2", version("b", "2.1.0", &[("c", "*")]), false),
        ("*", version("c", "3.0.0", &[]), false),
    ]);
    let tree = construct_dependency_tree(&String::from("a"), &range("^1"), &table).unwrap();
    assert_eq!(tree.name, "a");
    assert_eq!(tree.version.version.as_str(), "1.0.0");
    assert_eq!(tree.dependencies.len(), 2);
    assert_eq!(tree.dependencies[0].name, "b");
    assert_eq!(tree.dependencies[0].dependencies.len(), 1);
    assert_eq!(tree.dependencies[0].dependencies[0].name, "c");
    assert_eq!(tree.dependencies[1].name, "c");
    assert_eq!(tree.dependencies[1].dependencies.len(), 0);
}

#[test]
fn tree_needs_every_key() {
    let table = table(vec![("^1", version("a", "1.0.0", &[("b", "^2")]), true)]);
    assert_eq!(
        construct_dependency_tree(&String::from("a"), &range("^1"), &table),
        Err(Error::VersionDoesNotExist)
    );
    assert_eq!(
        construct_dependency_tree(&String::from("a"), &range("^2"), &table),
        Err(Error::VersionDoesNotExist)
    );
    assert_eq!(
        construct_dependency_tree(&String::from("b"), &range("^1"), &ResolvedVersions::new()),
        Err(Error::VersionDoesNotExist)
    );
}

#[test]
fn tree_of_a_cycle_fails() {
    let table = table(vec![
        ("^1", version("a", "1.0.0", &[("b", "^1")]), true),
        ("^1", version("b", "1.0.0", &[("a", "^1")]), false),
    ]);
    assert_eq!(
        construct_dependency_tree(&String::from("a"), &range("^1"), &table),
        Err(Error::DependencyResolveError)
    );
    let own = table_of_self();
    assert_eq!(
        construct_dependency_tree(&String::from("a"), &range("^1"), &own),
        Err(Error::DependencyResolveError)
    );
}

fn table_of_self() -> ResolvedVersions {
    table(vec![("^1", version("a", "1.0.0", &[("a", "^1")]), true)])
}

#[test]
fn tree_may_hold_a_package_twice() {
    // `c` is reached twice, but never through itself.
    let table = table(vec![
        ("^1", version("a", "1.0.0", &[("b", "^1"), ("c", "^1")]), true),
        ("^1", version("b", "1.0.0", &[("c", "^1")]), false),
        ("^1", version("c", "1.0.0", &[]), false),
    ]);
    let tree = construct_dependency_tree(&String::from("a"), &range("^1"), &table).unwrap();
    assert_eq!(tree.dependencies[0].dependencies[0].name, "c");
    assert_eq!(tree.dependencies[1].name, "c");
}

fn package(name: &str, latest: &str, versions: &[&str]) -> NpmResolvedPackage {
    let mut map = IndexMap::new();
    for number in versions {
        map.insert(String::from(*number), version(name, number, &[]));
    }
    NpmResolvedPackage {
        name: String::from(name),
        dist_tags: vec![(String::from("latest"), Version::new(String::from(latest)))],
        versions: map,
        modified: String::new(),
    }
}

#[test]
fn a_fetch_ends_with_the_selected_version() {
    let outcome = get_npm_package_version(
        &request("a", "^1.0.0", true),
        Ok(package("a", "2.0.0", &["1.0.0", "1.1.0", "2.0.0"])),
    );
    assert_eq!(outcome, resolved("^1.0.0", version("a", "1.1.0", &[]), true));
    let outcome = get_npm_package_version(
        &request("a", "latest", false),
        Ok(package("a", "2.0.0", &["1.0.0", "1.1.0", "2.0.0"])),
    );
    assert_eq!(outcome, resolved("latest", version("a", "2.0.0", &[]), false));
}

#[test]
fn a_fetch_fails_without_metadata_or_without_a_match() {
    assert_eq!(
        get_npm_package_version(&request("a", "^1.0.0", true), Err(http::Error::HttpError)),
        FetchOutcome::Failed
    );
    assert_eq!(
        get_npm_package_version(&request("a", "^1.0.0", true), Err(http::Error::ParseError)),
        FetchOutcome::Failed
    );
    assert_eq!(
        get_npm_package_version(&request("a", "^3.0.0", true), Ok(package("a", "2.0.0", &["1.0.0"]))),
        FetchOutcome::Failed
    );
}

#[test]
fn errors_name_themselves() {
    assert_eq!(Error::DependencyResolveError.to_string(), "DependencyResolveError");
    assert_eq!(Error::VersionDoesNotExist.to_string(), "VersionDoesNotExist");
}
