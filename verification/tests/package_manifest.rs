use fast_package_manager::install_manifest::install_manifest;
use fast_package_manager::npm::VersionRangeSpecifier;
use fast_package_manager::package_manifest::{
    first_manifest_path, get_manifest_file, member_position, next_manifest_path, set_member,
    update_manifest, JsonValue, ManifestError, SearchStep,
};

fn range(text: &str) -> VersionRangeSpecifier {
    VersionRangeSpecifier::new(String::from(text))
}

fn text(value: &str) -> JsonValue {
    JsonValue::String(String::from(value))
}

fn object(members: Vec<(&str, JsonValue)>) -> JsonValue {
    JsonValue::Object(members.into_iter().map(|(k, v)| (String::from(k), v)).collect())
}

#[test]
fn the_search_starts_in_the_working_directory() {
    assert_eq!(first_manifest_path(&String::from("/home/me/project")), "/home/me/project/package.json");
}

#[test]
fn the_search_goes_up_one_directory_at_a_time() {
    assert_eq!(
        next_manifest_path(&String::from("/home/me/project/package.json")),
        Ok(String::from("/home/me/package.json"))
    );
    assert_eq!(
        next_manifest_path(&String::from("/home/me/package.json")),
        Ok(String::from("/home/package.json"))
    );
    assert_eq!(
        next_manifest_path(&String::from("/home/package.json")),
        Ok(String::from("/package.json"))
    );
    assert_eq!(
        next_manifest_path(&String::from("/package.json")),
        Err(ManifestError::ManifestNotFound)
    );
    assert_eq!(next_manifest_path(&String::from("package.json")), Err(ManifestError::ManifestNotFound));
}

#[test]
fn a_manifest_in_the_working_directory_is_found() {
    let candidate = first_manifest_path(&String::from("/tmp/a"));
    assert_eq!(
        get_manifest_file(&candidate, true),
        Ok(SearchStep::Found(String::from("/tmp/a/package.json")))
    );
}

#[test]
fn a_manifest_one_directory_up_is_found() {
    let candidate = first_manifest_path(&String::from("/tmp/a/nested"));
    let step = get_manifest_file(&candidate, false);
    assert_eq!(step, Ok(SearchStep::Look(String::from("/tmp/a/package.json"))));
    assert_eq!(
        get_manifest_file(&String::from("/tmp/a/package.json"), true),
        Ok(SearchStep::Found(String::from("/tmp/a/package.json")))
    );
}

#[test]
fn a_manifest_two_directories_up_is_found() {
    let mut candidate = first_manifest_path(&String::from("/tmp/a/nested/deeper"));
    let mut looked = vec![candidate.clone()];
    let found = loop {
        let exists = candidate == "/tmp/a/package.json";
        match get_manifest_file(&candidate, exists).unwrap() {
            SearchStep::Found(path) => break path,
            SearchStep::Look(path) => {
                looked.push(path.clone());
                candidate = path;
            }
        }
    };
    assert_eq!(found, "/tmp/a/package.json");
    assert_eq!(
        looked,
        vec![
            String::from("/tmp/a/nested/deeper/package.json"),
            String::from("/tmp/a/nested/package.json"),
            String::from("/tmp/a/package.json"),
        ]
    );
}

#[test]
fn the_search_fails_above_the_root() {
    let mut candidate = first_manifest_path(&String::from("/tmp/a"));
    let mut steps = 0;
    let error = loop {
        match get_manifest_file(&candidate, false) {
            Ok(SearchStep::Look(path)) => candidate = path,
            Ok(SearchStep::Found(_)) => unreachable!(),
            Err(error) => break error,
        }
        steps += 1;
    };
    assert_eq!(error, ManifestError::ManifestNotFound);
    assert_eq!(steps, 2);
    assert_eq!(error.to_string(), "Failed to locate manifest file");
}

#[test]
fn additions_go_into_the_dependency_list() {
    let manifest = object(vec![
        ("name", text("project")),
        ("dependencies", object(vec![("a", text("^1.0.0")), ("b", text("^2.0.0"))])),
        ("private", JsonValue::Bool(true)),
    ]);
    let updated = update_manifest(
        manifest,
        &vec![(String::from("b"), range("^3.0.0")), (String::from("c"), range("^0.1.0"))],
    );
    assert_eq!(
        updated,
        object(vec![
            ("name", text("project")),
            (
                "dependencies",
                object(vec![("a", text("^1.0.0")), ("b", text("^3.0.0")), ("c", text("^0.1.0"))])
            ),
            ("private", JsonValue::Bool(true)),
        ])
    );
}

#[test]
fn a_manifest_without_a_list_gets_one() {
    let manifest = object(vec![("name", text("project"))]);
    let updated = update_manifest(manifest, &vec![(String::from("a"), range("^1.0.0"))]);
    assert_eq!(
        updated,
        object(vec![("name", text("project")), ("dependencies", object(vec![("a", text("^1.0.0"))]))])
    );
    assert_eq!(
        update_manifest(object(vec![]), &vec![]),
        object(vec![("dependencies", object(vec![]))])
    );
}

#[test]
fn a_list_that_is_no_object_is_left_alone() {
    let manifest = object(vec![("dependencies", text("{}")), ("version", JsonValue::Number(String::from("1")))]);
    let updated = update_manifest(manifest, &vec![(String::from("a"), range("^1.0.0"))]);
    assert_eq!(
        updated,
        object(vec![("dependencies", text("{}")), ("version", JsonValue::Number(String::from("1")))])
    );
}

#[test]
fn the_last_addition_of_a_name_stays() {
    let updated = update_manifest(
        object(vec![("dependencies", object(vec![]))]),
        &vec![(String::from("a"), range("^1.0.0")), (String::from("a"), range("^2.0.0"))],
    );
    assert_eq!(updated, object(vec![("dependencies", object(vec![("a", text("^2.0.0"))]))]));
}

#[test]
fn members_are_set_in_place_or_at_the_end() {
    let mut members = vec![(String::from("a"), JsonValue::Null), (String::from("b"), JsonValue::Null)];
    assert_eq!(member_position(&members, &String::from("b")), Some(1));
    assert_eq!(member_position(&members, &String::from("c")), None);
    set_member(&mut members, String::from("a"), JsonValue::Bool(false));
    set_member(&mut members, String::from("c"), JsonValue::Array(vec![]));
    assert_eq!(
        members,
        vec![
            (String::from("a"), JsonValue::Bool(false)),
            (String::from("b"), JsonValue::Null),
            (String::from("c"), JsonValue::Array(vec![])),
        ]
    );
}

#[test]
fn the_manifest_lists_what_to_install() {
    let manifest = object(vec![
        ("name", text("project")),
        ("dependencies", object(vec![("a", text("^1.0.0")), ("@s/b", text("latest"))])),
    ]);
    assert_eq!(
        install_manifest(&manifest),
        Some(vec![(String::from("a"), range("^1.0.0")), (String::from("@s/b"), range("latest"))])
    );
    assert_eq!(install_manifest(&object(vec![("dependencies", object(vec![]))])), Some(vec![]));
}

#[test]
fn a_manifest_without_a_usable_list_installs_nothing() {
    assert_eq!(install_manifest(&object(vec![("name", text("project"))])), None);
    assert_eq!(install_manifest(&object(vec![("dependencies", text("{}"))])), None);
    assert_eq!(install_manifest(&object(vec![("dependencies", JsonValue::Array(vec![]))])), None);
    assert_eq!(
        install_manifest(&object(vec![(
            "dependencies",
            object(vec![("a", text("^1.0.0")), ("b", JsonValue::Number(String::from("2")))])
        )])),
        None
    );
    assert_eq!(install_manifest(&JsonValue::Array(vec![])), None);
    assert_eq!(install_manifest(&JsonValue::Null), None);
}
