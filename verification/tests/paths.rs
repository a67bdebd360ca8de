use fast_package_manager::paths::{encode_folder_name, is_scoped, join, parent, with_version};
use fast_package_manager::text::{chars_of, starts_with};

#[test]
fn scoped_names_are_encoded() {
    assert_eq!(encode_folder_name(&String::from("@react/dom")), "@react+dom");
    assert_eq!(encode_folder_name(&String::from("@a/b/c")), "@a+b+c");
    assert_eq!(encode_folder_name(&String::from("@/")), "@+");
    assert_eq!(encode_folder_name(&String::from("@scope")), "@scope");
    assert_eq!(encode_folder_name(&String::from("@s/ü/é")), "@s+ü+é");
    let encoded = encode_folder_name(&String::from("@floating-ui/react-dom"));
    assert!(!encoded.contains('/'));
    assert_eq!(encoded.chars().count(), "@floating-ui/react-dom".chars().count());
}

#[test]
fn unscoped_names_stay_as_they_are() {
    assert_eq!(encode_folder_name(&String::from("react")), "react");
    assert_eq!(encode_folder_name(&String::from("a/b")), "a/b");
    assert_eq!(encode_folder_name(&String::from("")), "");
    assert_eq!(encode_folder_name(&String::from("a@b")), "a@b");
}

#[test]
fn only_a_leading_at_sign_makes_a_scope() {
    assert!(is_scoped(&String::from("@react/dom")));
    assert!(is_scoped(&String::from("@")));
    assert!(!is_scoped(&String::from("react")));
    assert!(!is_scoped(&String::from("a@b")));
    assert!(!is_scoped(&String::from("")));
}

#[test]
fn paths_are_joined_and_parted_at_separators() {
    assert_eq!(join("a", "b"), "a/b");
    assert_eq!(join("", "b"), "/b");
    assert_eq!(join("a/b", "c/d"), "a/b/c/d");
    assert_eq!(with_version("react", "1.0.0"), "react@1.0.0");
    assert_eq!(parent("a/b/c"), Some(String::from("a/b")));
    assert_eq!(parent("a/b/"), Some(String::from("a/b")));
    assert_eq!(parent("/a"), Some(String::from("")));
    assert_eq!(parent("a"), None);
    assert_eq!(parent(""), None);
    assert_eq!(parent("é/ü"), Some(String::from("é")));
}

#[test]
fn text_helpers_work_on_characters() {
    assert_eq!(chars_of("aé/"), vec!['a', 'é', '/']);
    assert!(starts_with("package/a", "package/"));
    assert!(starts_with("a", ""));
    assert!(!starts_with("pack", "package/"));
    assert!(!starts_with("Package/a", "package/"));
}
