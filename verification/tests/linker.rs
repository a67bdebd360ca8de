use fast_package_manager::downloader::get_store_package_path;
use fast_package_manager::linker::{
    after_link_step, get_dep_symlink_path, get_direct_symlink_path, get_local_store_package_path,
    hardlink, hardlink_package, symlink_dep, symlink_direct, EntryKind, Error, MirrorAction,
};
use fast_package_manager::npm::Version;
use fast_package_manager::outcome::IoOutcome;

#[test]
fn symlink_path_no_scope() {
    let path = get_dep_symlink_path(&String::from("react"), &Version::new(String::from("1.0.0")));

    assert_eq!(
        path.as_str().to_string(),
        format!("../../react@1.0.0/node_modules/react")
    )
}

#[test]
fn symlink_path_with_scope() {
    let path = get_dep_symlink_path(
        &String::from("@react/dom"),
        &Version::new(String::from("1.0.0")),
    );

    assert_eq!(
        path.as_str().to_string(),
        format!("../../@react+dom@1.0.0/node_modules/@react/dom")
    )
}

#[test]
fn local_store_path_no_scope() {
    let path = get_local_store_package_path(
        &String::from("react"),
        &Version::new(String::from("1.0.0")),
    );

    assert_eq!(
        path.as_str().to_string(),
        format!("node_modules/.fpm/react@1.0.0/node_modules/react")
    )
}

#[test]
fn local_store_path_with_scope() {
    let path = get_local_store_package_path(
        &String::from("@react/dom"),
        &Version::new(String::from("1.0.0")),
    );

    assert_eq!(
        path.as_str().to_string(),
        format!("node_modules/.fpm/@react+dom@1.0.0/node_modules/@react/dom")
    )
}

#[test]
fn store_path_keeps_the_raw_name() {
    assert_eq!(
        get_store_package_path(&String::from("react"), &Version::new(String::from("1.0.0"))),
        ".fpm/react@1.0.0"
    );
    assert_eq!(
        get_store_package_path(&String::from("@react/dom"), &Version::new(String::from("1.0.0"))),
        ".fpm/@react/dom@1.0.0"
    );
}

#[test]
fn direct_symlink_no_scope() {
    let link = symlink_direct(&String::from("react"), &Version::new(String::from("1.0.0")));
    assert_eq!(link.target, "./.fpm/react@1.0.0/node_modules/react");
    assert_eq!(link.link, "node_modules/react");
    assert_eq!(link.directory, Some(String::from("node_modules")));
}

#[test]
fn direct_symlink_with_scope() {
    let link = symlink_direct(&String::from("@react/dom"), &Version::new(String::from("1.0.0")));
    assert_eq!(link.target, "../.fpm/@react+dom@1.0.0/node_modules/@react/dom");
    assert_eq!(link.link, "node_modules/@react/dom");
    assert_eq!(link.directory, Some(String::from("node_modules/@react")));
    assert_eq!(
        get_direct_symlink_path(&String::from("@react/dom"), &Version::new(String::from("1.0.0"))),
        link.target
    );
}

#[test]
fn dep_symlink_lies_beside_the_package() {
    let link = symlink_dep(
        &String::from("is-odd"),
        &Version::new(String::from("0.1.2")),
        &String::from("is-even"),
        &Version::new(String::from("1.0.0")),
    );
    assert_eq!(link.target, "../../is-odd@0.1.2/node_modules/is-odd");
    assert_eq!(link.link, "node_modules/.fpm/is-even@1.0.0/node_modules/is-odd");
    assert_eq!(link.directory, None);
}

#[test]
fn dep_symlink_of_scoped_package_skips_the_scope() {
    let link = symlink_dep(
        &String::from("scheduler"),
        &Version::new(String::from("0.23.0")),
        &String::from("@react/dom"),
        &Version::new(String::from("1.0.0")),
    );
    assert_eq!(link.target, "../../scheduler@0.23.0/node_modules/scheduler");
    assert_eq!(link.link, "node_modules/.fpm/@react+dom@1.0.0/node_modules/scheduler");
}

#[test]
fn dep_symlink_resolves_to_the_virtual_path() {
    // The link's directory, two steps up, and then the rest of the body.
    let link = symlink_dep(
        &String::from("is-odd"),
        &Version::new(String::from("0.1.2")),
        &String::from("is-even"),
        &Version::new(String::from("1.0.0")),
    );
    let dir = "node_modules/.fpm/is-even@1.0.0/node_modules";
    assert_eq!(link.link, format!("{}/is-odd", dir));
    let rest = link.target.strip_prefix("../../").unwrap();
    let resolved = format!("node_modules/.fpm/{}", rest);
    assert_eq!(
        resolved,
        get_local_store_package_path(&String::from("is-odd"), &Version::new(String::from("0.1.2")))
    );
}

#[test]
fn hardlink_plan_of_a_package() {
    let plan = hardlink_package(&String::from("@react/dom"), &Version::new(String::from("1.0.0")));
    assert_eq!(plan.target, ".fpm/@react/dom@1.0.0");
    assert_eq!(plan.link, "node_modules/.fpm/@react+dom@1.0.0/node_modules/@react/dom");
    assert_eq!(
        plan.directory,
        Some(String::from("node_modules/.fpm/@react+dom@1.0.0/node_modules/@react"))
    );
}

#[test]
fn hardlink_descends_links_and_skips() {
    let source = String::from(".fpm/react@1.0.0");
    let dest = String::from("node_modules/.fpm/react@1.0.0/node_modules/react");
    assert_eq!(
        hardlink(&source, &dest, &String::from("lib"), EntryKind::Directory),
        MirrorAction::Descend {
            target: String::from(".fpm/react@1.0.0/lib"),
            link: String::from("node_modules/.fpm/react@1.0.0/node_modules/react/lib"),
        }
    );
    assert_eq!(
        hardlink(&source, &dest, &String::from("node_modules"), EntryKind::Directory),
        MirrorAction::Skip
    );
    assert_eq!(
        hardlink(&source, &dest, &String::from("index.js"), EntryKind::File),
        MirrorAction::Link {
            target: String::from(".fpm/react@1.0.0/index.js"),
            link: String::from("node_modules/.fpm/react@1.0.0/node_modules/react/index.js"),
            directory: dest.clone(),
        }
    );
    assert_eq!(
        hardlink(&source, &dest, &String::from("node_modules"), EntryKind::File),
        MirrorAction::Link {
            target: String::from(".fpm/react@1.0.0/node_modules"),
            link: String::from("node_modules/.fpm/react@1.0.0/node_modules/react/node_modules"),
            directory: dest.clone(),
        }
    );
    assert_eq!(
        hardlink(&source, &dest, &String::from("socket"), EntryKind::Other),
        MirrorAction::Skip
    );
}

#[test]
fn link_steps_absorb_what_exists() {
    assert_eq!(after_link_step(IoOutcome::Done), Ok(()));
    assert_eq!(after_link_step(IoOutcome::AlreadyExists), Ok(()));
    assert_eq!(
        after_link_step(IoOutcome::Failed),
        Err(Error::LinkIO)
    );
    assert_eq!(Error::LinkIO.to_string(), "LinkIO");
}
