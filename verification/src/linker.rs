//! The link graph: where each package is mirrored inside the project, and
//! which links point where.
//!
//! Every function here computes paths and decisions. The links themselves
//! are made by whoever calls them.

use crate::downloader::{get_store_package_path, store_package_path};
use crate::npm::Version;
use crate::outcome::IoOutcome;
use crate::paths::{
    encode_folder_name, encoded_folder_name, is_scoped, join, joined, lemma_encoded_folder_name,
    lemma_parent_dir_exists, lemma_parent_of_joined, parent, parent_dir, scoped, versioned,
    with_version,
};
use crate::text::{has_char, has_prefix, option_chars};
use crate::{DEPS_FOLDER, STORE_FOLDER};
use vstd::prelude::*;

verus! {

/// A file-system step of the linker failed, and not because its target
/// existed already.
#[derive(Debug, PartialEq, Eq, Clone, Copy, Structural)]
pub enum Error {
    LinkIO,
}

impl Error {
    pub fn to_string(&self) -> (res: String)
        ensures
            res@ == "LinkIO"@,
    {
        String::from_str("LinkIO")
    }
}

/// Whether linking a package goes on after a step with this outcome. A link
/// or a directory that exists already is as good as made; any other failure
/// ends the linking of the package.
pub fn after_link_step(outcome: IoOutcome) -> (res: Result<(), Error>)
    ensures
        res is Ok <==> outcome.is_absorbed(),
        res is Err ==> res == Err::<(), Error>(Error::LinkIO),
{
    if outcome.absorbed() {
        Ok(())
    } else {
        Err(Error::LinkIO)
    }
}

/// The folder of a package inside the project's store:
/// `<deps>/<store>/<encoded name>@<version>`.
pub open spec fn local_store_folder(name: Seq<char>, version: Seq<char>) -> Seq<char> {
    joined(joined(DEPS_FOLDER@, STORE_FOLDER@), versioned(encoded_folder_name(name), version))
}

/// The virtual path of a package, where the store's copy of it is mirrored:
/// `<deps>/<store>/<encoded name>@<version>/<deps>/<name>`.
pub open spec fn local_store_package_path(name: Seq<char>, version: Seq<char>) -> Seq<char> {
    joined(joined(local_store_folder(name, version), DEPS_FOLDER@), name)
}

/// The body of the link to a dependency, relative to where the link is:
/// `../../<encoded name>@<version>/<deps>/<name>`.
pub open spec fn dep_symlink_path(name: Seq<char>, version: Seq<char>) -> Seq<char> {
    joined(
        joined(joined(joined(".."@, ".."@), versioned(encoded_folder_name(name), version)), DEPS_FOLDER@),
        name,
    )
}

/// The body of the link to a root package at the top of the project:
/// `./<store>/<encoded name>@<version>/<deps>/<name>`, and with `..` for `.`
/// where the name is scoped, since the link then lies one folder deeper.
pub open spec fn direct_symlink_path(name: Seq<char>, version: Seq<char>) -> Seq<char> {
    joined(
        joined(
            joined(
                joined(
                    if scoped(name) {
                        ".."@
                    } else {
                        "."@
                    },
                    STORE_FOLDER@,
                ),
                versioned(encoded_folder_name(name), version),
            ),
            DEPS_FOLDER@,
        ),
        name,
    )
}

/// Where the link to a root package is made: `<deps>/<name>`.
pub open spec fn direct_link_path(name: Seq<char>) -> Seq<char> {
    joined(DEPS_FOLDER@, name)
}

/// The directory in which the dependencies of a package are linked: the
/// parent of the package's virtual path and, for a scoped package, the
/// parent of that.
pub open spec fn dep_link_dir(name: Seq<char>, version: Seq<char>) -> Seq<char> {
    let parent = parent_dir(local_store_package_path(name, version))->Some_0;
    if scoped(name) {
        parent_dir(parent)->Some_0
    } else {
        parent
    }
}

/// Where the link to the dependency `dep_name` of a package is made.
pub open spec fn dep_link_path(dep_name: Seq<char>, dest_name: Seq<char>, dest_version: Seq<char>) -> Seq<
    char,
> {
    joined(dep_link_dir(dest_name, dest_version), dep_name)
}

/// `<encoded name>@<version>`.
fn versioned_folder(name: &String, version: &Version) -> (res: String)
    ensures
        res@ == versioned(encoded_folder_name(name@), version@),
{
    let folder_name = encode_folder_name(name);
    with_version(folder_name.as_str(), version.as_str())
}

pub fn get_dep_symlink_path(name: &String, version: &Version) -> (res: String)
    ensures
        res@ == dep_symlink_path(name@, version@),
{
    let folder = versioned_folder(name, version);
    let up = join("..", "..");
    let to_folder = join(up.as_str(), folder.as_str());
    let to_deps = join(to_folder.as_str(), DEPS_FOLDER);
    join(to_deps.as_str(), name.as_str())
}

pub fn get_local_store_package_path(package_name: &String, version: &Version) -> (res: String)
    ensures
        res@ == local_store_package_path(package_name@, version@),
{
    let folder = versioned_folder(package_name, version);
    let store = join(DEPS_FOLDER, STORE_FOLDER);
    let to_folder = join(store.as_str(), folder.as_str());
    let to_deps = join(to_folder.as_str(), DEPS_FOLDER);
    join(to_deps.as_str(), package_name.as_str())
}

/// The body of the link to a root package at the top of the project.
pub fn get_direct_symlink_path(name: &String, version: &Version) -> (res: String)
    ensures
        res@ == direct_symlink_path(name@, version@),
{
    let folder = versioned_folder(name, version);
    let base = if is_scoped(name) {
        ".."
    } else {
        "."
    };
    let store = join(base, STORE_FOLDER);
    let to_folder = join(store.as_str(), folder.as_str());
    let to_deps = join(to_folder.as_str(), DEPS_FOLDER);
    join(to_deps.as_str(), name.as_str())
}

/// A symbolic link to make.
#[derive(Debug, PartialEq, Eq)]
pub struct Symlink {
    /// What the link points to: its body, relative to the link's directory.
    pub target: String,
    /// The path of the link itself.
    pub link: String,
    /// The directory to make, with those above it, before the link is made.
    pub directory: Option<String>,
}

pub struct SymlinkView {
    pub target: Seq<char>,
    pub link: Seq<char>,
    pub directory: Option<Seq<char>>,
}

impl View for Symlink {
    type V = SymlinkView;

    open spec fn view(&self) -> SymlinkView {
        SymlinkView {
            target: self.target@,
            link: self.link@,
            directory: option_chars(self.directory),
        }
    }
}

pub open spec fn symlink_views(values: Seq<Symlink>) -> Seq<SymlinkView> {
    Seq::new(values.len(), |i: int| values[i]@)
}

/// The link that makes the dependency `dep_name` at `dep_version` visible
/// to the package `dest_name` at `dest_version`.
pub open spec fn dep_symlink(
    dep_name: Seq<char>,
    dep_version: Seq<char>,
    dest_name: Seq<char>,
    dest_version: Seq<char>,
) -> SymlinkView {
    SymlinkView {
        target: dep_symlink_path(dep_name, dep_version),
        link: dep_link_path(dep_name, dest_name, dest_version),
        directory: None,
    }
}

/// The link that makes a root package visible at the top of the project.
pub open spec fn direct_symlink(name: Seq<char>, version: Seq<char>) -> SymlinkView {
    SymlinkView {
        target: direct_symlink_path(name, version),
        link: direct_link_path(name),
        directory: parent_dir(direct_link_path(name)),
    }
}

/// The virtual path of any package has a parent, and that parent has one.
pub proof fn lemma_virtual_path_has_parents(name: Seq<char>, version: Seq<char>)
    ensures
        parent_dir(local_store_package_path(name, version)) is Some,
        parent_dir(parent_dir(local_store_package_path(name, version))->Some_0) is Some,
{
    let folder = local_store_folder(name, version);
    let path = local_store_package_path(name, version);
    let heads = joined(folder, DEPS_FOLDER@);
    // The separator before the package's own name.
    assert(path[heads.len() as int] == '/');
    lemma_parent_dir_exists(path, heads.len() as int);
    let parent = parent_dir(path)->Some_0;
    // The separator before the inner dependency folder.
    assert(path[folder.len() as int] == '/');
    assert(folder.len() < heads.len() <= parent.len());
    assert(parent[folder.len() as int] == path.subrange(0, parent.len() as int)[folder.len() as int]);
    lemma_parent_dir_exists(parent, folder.len() as int);
}

/// The link for one dependency of one package.
pub fn symlink_dep(
    dep_name: &String,
    dep_version: &Version,
    dest_name: &String,
    dest_version: &Version,
) -> (res: Symlink)
    ensures
        res@ == dep_symlink(dep_name@, dep_version@, dest_name@, dest_version@),
{
    let target = get_dep_symlink_path(dep_name, dep_version);
    let link = get_local_store_package_path(dest_name, dest_version);
    proof {
        lemma_virtual_path_has_parents(dest_name@, dest_version@);
    }
    let mut folder = parent(link.as_str()).unwrap();
    if is_scoped(dest_name) {
        folder = parent(folder.as_str()).unwrap();
    }
    Symlink { target, link: join(folder.as_str(), dep_name.as_str()), directory: None }
}

/// The link for one root package at the top of the project.
pub fn symlink_direct(name: &String, version: &Version) -> (res: Symlink)
    ensures
        res@ == direct_symlink(name@, version@),
{
    let target = get_direct_symlink_path(name, version);
    let link = join(DEPS_FOLDER, name.as_str());
    let directory = parent(link.as_str());
    Symlink { target, link, directory }
}

/// The mirroring of one package: from its directory in the store to its
/// virtual path.
#[derive(Debug, PartialEq, Eq)]
pub struct Hardlink {
    /// The directory of the package in the store.
    pub target: String,
    /// The virtual path of the package.
    pub link: String,
    /// The directory to make, with those above it, before anything is
    /// linked.
    pub directory: Option<String>,
}

pub struct HardlinkView {
    pub target: Seq<char>,
    pub link: Seq<char>,
    pub directory: Option<Seq<char>>,
}

impl View for Hardlink {
    type V = HardlinkView;

    open spec fn view(&self) -> HardlinkView {
        HardlinkView {
            target: self.target@,
            link: self.link@,
            directory: option_chars(self.directory),
        }
    }
}

pub open spec fn hardlink_views(values: Seq<Hardlink>) -> Seq<HardlinkView> {
    Seq::new(values.len(), |i: int| values[i]@)
}

/// The mirroring of the package `name` at `version`.
pub open spec fn package_hardlink(name: Seq<char>, version: Seq<char>) -> HardlinkView {
    HardlinkView {
        target: store_package_path(name, version),
        link: local_store_package_path(name, version),
        directory: parent_dir(local_store_package_path(name, version)),
    }
}

/// The mirroring of one package.
pub fn hardlink_package(package_name: &String, version: &Version) -> (res: Hardlink)
    ensures
        res@ == package_hardlink(package_name@, version@),
{
    let target = get_store_package_path(package_name, version);
    let link = get_local_store_package_path(package_name, version);
    let directory = parent(link.as_str());
    Hardlink { target, link, directory }
}

/// What an entry of a directory is.
#[derive(Debug, PartialEq, Eq, Clone, Copy, Structural)]
pub enum EntryKind {
    Directory,
    File,
    Other,
}

/// What mirroring does with one entry of a directory.
#[derive(Debug, PartialEq, Eq)]
pub enum MirrorAction {
    /// Make the directory `link` and mirror `target` into it, entry by
    /// entry.
    Descend { target: String, link: String },
    /// Make the directory `directory`, then make `link` a hard link to the
    /// file `target`.
    Link { target: String, link: String, directory: String },
    /// Leave the entry out.
    Skip,
}

pub enum MirrorActionView {
    Descend { target: Seq<char>, link: Seq<char> },
    Link { target: Seq<char>, link: Seq<char>, directory: Seq<char> },
    Skip,
}

impl View for MirrorAction {
    type V = MirrorActionView;

    open spec fn view(&self) -> MirrorActionView {
        match self {
            MirrorAction::Descend { target, link } => MirrorActionView::Descend {
                target: target@,
                link: link@,
            },
            MirrorAction::Link { target, link, directory } => MirrorActionView::Link {
                target: target@,
                link: link@,
                directory: directory@,
            },
            MirrorAction::Skip => MirrorActionView::Skip,
        }
    }
}

/// What mirroring the directory `source` into `dest` does with the entry
/// `name` of `source`: a directory is mirrored in turn, unless it is a
/// dependency folder; a file is linked; anything else is left out.
pub open spec fn mirror_action(
    source: Seq<char>,
    dest: Seq<char>,
    name: Seq<char>,
    kind: EntryKind,
) -> MirrorActionView {
    match kind {
        EntryKind::Directory => if name == DEPS_FOLDER@ {
            MirrorActionView::Skip
        } else {
            MirrorActionView::Descend { target: joined(source, name), link: joined(dest, name) }
        },
        EntryKind::File => MirrorActionView::Link {
            target: joined(source, name),
            link: joined(dest, name),
            directory: dest,
        },
        EntryKind::Other => MirrorActionView::Skip,
    }
}

/// Decides what mirroring the directory `source` into `dest` does with one
/// entry of `source`.
pub fn hardlink(source: &String, dest: &String, name: &String, kind: EntryKind) -> (res:
    MirrorAction)
    ensures
        res@ == mirror_action(source@, dest@, name@, kind),
{
    match kind {
        EntryKind::Directory => {
            let deps = String::from_str(DEPS_FOLDER);
            if *name == deps {
                MirrorAction::Skip
            } else {
                MirrorAction::Descend {
                    target: join(source.as_str(), name.as_str()),
                    link: join(dest.as_str(), name.as_str()),
                }
            }
        },
        EntryKind::File => MirrorAction::Link {
            target: join(source.as_str(), name.as_str()),
            link: join(dest.as_str(), name.as_str()),
            directory: dest.clone(),
        },
        EntryKind::Other => MirrorAction::Skip,
    }
}

/// Where the body of a relative link leads, from the directory that holds
/// the link: each leading `../` goes up one directory, each leading `./`
/// stays, and what is left is looked up below the directory reached. A body
/// that goes up further than the directory has parents leads nowhere.
pub open spec fn resolved_from(dir: Seq<char>, body: Seq<char>) -> Option<Seq<char>>
    decreases body.len(),
{
    if has_prefix(body, seq!['.', '.', '/']) {
        match parent_dir(dir) {
            Some(up) => resolved_from(up, body.skip(3)),
            None => None,
        }
    } else if has_prefix(body, seq!['.', '/']) {
        resolved_from(dir, body.skip(2))
    } else {
        Some(joined(dir, body))
    }
}

/// A name of the usual form: a scoped name holds one `/`, between scope and
/// base name, and any other name holds none.
pub open spec fn conventional(name: Seq<char>) -> bool {
    if scoped(name) {
        exists|at: int|
            0 <= at < name.len() && name[at] == '/' && forall|j: int|
                0 <= j < name.len() && j != at ==> name[j] != '/'
    } else {
        !has_char(name, '/')
    }
}

/// Neither of the two folder names holds a separator.
pub proof fn lemma_folder_names_are_plain()
    ensures
        !has_char(DEPS_FOLDER@, '/'),
        !has_char(STORE_FOLDER@, '/'),
{
    reveal_strlit("node_modules");
    reveal_strlit(".fpm");
}

/// A folder `<name>@<version>` holds no separator where neither part does.
pub proof fn lemma_versioned_is_plain(name: Seq<char>, version: Seq<char>)
    requires
        !has_char(name, '/'),
        !has_char(version, '/'),
    ensures
        !has_char(versioned(name, version), '/'),
{
    let folder = versioned(name, version);
    assert forall|i: int| 0 <= i < folder.len() implies folder[i] != '/' by {
        if i < name.len() {
            assert(folder[i] == name[i]);
        } else if i > name.len() {
            assert(folder[i] == version[i - name.len() - 1]);
        }
    }
}

/// The dependencies of a package with a usual name and a version without a
/// separator are linked in the dependency folder inside the package's own
/// folder.
pub proof fn lemma_dep_link_dir(name: Seq<char>, version: Seq<char>)
    requires
        conventional(name),
        !has_char(version, '/'),
    ensures
        dep_link_dir(name, version) == joined(local_store_folder(name, version), DEPS_FOLDER@),
{
    let inner = joined(local_store_folder(name, version), DEPS_FOLDER@);
    let path = local_store_package_path(name, version);
    if scoped(name) {
        let at = choose|at: int|
            0 <= at < name.len() && name[at] == '/' && forall|j: int|
                0 <= j < name.len() && j != at ==> name[j] != '/';
        let scope = name.subrange(0, at);
        let base = name.subrange(at + 1, name.len() as int);
        assert(path =~= joined(joined(inner, scope), base));
        lemma_parent_of_joined(joined(inner, scope), base);
        lemma_parent_of_joined(inner, scope);
    } else {
        lemma_parent_of_joined(inner, name);
    }
}

/// The link to a dependency leads to the dependency. Take a dependency whose
/// name is unscoped and holds no separator, and a package with a usual name
/// and a version without a separator. The link that makes the dependency
/// visible to the package lies in a directory, and from that directory the
/// body of the link leads to the virtual path of the dependency.
pub proof fn lemma_dep_symlink_resolves(
    dep_name: Seq<char>,
    dep_version: Seq<char>,
    dest_name: Seq<char>,
    dest_version: Seq<char>,
)
    requires
        !scoped(dep_name),
        !has_char(dep_name, '/'),
        conventional(dest_name),
        !has_char(dest_version, '/'),
    ensures
        parent_dir(dep_link_path(dep_name, dest_name, dest_version)) is Some,
        resolved_from(
            parent_dir(dep_link_path(dep_name, dest_name, dest_version))->Some_0,
            dep_symlink_path(dep_name, dep_version),
        ) == Some(local_store_package_path(dep_name, dep_version)),
{
    lemma_folder_names_are_plain();
    let store = joined(DEPS_FOLDER@, STORE_FOLDER@);
    let folder = versioned(encoded_folder_name(dest_name), dest_version);
    let inner = joined(joined(store, folder), DEPS_FOLDER@);
    // The link lies in the package's inner dependency folder.
    lemma_dep_link_dir(dest_name, dest_version);
    lemma_parent_of_joined(inner, dep_name);
    // Two steps up from there is the store inside the project.
    lemma_parent_of_joined(joined(store, folder), DEPS_FOLDER@);
    if scoped(dest_name) {
        lemma_encoded_folder_name(dest_name);
    }
    lemma_versioned_is_plain(encoded_folder_name(dest_name), dest_version);
    lemma_parent_of_joined(store, folder);
    // The body is two steps up and then a path that goes up no further.
    let body = dep_symlink_path(dep_name, dep_version);
    let up = seq!['.', '.', '/'];
    let rest = joined(joined(versioned(dep_name, dep_version), DEPS_FOLDER@), dep_name);
    reveal_strlit("..");
    assert(body =~= up + (up + rest));
    assert(body.skip(3) =~= up + rest);
    assert((up + rest).skip(3) =~= rest);
    assert(!has_prefix(rest, up)) by {
        if has_prefix(rest, up) {
            assert(rest.subrange(0, 3)[2] == '/');
            assert(rest.subrange(0, 3)[1] == '.');
            assert(rest.subrange(0, 3)[0] == '.');
            if dep_name.len() >= 3 {
                assert(dep_name[2] == rest[2]);
            }
        }
    }
    assert(!has_prefix(rest, seq!['.', '/'])) by {
        if has_prefix(rest, seq!['.', '/']) {
            assert(rest.subrange(0, 2)[1] == '/');
            assert(rest.subrange(0, 2)[0] == '.');
            if dep_name.len() >= 2 {
                assert(dep_name[1] == rest[1]);
            }
        }
    }
    assert(has_prefix(body, up)) by {
        assert(body.subrange(0, 3) =~= up);
    }
    assert(has_prefix(up + rest, up)) by {
        assert((up + rest).subrange(0, 3) =~= up);
    }
    assert(resolved_from(store, rest) == Some(joined(store, rest)));
    assert(resolved_from(joined(store, folder), up + rest) == resolved_from(store, rest));
    assert(resolved_from(inner, body) == resolved_from(joined(store, folder), up + rest));
    assert(joined(store, rest) =~= local_store_package_path(dep_name, dep_version));
}

/// The link at the top of the project leads to the root package. For a
/// package with a usual name, the link lies in a directory, and from that
/// directory the body of the link leads to the virtual path of the package.
pub proof fn lemma_direct_symlink_resolves(name: Seq<char>, version: Seq<char>)
    requires
        conventional(name),
    ensures
        direct_symlink(name, version).directory is Some,
        resolved_from(
            direct_symlink(name, version).directory->Some_0,
            direct_symlink(name, version).target,
        ) == Some(local_store_package_path(name, version)),
{
    lemma_folder_names_are_plain();
    reveal_strlit(".fpm");
    reveal_strlit("..");
    reveal_strlit(".");
    let up = seq!['.', '.', '/'];
    let stay = seq!['.', '/'];
    let body = direct_symlink_path(name, version);
    let rest = joined(
        joined(joined(STORE_FOLDER@, versioned(encoded_folder_name(name), version)), DEPS_FOLDER@),
        name,
    );
    assert(!has_prefix(rest, up)) by {
        if has_prefix(rest, up) {
            assert(rest.subrange(0, 3)[1] == '.');
            assert(rest[1] == 'f');
        }
    }
    assert(!has_prefix(rest, stay)) by {
        if has_prefix(rest, stay) {
            assert(rest.subrange(0, 2)[1] == '/');
            assert(rest[1] == 'f');
        }
    }
    assert(joined(DEPS_FOLDER@, rest) =~= local_store_package_path(name, version));
    if scoped(name) {
        let at = choose|at: int|
            0 <= at < name.len() && name[at] == '/' && forall|j: int|
                0 <= j < name.len() && j != at ==> name[j] != '/';
        let scope = name.subrange(0, at);
        let base = name.subrange(at + 1, name.len() as int);
        assert(direct_link_path(name) =~= joined(joined(DEPS_FOLDER@, scope), base));
        lemma_parent_of_joined(joined(DEPS_FOLDER@, scope), base);
        lemma_parent_of_joined(DEPS_FOLDER@, scope);
        assert(body =~= up + rest);
        assert(has_prefix(body, up)) by {
            assert(body.subrange(0, 3) =~= up);
        }
        assert(body.skip(3) =~= rest);
        assert(resolved_from(DEPS_FOLDER@, rest) == Some(joined(DEPS_FOLDER@, rest)));
    } else {
        lemma_parent_of_joined(DEPS_FOLDER@, name);
        assert(body =~= stay + rest);
        assert(!has_prefix(body, up)) by {
            if has_prefix(body, up) {
                assert(body.subrange(0, 3)[1] == '.');
                assert(body[1] == '/');
            }
        }
        assert(has_prefix(body, stay)) by {
            assert(body.subrange(0, 2) =~= stay);
        }
        assert(body.skip(2) =~= rest);
        assert(resolved_from(DEPS_FOLDER@, rest) == Some(joined(DEPS_FOLDER@, rest)));
    }
}

} // verus!
