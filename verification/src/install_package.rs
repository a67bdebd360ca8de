//! The installation of a resolved set, as a plan: what to download, what to
//! mirror, which links to make and what to record in the manifest. Carrying
//! the plan out is left to the caller, in the order of the plan's fields.

use crate::downloader::{
    Download, DownloadView, download_views, downloads_for, plan_downloads, root_packages,
    top_level_packages,
};
use crate::linker::{
    Hardlink, HardlinkView, Symlink, SymlinkView, dep_symlink, direct_symlink, hardlink_package,
    hardlink_views, package_hardlink, symlink_dep, symlink_direct, symlink_views,
};
use crate::npm::{
    ResolvedDependencies, ResolvedDependenciesView, VersionRangeSpecifier, ranges_by_name,
    resolved_views,
};
use crate::resolve_version_range::LATEST;
use vstd::prelude::*;

verus! {

/// What a run of the installer is asked to install.
#[derive(Debug, PartialEq, Eq)]
pub enum InstallMode {
    /// What the manifest lists.
    FromManifest,
    /// The packages named on the command line, each at the tag `latest`.
    Packages(Vec<(String, VersionRangeSpecifier)>),
}

impl InstallMode {
    /// Whether the versions chosen are recorded in the manifest afterwards:
    /// they are for packages named on the command line, and not for what
    /// the manifest lists already.
    pub fn updates_manifest(&self) -> (res: bool)
        ensures
            res == (*self is Packages),
    {
        match self {
            InstallMode::FromManifest => false,
            InstallMode::Packages(_) => true,
        }
    }
}

/// Each of `names` with the tag `latest` as its range.
pub open spec fn at_latest(names: Seq<String>) -> Seq<(Seq<char>, Seq<char>)> {
    Seq::new(names.len(), |i: int| (names[i]@, LATEST@))
}

/// What the installer is asked to install, given the package names on its
/// command line: without any, what the manifest lists; otherwise each of
/// them, at the tag `latest`.
pub fn install_mode(names: &Vec<String>) -> (res: InstallMode)
    ensures
        names@.len() == 0 ==> res is FromManifest,
        names@.len() > 0 ==> res is Packages && ranges_by_name(res->Packages_0@) == at_latest(
            names@,
        ),
{
    if names.len() == 0 {
        return InstallMode::FromManifest;
    }
    let mut packages: Vec<(String, VersionRangeSpecifier)> = Vec::new();
    let mut i: usize = 0;
    while i < names.len()
        invariant
            i <= names.len(),
            packages@.len() == i,
            forall|k: int|
                0 <= k < i ==> (#[trigger] packages@[k]).0@ == names@[k]@ && packages@[k].1@
                    == LATEST@,
        decreases names.len() - i,
    {
        packages.push((names[i].clone(), VersionRangeSpecifier::new(String::from_str(LATEST))));
        i += 1;
    }
    assert(ranges_by_name(packages@) =~= at_latest(names@));
    InstallMode::Packages(packages)
}

/// The mirroring of each package of a resolved set.
pub open spec fn hardlinks_for(packages: Seq<ResolvedDependenciesView>) -> Seq<HardlinkView> {
    Seq::new(
        packages.len(),
        |i: int| package_hardlink(packages[i].version.name, packages[i].version.version),
    )
}

/// The links that make the dependencies of one package visible to it.
pub open spec fn package_symlinks(package: ResolvedDependenciesView) -> Seq<SymlinkView> {
    Seq::new(
        package.dependencies.len(),
        |j: int|
            dep_symlink(
                package.dependencies[j].name,
                package.dependencies[j].version,
                package.version.name,
                package.version.version,
            ),
    )
}

/// The dependency links of the first `n` packages, package after package.
pub open spec fn dep_symlinks_upto(packages: Seq<ResolvedDependenciesView>, n: int) -> Seq<
    SymlinkView,
>
    decreases n,
{
    if n <= 0 {
        Seq::empty()
    } else {
        dep_symlinks_upto(packages, n - 1) + package_symlinks(packages[n - 1])
    }
}

/// The dependency links of a resolved set.
pub open spec fn dep_symlinks_for(packages: Seq<ResolvedDependenciesView>) -> Seq<SymlinkView> {
    dep_symlinks_upto(packages, packages.len() as int)
}

/// The links at the top of the project: one for each root of the set.
pub open spec fn root_symlinks_for(packages: Seq<ResolvedDependenciesView>) -> Seq<SymlinkView> {
    Seq::new(
        root_packages(packages).len(),
        |i: int|
            direct_symlink(
                root_packages(packages)[i].version.name,
                root_packages(packages)[i].version.version,
            ),
    )
}

/// What the manifest records for a set: each root, with the range
/// `^<version>` of the version chosen for it.
pub open spec fn manifest_additions_for(packages: Seq<ResolvedDependenciesView>) -> Seq<
    (Seq<char>, Seq<char>),
> {
    Seq::new(
        root_packages(packages).len(),
        |i: int|
            (
                root_packages(packages)[i].version.name,
                seq!['^'] + root_packages(packages)[i].version.version,
            ),
    )
}

/// The steps of an installation, in the order in which they are taken: all
/// downloads, then all mirroring, then the dependency links, then the links
/// at the top of the project.
#[derive(Debug, PartialEq, Eq)]
pub struct InstallPlan {
    pub downloads: Vec<Download>,
    pub hardlinks: Vec<Hardlink>,
    pub dep_symlinks: Vec<Symlink>,
    pub root_symlinks: Vec<Symlink>,
    /// What to record in the manifest where the packages were named on the
    /// command line.
    pub manifest_additions: Vec<(String, VersionRangeSpecifier)>,
}

pub struct InstallPlanView {
    pub downloads: Seq<DownloadView>,
    pub hardlinks: Seq<HardlinkView>,
    pub dep_symlinks: Seq<SymlinkView>,
    pub root_symlinks: Seq<SymlinkView>,
    pub manifest_additions: Seq<(Seq<char>, Seq<char>)>,
}

impl View for InstallPlan {
    type V = InstallPlanView;

    open spec fn view(&self) -> InstallPlanView {
        InstallPlanView {
            downloads: download_views(self.downloads@),
            hardlinks: hardlink_views(self.hardlinks@),
            dep_symlinks: symlink_views(self.dep_symlinks@),
            root_symlinks: symlink_views(self.root_symlinks@),
            manifest_additions: ranges_by_name(self.manifest_additions@),
        }
    }
}

/// The plan for a resolved set.
pub open spec fn plan_for(packages: Seq<ResolvedDependenciesView>) -> InstallPlanView {
    InstallPlanView {
        downloads: downloads_for(packages),
        hardlinks: hardlinks_for(packages),
        dep_symlinks: dep_symlinks_for(packages),
        root_symlinks: root_symlinks_for(packages),
        manifest_additions: manifest_additions_for(packages),
    }
}

fn plan_hardlinks(packages: &Vec<ResolvedDependencies>) -> (res: Vec<Hardlink>)
    ensures
        hardlink_views(res@) == hardlinks_for(resolved_views(packages@)),
{
    let mut out: Vec<Hardlink> = Vec::new();
    let mut i: usize = 0;
    while i < packages.len()
        invariant
            i <= packages.len(),
            out@.len() == i,
            forall|k: int|
                0 <= k < i ==> (#[trigger] out@[k])@ == package_hardlink(
                    packages@[k].version.name@,
                    packages@[k].version.version@,
                ),
        decreases packages.len() - i,
    {
        let version = &packages[i].version;
        out.push(hardlink_package(&version.name, &version.version));
        i += 1;
    }
    assert(hardlink_views(out@) =~= hardlinks_for(resolved_views(packages@)));
    out
}

fn plan_dep_symlinks(packages: &Vec<ResolvedDependencies>) -> (res: Vec<Symlink>)
    ensures
        symlink_views(res@) == dep_symlinks_for(resolved_views(packages@)),
{
    let ghost views = resolved_views(packages@);
    let mut out: Vec<Symlink> = Vec::new();
    let mut i: usize = 0;
    while i < packages.len()
        invariant
            i <= packages.len(),
            views == resolved_views(packages@),
            symlink_views(out@) == dep_symlinks_upto(views, i as int),
        decreases packages.len() - i,
    {
        let package = &packages[i];
        let ghost before = symlink_views(out@);
        let ghost links = package_symlinks(views[i as int]);
        let mut j: usize = 0;
        while j < package.dependencies.len()
            invariant
                j <= package.dependencies.len(),
                i < packages.len(),
                views == resolved_views(packages@),
                *package == packages@[i as int],
                links == package_symlinks(views[i as int]),
                out@.len() == before.len() + j,
                forall|k: int| 0 <= k < before.len() ==> (#[trigger] out@[k])@ == before[k],
                forall|k: int| 0 <= k < j ==> (#[trigger] out@[before.len() + k])@ == links[k],
            decreases package.dependencies.len() - j,
        {
            let dep = &package.dependencies[j];
            out.push(
                symlink_dep(
                    &dep.name,
                    &dep.version,
                    &package.version.name,
                    &package.version.version,
                ),
            );
            assert(out@[before.len() + j]@ == links[j as int]);
            j += 1;
        }
        assert(links.len() == package.dependencies@.len());
        assert forall|k: int| 0 <= k < out@.len() implies symlink_views(out@)[k] == (before
            + links)[k] by {
            if k >= before.len() {
                assert(out@[before.len() + (k - before.len())]@ == links[k - before.len()]);
            }
        }
        assert(symlink_views(out@) =~= before + links);
        i += 1;
    }
    out
}

/// The plan of an installation: what is done for a resolved set, step by
/// step. Each archive is downloaded once, every package is mirrored, every
/// dependency of every package gets its link, and every root gets a link at
/// the top of the project and a line for the manifest.
pub fn install_package(resolved: &Vec<ResolvedDependencies>) -> (res: InstallPlan)
    ensures
        res@ == plan_for(resolved_views(resolved@)),
{
    let ghost views = resolved_views(resolved@);
    let downloads = plan_downloads(resolved);
    let hardlinks = plan_hardlinks(resolved);
    let dep_symlinks = plan_dep_symlinks(resolved);
    let roots = top_level_packages(resolved);
    let mut root_symlinks: Vec<Symlink> = Vec::new();
    let mut manifest_additions: Vec<(String, VersionRangeSpecifier)> = Vec::new();
    let mut i: usize = 0;
    while i < roots.len()
        invariant
            i <= roots.len(),
            views == resolved_views(resolved@),
            resolved_views(roots@) == root_packages(views),
            root_symlinks@.len() == i,
            manifest_additions@.len() == i,
            forall|k: int| 0 <= k < i ==> (#[trigger] root_symlinks@[k])@ == root_symlinks_for(views)[k],
            forall|k: int|
                0 <= k < i ==> (#[trigger] manifest_additions@[k]).0@ == manifest_additions_for(
                    views,
                )[k].0 && manifest_additions@[k].1@ == manifest_additions_for(views)[k].1,
        decreases roots.len() - i,
    {
        let version = &roots[i].version;
        assert(version@ == root_packages(views)[i as int].version) by {
            assert(resolved_views(roots@)[i as int] == roots@[i as int]@);
        }
        root_symlinks.push(symlink_direct(&version.name, &version.version));
        let mut range = String::from_str("^");
        range.append(version.version.as_str());
        proof {
            reveal_strlit("^");
            assert(range@ =~= seq!['^'] + version@.version);
        }
        manifest_additions.push((version.name.clone(), VersionRangeSpecifier::new(range)));
        i += 1;
    }
    assert(roots@.len() == root_packages(views).len()) by {
        assert(resolved_views(roots@).len() == roots@.len());
    }
    assert(symlink_views(root_symlinks@) =~= root_symlinks_for(views));
    assert(ranges_by_name(manifest_additions@) =~= manifest_additions_for(views));
    InstallPlan { downloads, hardlinks, dep_symlinks, root_symlinks, manifest_additions }
}

} // verus!
