//! Resolution of the dependency graph, as a state machine.
//!
//! The state is the table of versions chosen so far. An event is the end of
//! one registry fetch; the answer to it is the list of fetches to start
//! next. Whoever runs the machine performs the fetches, in any order and
//! with any concurrency, and hands their outcomes back one at a time.

use crate::lookup::{
    first_index, lemma_first_index, lemma_first_index_absent, lemma_first_index_found,
};
use crate::npm::{
    NpmPackageVersion, NpmPackageVersionView, NpmResolvedPackage, NpmResolvedPackageView,
    ResolvedDependencies, ResolvedDependenciesView,
    ResolvedDependencyTree, ResolvedDependencyTreeView, VersionRangeSpecifier, lemma_tree_view,
    ranges_by_name, resolved_views, tree_views, version_views,
};
use crate::resolve_version_range::{resolve_version_from_version_range, selected_index};
use vstd::prelude::*;

verus! {

#[derive(Debug, PartialEq, Eq, Clone, Copy, Structural)]
pub enum Error {
    DependencyResolveError,
    VersionDoesNotExist,
}

impl Error {
    pub fn to_string(&self) -> (res: String)
        ensures
            *self == Error::DependencyResolveError ==> res@ == "DependencyResolveError"@,
            *self == Error::VersionDoesNotExist ==> res@ == "VersionDoesNotExist"@,
    {
        match self {
            Error::DependencyResolveError => String::from_str("DependencyResolveError"),
            Error::VersionDoesNotExist => String::from_str("VersionDoesNotExist"),
        }
    }
}

/// A registry fetch that the resolver asks for: the metadata of `name`, and
/// in it the version that `range` selects.
#[derive(Debug, PartialEq, Eq)]
pub struct FetchRequest {
    pub name: String,
    pub range: VersionRangeSpecifier,
    pub is_root: bool,
}

pub struct FetchRequestView {
    pub name: Seq<char>,
    pub range: Seq<char>,
    pub is_root: bool,
}

impl View for FetchRequest {
    type V = FetchRequestView;

    open spec fn view(&self) -> FetchRequestView {
        FetchRequestView { name: self.name@, range: self.range@, is_root: self.is_root }
    }
}

pub open spec fn request_views(values: Seq<FetchRequest>) -> Seq<FetchRequestView> {
    Seq::new(values.len(), |i: int| values[i]@)
}

/// One line of the table: the version chosen for `range` of the package
/// `name`, and whether the caller asked for it.
#[derive(Debug, PartialEq, Eq)]
pub struct ResolvedEntry {
    pub name: String,
    pub range: VersionRangeSpecifier,
    pub version: NpmPackageVersion,
    pub is_root: bool,
}

pub struct ResolvedEntryView {
    pub name: Seq<char>,
    pub range: Seq<char>,
    pub version: NpmPackageVersionView,
    pub is_root: bool,
}

impl View for ResolvedEntry {
    type V = ResolvedEntryView;

    open spec fn view(&self) -> ResolvedEntryView {
        ResolvedEntryView {
            name: self.name@,
            range: self.range@,
            version: self.version@,
            is_root: self.is_root,
        }
    }
}

/// The keys of a table, line by line: package name and range.
pub open spec fn entry_keys(table: Seq<ResolvedEntryView>) -> Seq<(Seq<char>, Seq<char>)> {
    Seq::new(table.len(), |i: int| (table[i].name, table[i].range))
}

/// The line of the table for `range` of `name`, if there is one.
pub open spec fn entry_index(table: Seq<ResolvedEntryView>, name: Seq<char>, range: Seq<char>) -> Option<
    int,
> {
    first_index(entry_keys(table), (name, range))
}

/// The table holds a version of the package `name`, under whatever range.
pub open spec fn has_name(table: Seq<ResolvedEntryView>, name: Seq<char>) -> bool {
    exists|i: int| 0 <= i < table.len() && (#[trigger] table[i]).name == name
}

/// No two lines of the table have the same name and range.
pub open spec fn keys_distinct(table: Seq<ResolvedEntryView>) -> bool {
    forall|i: int, j: int|
        0 <= i < j < table.len() ==> (#[trigger] table[i]).name != (#[trigger] table[j]).name
            || table[i].range != table[j].range
}

/// The table after `entry` was recorded: a key that has a line keeps it, a
/// new key gets a line at the end.
pub open spec fn recorded(table: Seq<ResolvedEntryView>, entry: ResolvedEntryView) -> Seq<
    ResolvedEntryView,
> {
    if entry_index(table, entry.name, entry.range) is Some {
        table
    } else {
        table.push(entry)
    }
}

/// A dependency is fetched when the table knows its package, but not under
/// this range.
pub open spec fn wanted(table: Seq<ResolvedEntryView>, dependency: (Seq<char>, Seq<char>)) -> bool {
    has_name(table, dependency.0) && entry_index(table, dependency.0, dependency.1) is None
}

/// The fetch of a dependency. It is never a root.
pub open spec fn dependency_request(dependency: (Seq<char>, Seq<char>)) -> FetchRequestView {
    FetchRequestView { name: dependency.0, range: dependency.1, is_root: false }
}

/// The fetches that the first `n` of `dependencies` give rise to.
pub open spec fn requests_upto(
    table: Seq<ResolvedEntryView>,
    dependencies: Seq<(Seq<char>, Seq<char>)>,
    n: int,
) -> Seq<FetchRequestView>
    decreases n,
{
    if n <= 0 {
        Seq::empty()
    } else if wanted(table, dependencies[n - 1]) {
        requests_upto(table, dependencies, n - 1).push(dependency_request(dependencies[n - 1]))
    } else {
        requests_upto(table, dependencies, n - 1)
    }
}

/// The fetches to start when a version with these dependencies was chosen.
pub open spec fn requests_for(
    table: Seq<ResolvedEntryView>,
    dependencies: Seq<(Seq<char>, Seq<char>)>,
) -> Seq<FetchRequestView> {
    requests_upto(table, dependencies, dependencies.len() as int)
}

/// An earlier pair of the list has the name of pair `i`.
pub open spec fn name_seen_before(deps: Seq<(Seq<char>, Seq<char>)>, i: int) -> bool {
    exists|j: int| 0 <= j < i && (#[trigger] deps[j]).0 == deps[i].0
}

/// The fetch of a package that the caller asked for.
pub open spec fn root_request(dependency: (Seq<char>, Seq<char>)) -> FetchRequestView {
    FetchRequestView { name: dependency.0, range: dependency.1, is_root: true }
}

/// The first fetches for the first `n` requested packages: one for each
/// name, with the range that the name has first.
pub open spec fn seeds_upto(deps: Seq<(Seq<char>, Seq<char>)>, n: int) -> Seq<FetchRequestView>
    decreases n,
{
    if n <= 0 {
        Seq::empty()
    } else if name_seen_before(deps, n - 1) {
        seeds_upto(deps, n - 1)
    } else {
        seeds_upto(deps, n - 1).push(root_request(deps[n - 1]))
    }
}

/// The fetches that resolution starts with.
pub open spec fn seeds_for(deps: Seq<(Seq<char>, Seq<char>)>) -> Seq<FetchRequestView> {
    seeds_upto(deps, deps.len() as int)
}

/// The fetches that resolution starts with: one for each requested package,
/// marked as a root. A name that occurs again is fetched once, with its
/// first range.
pub fn seed_requests(deps: &Vec<(String, VersionRangeSpecifier)>) -> (res: Vec<FetchRequest>)
    ensures
        request_views(res@) == seeds_for(ranges_by_name(deps@)),
{
    let ghost pairs = ranges_by_name(deps@);
    let mut out: Vec<FetchRequest> = Vec::new();
    let mut i: usize = 0;
    while i < deps.len()
        invariant
            i <= deps.len(),
            pairs == ranges_by_name(deps@),
            request_views(out@) == seeds_upto(pairs, i as int),
        decreases deps.len() - i,
    {
        let mut seen = false;
        let mut j: usize = 0;
        while j < i && !seen
            invariant
                j <= i < deps.len(),
                pairs == ranges_by_name(deps@),
                seen ==> name_seen_before(pairs, i as int),
                !seen ==> forall|k: int| 0 <= k < j ==> (#[trigger] pairs[k]).0 != pairs[i as int].0,
            decreases i - j + (if seen { 0int } else { 1int }),
        {
            if deps[j].0 == deps[i].0 {
                assert(pairs[j as int].0 == pairs[i as int].0);
                seen = true;
            } else {
                j += 1;
            }
        }
        if !seen {
            out.push(
                FetchRequest { name: deps[i].0.clone(), range: deps[i].1.clone(), is_root: true },
            );
            assert(request_views(out@) =~= seeds_upto(pairs, i as int).push(
                root_request(pairs[i as int]),
            ));
        }
        i += 1;
    }
    out
}

/// The table of versions chosen so far: package name, then range, to the
/// version chosen and the root flag.
#[derive(Debug)]
pub struct ResolvedVersions {
    entries: Vec<ResolvedEntry>,
}

impl View for ResolvedVersions {
    type V = Seq<ResolvedEntryView>;

    closed spec fn view(&self) -> Seq<ResolvedEntryView> {
        Seq::new(self.entries@.len(), |i: int| self.entries@[i]@)
    }
}

/// The end of one fetch.
#[derive(Debug, PartialEq, Eq)]
pub enum FetchOutcome {
    /// The registry answered and the range selected `version`.
    Resolved { range: VersionRangeSpecifier, version: NpmPackageVersion, is_root: bool },
    /// The fetch or the selection failed. The package is left out.
    Failed,
}

pub enum FetchOutcomeView {
    Resolved { range: Seq<char>, version: NpmPackageVersionView, is_root: bool },
    Failed,
}

impl View for FetchOutcome {
    type V = FetchOutcomeView;

    open spec fn view(&self) -> FetchOutcomeView {
        match self {
            FetchOutcome::Resolved { range, version, is_root } => FetchOutcomeView::Resolved {
                range: range@,
                version: version@,
                is_root: *is_root,
            },
            FetchOutcome::Failed => FetchOutcomeView::Failed,
        }
    }
}

/// What a fetch came to, given what the registry sent for the request: the
/// version that the requested range selects from the metadata, with the
/// range and the root flag of the request; or a failure, where no metadata
/// came or the range selects nothing from it.
pub open spec fn outcome_of(
    request: FetchRequestView,
    fetched: Result<NpmResolvedPackageView, crate::http::Error>,
) -> FetchOutcomeView {
    match fetched {
        Ok(package) => match selected_index(package, request.range) {
            Some(i) => FetchOutcomeView::Resolved {
                range: request.range,
                version: package.versions[i].1,
                is_root: request.is_root,
            },
            None => FetchOutcomeView::Failed,
        },
        Err(_) => FetchOutcomeView::Failed,
    }
}

/// The view of what the registry sent.
pub open spec fn fetched_view(fetched: Result<NpmResolvedPackage, crate::http::Error>) -> Result<
    NpmResolvedPackageView,
    crate::http::Error,
> {
    match fetched {
        Ok(package) => Ok(package@),
        Err(error) => Err(error),
    }
}

/// Ends a fetch: selects, from the metadata that the registry sent, the
/// version that the request's range stands for.
pub fn get_npm_package_version(
    request: &FetchRequest,
    fetched: Result<NpmResolvedPackage, crate::http::Error>,
) -> (res: FetchOutcome)
    ensures
        res@ == outcome_of(request@, fetched_view(fetched)),
{
    match fetched {
        Ok(package) => match resolve_version_from_version_range(&package, &request.range) {
            Ok(version) => FetchOutcome::Resolved {
                range: request.range.clone(),
                version,
                is_root: request.is_root,
            },
            Err(_) => FetchOutcome::Failed,
        },
        Err(_) => FetchOutcome::Failed,
    }
}

impl ResolvedVersions {
    /// The empty table.
    pub fn new() -> (res: Self)
        ensures
            res@ == Seq::<ResolvedEntryView>::empty(),
    {
        let res = ResolvedVersions { entries: Vec::new() };
        assert(res@ =~= Seq::<ResolvedEntryView>::empty());
        res
    }

    /// The number of lines.
    pub fn len(&self) -> (res: usize)
        ensures
            res == self@.len(),
    {
        self.entries.len()
    }

    /// Line `index`, if the table has that many lines.
    pub fn entry(&self, index: usize) -> (res: Option<&ResolvedEntry>)
        ensures
            index < self@.len() ==> res is Some && res->Some_0@ == self@[index as int],
            index >= self@.len() ==> res is None,
    {
        if index < self.entries.len() {
            Some(&self.entries[index])
        } else {
            None
        }
    }

    /// The position of the line for `range` of `name`.
    pub fn position(&self, name: &String, range: &VersionRangeSpecifier) -> (res: Option<usize>)
        ensures
            match res {
                Some(i) => entry_index(self@, name@, range@) == Some(i as int),
                None => entry_index(self@, name@, range@) is None,
            },
    {
        let ghost keys = entry_keys(self@);
        let mut i: usize = 0;
        while i < self.entries.len()
            invariant
                i <= self.entries.len(),
                keys == entry_keys(self@),
                forall|j: int| 0 <= j < i ==> keys[j] != (name@, range@),
            decreases self.entries.len() - i,
        {
            if self.entries[i].name == *name && self.entries[i].range.same_as(range) {
                proof {
                    assert(keys[i as int] == (name@, range@));
                    lemma_first_index_found(keys, (name@, range@), i as int);
                }
                return Some(i);
            }
            assert(keys[i as int] != (name@, range@));
            i += 1;
        }
        proof {
            lemma_first_index_absent(keys, (name@, range@));
        }
        None
    }

    /// The line for `range` of `name`.
    pub fn get(&self, name: &String, range: &VersionRangeSpecifier) -> (res: Option<&ResolvedEntry>)
        ensures
            match entry_index(self@, name@, range@) {
                Some(i) => res is Some && res->Some_0@ == self@[i],
                None => res is None,
            },
    {
        match self.position(name, range) {
            Some(i) => {
                proof {
                    lemma_first_index(entry_keys(self@), (name@, range@));
                }
                Some(&self.entries[i])
            },
            None => None,
        }
    }

    /// Whether the table holds a version of `name`, under whatever range.
    pub fn contains_name(&self, name: &String) -> (res: bool)
        ensures
            res == has_name(self@, name@),
    {
        let mut i: usize = 0;
        while i < self.entries.len()
            invariant
                i <= self.entries.len(),
                forall|j: int| 0 <= j < i ==> (#[trigger] self@[j]).name != name@,
            decreases self.entries.len() - i,
        {
            if self.entries[i].name == *name {
                assert(self@[i as int].name == name@);
                return true;
            }
            i += 1;
        }
        false
    }

    /// Records the version chosen for `range` of the package that `version`
    /// names. A key that was recorded before keeps what it has.
    pub fn insert(&mut self, range: VersionRangeSpecifier, version: NpmPackageVersion, is_root: bool)
        ensures
            final(self)@ == recorded(
                old(self)@,
                ResolvedEntryView { name: version@.name, range: range@, version: version@, is_root },
            ),
    {
        if self.position(&version.name, &range).is_none() {
            let name = version.name.clone();
            self.entries.push(ResolvedEntry { name, range, version, is_root });
            assert(self@ =~= old(self)@.push(
                ResolvedEntryView { name: version@.name, range: range@, version: version@, is_root },
            ));
        }
    }

    /// The fetches to start for the dependencies of a version that was just
    /// chosen: each dependency whose package the table knows, but not under
    /// the dependency's range.
    pub fn expansion(&self, dependencies: &Vec<(String, VersionRangeSpecifier)>) -> (res: Vec<
        FetchRequest,
    >)
        ensures
            request_views(res@) == requests_for(self@, ranges_by_name(dependencies@)),
    {
        let ghost pairs = ranges_by_name(dependencies@);
        let mut out: Vec<FetchRequest> = Vec::new();
        let mut i: usize = 0;
        while i < dependencies.len()
            invariant
                i <= dependencies.len(),
                pairs == ranges_by_name(dependencies@),
                request_views(out@) == requests_upto(self@, pairs, i as int),
            decreases dependencies.len() - i,
        {
            let name = &dependencies[i].0;
            let range = &dependencies[i].1;
            if self.contains_name(name) && self.position(name, range).is_none() {
                out.push(FetchRequest { name: name.clone(), range: range.clone(), is_root: false });
                assert(request_views(out@) =~= requests_upto(self@, pairs, i as int).push(
                    dependency_request(pairs[i as int]),
                ));
            }
            i += 1;
        }
        out
    }

    /// Takes in the end of one fetch and answers with the fetches to start
    /// next. A failed fetch changes nothing and starts nothing. A resolved
    /// one is looked through for dependencies to fetch, against the table as
    /// it was, and is then recorded.
    pub fn step(&mut self, outcome: FetchOutcome) -> (res: Vec<FetchRequest>)
        ensures
            outcome is Failed ==> final(self)@ == old(self)@ && res@.len() == 0,
            outcome matches FetchOutcome::Resolved { range, version, is_root } ==> {
                &&& request_views(res@) == requests_for(old(self)@, version@.dependencies)
                &&& final(self)@ == recorded(
                    old(self)@,
                    ResolvedEntryView {
                        name: version@.name,
                        range: range@,
                        version: version@,
                        is_root,
                    },
                )
            },
    {
        match outcome {
            FetchOutcome::Failed => Vec::new(),
            FetchOutcome::Resolved { range, version, is_root } => {
                let requests = self.expansion(&version.dependencies);
                self.insert(range, version, is_root);
                requests
            },
        }
    }
}

/// Two versions are of the same package: same name, same version.
pub open spec fn same_package(a: NpmPackageVersionView, b: NpmPackageVersionView) -> bool {
    a.name == b.name && a.version == b.version
}

/// The versions chosen for the first `n` of `dependencies`, in their order.
/// A dependency without a line in the table is left out.
pub open spec fn direct_deps_upto(
    table: Seq<ResolvedEntryView>,
    dependencies: Seq<(Seq<char>, Seq<char>)>,
    n: int,
) -> Seq<NpmPackageVersionView>
    decreases n,
{
    if n <= 0 {
        Seq::empty()
    } else {
        match entry_index(table, dependencies[n - 1].0, dependencies[n - 1].1) {
            Some(i) => direct_deps_upto(table, dependencies, n - 1).push(table[i].version),
            None => direct_deps_upto(table, dependencies, n - 1),
        }
    }
}

/// The versions chosen for `dependencies`.
pub open spec fn direct_deps(
    table: Seq<ResolvedEntryView>,
    dependencies: Seq<(Seq<char>, Seq<char>)>,
) -> Seq<NpmPackageVersionView> {
    direct_deps_upto(table, dependencies, dependencies.len() as int)
}

/// An earlier line of the table holds the package of line `i`.
pub open spec fn package_seen_before(table: Seq<ResolvedEntryView>, i: int) -> bool {
    exists|j: int| 0 <= j < i && same_package((#[trigger] table[j]).version, table[i].version)
}

/// Some line of the table holds the package of line `i` as a root.
pub open spec fn requested(table: Seq<ResolvedEntryView>, i: int) -> bool {
    exists|k: int|
        0 <= k < table.len() && same_package((#[trigger] table[k]).version, table[i].version)
            && table[k].is_root
}

/// The resolved package that line `i` of the table stands for.
pub open spec fn package_at(table: Seq<ResolvedEntryView>, i: int) -> ResolvedDependenciesView {
    ResolvedDependenciesView {
        version: table[i].version,
        dependencies: direct_deps(table, table[i].version.dependencies),
        is_root: requested(table, i),
    }
}

/// The resolved packages of the first `n` lines of the table: one for each
/// package, at the place of its first line.
pub open spec fn packages_upto(table: Seq<ResolvedEntryView>, n: int) -> Seq<
    ResolvedDependenciesView,
>
    decreases n,
{
    if n <= 0 {
        Seq::empty()
    } else if package_seen_before(table, n - 1) {
        packages_upto(table, n - 1)
    } else {
        packages_upto(table, n - 1).push(package_at(table, n - 1))
    }
}

/// The resolved set that a table stands for.
pub open spec fn packages_of(table: Seq<ResolvedEntryView>) -> Seq<ResolvedDependenciesView> {
    packages_upto(table, table.len() as int)
}

/// Whether two versions are of the same package.
fn is_same_package(a: &NpmPackageVersion, b: &NpmPackageVersion) -> (res: bool)
    ensures
        res == same_package(a@, b@),
{
    a.name == b.name && a.version.same_as(&b.version)
}

/// The versions that the table holds for the dependencies of a version.
fn collect_direct_deps(
    resolved: &ResolvedVersions,
    dependencies: &Vec<(String, VersionRangeSpecifier)>,
) -> (res: Vec<NpmPackageVersion>)
    ensures
        version_views(res@) == direct_deps(resolved@, ranges_by_name(dependencies@)),
{
    let ghost pairs = ranges_by_name(dependencies@);
    let mut out: Vec<NpmPackageVersion> = Vec::new();
    let mut i: usize = 0;
    while i < dependencies.len()
        invariant
            i <= dependencies.len(),
            pairs == ranges_by_name(dependencies@),
            version_views(out@) == direct_deps_upto(resolved@, pairs, i as int),
        decreases dependencies.len() - i,
    {
        match resolved.get(&dependencies[i].0, &dependencies[i].1) {
            Some(entry) => {
                out.push(entry.version.clone());
                assert(version_views(out@) =~= direct_deps_upto(resolved@, pairs, i as int).push(
                    entry@.version,
                ));
            },
            None => {},
        }
        i += 1;
    }
    out
}

/// The resolved set of a table: for each package that the table holds, the
/// version chosen, the versions chosen for its dependencies, and whether the
/// caller asked for it. A dependency that was never resolved is left out of
/// its dependent's list. A package that the table holds under several ranges
/// comes out once, and as a root if any of its lines is one.
pub fn construct_dependency_vec(resolved: &ResolvedVersions) -> (res: Result<
    Vec<ResolvedDependencies>,
    Error,
>)
    ensures
        res is Ok,
        resolved_views(res->Ok_0@) == packages_of(resolved@),
{
    let ghost table = resolved@;
    let mut out: Vec<ResolvedDependencies> = Vec::new();
    let n = resolved.len();
    let mut i: usize = 0;
    while i < n
        invariant
            i <= n,
            n == table.len(),
            table == resolved@,
            resolved_views(out@) == packages_upto(table, i as int),
        decreases n - i,
    {
        let version = &resolved.entry(i).unwrap().version;
        let mut seen = false;
        let mut is_root = false;
        let mut j: usize = 0;
        while j < n
            invariant
                j <= n,
                i < n,
                n == table.len(),
                table == resolved@,
                version@ == table[i as int].version,
                seen <==> exists|k: int|
                    0 <= k < j && k < i && same_package((#[trigger] table[k]).version, version@),
                is_root <==> exists|k: int|
                    0 <= k < j && same_package((#[trigger] table[k]).version, version@)
                        && table[k].is_root,
            decreases n - j,
        {
            let other = resolved.entry(j).unwrap();
            if is_same_package(&other.version, version) {
                if j < i {
                    seen = true;
                }
                if other.is_root {
                    is_root = true;
                }
            }
            j += 1;
        }
        assert(seen == package_seen_before(table, i as int));
        assert(is_root == requested(table, i as int));
        if !seen {
            let dependencies = collect_direct_deps(resolved, &version.dependencies);
            out.push(ResolvedDependencies::new(version.clone(), dependencies, is_root));
            assert(resolved_views(out@) =~= packages_upto(table, i as int).push(
                package_at(table, i as int),
            ));
        }
        i += 1;
    }
    Ok(out)
}

/// The dependency tree below `range` of `name`, where `ancestors` are the
/// lines of the table on the way down to it. A key without a line has no
/// tree. Neither has a key whose line is among its own ancestors: its tree
/// would have no end.
pub open spec fn tree_below(
    table: Seq<ResolvedEntryView>,
    name: Seq<char>,
    range: Seq<char>,
    ancestors: Seq<int>,
) -> Result<ResolvedDependencyTreeView, Error>
    decreases table.len() - ancestors.len(), 0nat, 0nat,
{
    match entry_index(table, name, range) {
        None => Err(Error::VersionDoesNotExist),
        Some(i) => if ancestors.contains(i) || ancestors.len() >= table.len() {
            Err(Error::DependencyResolveError)
        } else {
            match trees_below(
                table,
                table[i].version.dependencies,
                ancestors.push(i),
                table[i].version.dependencies.len(),
            ) {
                Ok(children) => Ok(
                    ResolvedDependencyTreeView {
                        name,
                        version: table[i].version,
                        dependencies: children,
                    },
                ),
                Err(error) => Err(error),
            }
        },
    }
}

/// The trees of the first `n` of `dependencies`, in their order, or the
/// error of the first of them that has no tree.
pub open spec fn trees_below(
    table: Seq<ResolvedEntryView>,
    dependencies: Seq<(Seq<char>, Seq<char>)>,
    ancestors: Seq<int>,
    n: nat,
) -> Result<Seq<ResolvedDependencyTreeView>, Error>
    decreases table.len() - ancestors.len(), 1nat, n,
{
    if n == 0 {
        Ok(Seq::empty())
    } else {
        match trees_below(table, dependencies, ancestors, (n - 1) as nat) {
            Err(error) => Err(error),
            Ok(trees) => match tree_below(
                table,
                dependencies[n - 1].0,
                dependencies[n - 1].1,
                ancestors,
            ) {
                Ok(tree) => Ok(trees.push(tree)),
                Err(error) => Err(error),
            },
        }
    }
}

/// The dependency tree of `range` of `name`.
pub open spec fn tree_of(table: Seq<ResolvedEntryView>, name: Seq<char>, range: Seq<char>) -> Result<
    ResolvedDependencyTreeView,
    Error,
> {
    tree_below(table, name, range, Seq::empty())
}

/// The view of a tree, or the error in its place.
pub open spec fn tree_result_view(res: Result<ResolvedDependencyTree, Error>) -> Result<
    ResolvedDependencyTreeView,
    Error,
> {
    match res {
        Ok(tree) => Ok(tree@),
        Err(error) => Err(error),
    }
}

fn is_ancestor(ancestors: &Vec<usize>, line: usize) -> (res: bool)
    ensures
        res == line_numbers(ancestors@).contains(line as int),
{
    let mut i: usize = 0;
    while i < ancestors.len()
        invariant
            i <= ancestors.len(),
            forall|j: int| 0 <= j < i ==> line_numbers(ancestors@)[j] != line as int,
        decreases ancestors.len() - i,
    {
        if ancestors[i] == line {
            assert(line_numbers(ancestors@)[i as int] == line as int);
            return true;
        }
        i += 1;
    }
    false
}

/// Line numbers as mathematical integers.
pub open spec fn line_numbers(lines: Seq<usize>) -> Seq<int> {
    Seq::new(lines.len(), |i: int| lines[i] as int)
}

fn build_tree(
    root_name: &String,
    root_range: &VersionRangeSpecifier,
    resolved: &ResolvedVersions,
    ancestors: &mut Vec<usize>,
) -> (res: Result<ResolvedDependencyTree, Error>)
    ensures
        final(ancestors)@ == old(ancestors)@,
        tree_result_view(res) == tree_below(
            resolved@,
            root_name@,
            root_range@,
            line_numbers(old(ancestors)@),
        ),
    decreases resolved@.len() - old(ancestors)@.len(),
{
    let ghost table = resolved@;
    let ghost above = line_numbers(ancestors@);
    let line = match resolved.position(root_name, root_range) {
        Some(line) => line,
        None => {
            return Err(Error::VersionDoesNotExist);
        },
    };
    proof {
        lemma_first_index(entry_keys(table), (root_name@, root_range@));
    }
    if is_ancestor(ancestors, line) || ancestors.len() >= resolved.len() {
        return Err(Error::DependencyResolveError);
    }
    let entry = resolved.entry(line).unwrap();
    let ghost deps = ranges_by_name(entry.version.dependencies@);
    assert(deps == table[line as int].version.dependencies);
    ancestors.push(line);
    let ghost below = above.push(line as int);
    assert(line_numbers(ancestors@) =~= below);
    let mut trees: Vec<ResolvedDependencyTree> = Vec::new();
    let mut failure: Option<Error> = None;
    let mut i: usize = 0;
    assert(tree_views(trees@) =~= Seq::<ResolvedDependencyTreeView>::empty());
    while i < entry.version.dependencies.len() && failure.is_none()
        invariant
            i <= entry.version.dependencies.len(),
            table == resolved@,
            deps == ranges_by_name(entry.version.dependencies@),
            ancestors@ == old(ancestors)@.push(line),
            below == line_numbers(ancestors@),
            below.len() <= table.len(),
            match failure {
                None => trees_below(table, deps, below, i as nat) == Ok::<
                    Seq<ResolvedDependencyTreeView>,
                    Error,
                >(tree_views(trees@)),
                Some(error) => trees_below(table, deps, below, deps.len()) == Err::<
                    Seq<ResolvedDependencyTreeView>,
                    Error,
                >(error),
            },
        decreases entry.version.dependencies.len() - i + (if failure is None { 1int } else { 0int }),
    {
        let dependency = &entry.version.dependencies[i];
        match build_tree(&dependency.0, &dependency.1, resolved, ancestors) {
            Ok(tree) => {
                let ghost before = tree_views(trees@);
                let ghost added = tree@;
                trees.push(tree);
                assert(tree_views(trees@) =~= before.push(added));
                i += 1;
            },
            Err(error) => {
                proof {
                    lemma_error_stays(table, deps, below, (i + 1) as nat, deps.len(), error);
                }
                failure = Some(error);
            },
        }
    }
    ancestors.pop();
    assert(ancestors@ =~= old(ancestors)@);
    match failure {
        Some(error) => Err(error),
        None => {
            let ghost children = tree_views(trees@);
            let tree = ResolvedDependencyTree::new(root_name.clone(), entry.version.clone(), trees);
            proof {
                lemma_tree_view(tree);
            }
            Ok(tree)
        },
    }
}

/// Once the trees of the first `n` dependencies fail, those of more of them
/// fail in the same way.
proof fn lemma_error_stays(
    table: Seq<ResolvedEntryView>,
    dependencies: Seq<(Seq<char>, Seq<char>)>,
    ancestors: Seq<int>,
    n: nat,
    m: nat,
    error: Error,
)
    requires
        n <= m,
        ancestors.len() <= table.len(),
        trees_below(table, dependencies, ancestors, n) == Err::<
            Seq<ResolvedDependencyTreeView>,
            Error,
        >(error),
    ensures
        trees_below(table, dependencies, ancestors, m) == Err::<
            Seq<ResolvedDependencyTreeView>,
            Error,
        >(error),
    decreases m,
{
    if n < m {
        lemma_error_stays(table, dependencies, ancestors, n, (m - 1) as nat, error);
    }
}

/// The dependency tree of `root_range` of `root_name`: the version that the
/// table holds for it and, below it, the trees of that version's
/// dependencies. It fails with `VersionDoesNotExist` where the table lacks a
/// key that the tree needs, and with `DependencyResolveError` where a package
/// depends on itself, directly or through others.
pub fn construct_dependency_tree(
    root_name: &String,
    root_range: &VersionRangeSpecifier,
    resolved_versions: &ResolvedVersions,
) -> (res: Result<ResolvedDependencyTree, Error>)
    ensures
        tree_result_view(res) == tree_of(resolved_versions@, root_name@, root_range@),
{
    let mut ancestors: Vec<usize> = Vec::new();
    assert(line_numbers(ancestors@) =~= Seq::<int>::empty());
    build_tree(root_name, root_range, resolved_versions, &mut ancestors)
}

} // verus!
