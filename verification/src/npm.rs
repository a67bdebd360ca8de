//! The registry's data model: versions, ranges, package metadata and the
//! records that resolution produces.

use crate::lookup::first_index;
use crate::text::option_chars;
use indexmap::IndexMap;
use vstd::prelude::*;

verus! {

/// The insertion-ordered map of the `indexmap` crate. Verus sees no field of
/// it; what a map of version metadata holds is named by [`versions_of`].
#[verifier::external_type_specification]
#[verifier::external_body]
#[verifier::reject_recursive_types(K)]
#[verifier::reject_recursive_types(V)]
#[verifier::reject_recursive_types(S)]
pub struct ExIndexMap<K, V, S>(IndexMap<K, V, S>);

/// A semver-compatible version identifier. Equality is string-exact.
#[derive(Debug, PartialEq, Eq, Hash)]
pub struct Version(String);

impl View for Version {
    type V = Seq<char>;

    closed spec fn view(&self) -> Seq<char> {
        self.0@
    }
}

impl Clone for Version {
    fn clone(&self) -> (res: Self)
        ensures
            res == *self,
    {
        Version(self.0.clone())
    }
}

impl Version {
    pub fn new(value: String) -> (res: Version)
        ensures
            res@ == value@,
    {
        Self(value)
    }

    pub fn as_str(&self) -> (res: &str)
        ensures
            res@ == self@,
    {
        self.0.as_str()
    }

    pub fn into_string(self) -> (res: String)
        ensures
            res@ == self@,
    {
        self.0
    }

    /// Whether both hold the same characters.
    pub fn same_as(&self, other: &Version) -> (res: bool)
        ensures
            res == (self@ == other@),
    {
        self.0 == other.0
    }
}

impl TryFrom<String> for Version {
    type Error = VersionParseError;

    fn try_from(value: String) -> (res: Result<Self, Self::Error>)
        ensures
            res is Ok,
            res->Ok_0@ == value@,
    {
        Ok(Self(value))
    }
}

impl vstd::std_specs::convert::TryFromSpecImpl<String> for Version {
    open spec fn obeys_try_from_spec() -> bool {
        true
    }

    closed spec fn try_from_spec(value: String) -> Result<Self, Self::Error> {
        Ok(Self(value))
    }
}

#[derive(Debug, PartialEq, Eq, Clone, Copy)]
pub enum VersionParseError {
    InvalidFormat,
}

/// A semver-compatible version range: either a range such as `>3.0.0` or
/// `1.2.4`, or the tag `latest`. Equality is string-exact.
#[derive(Debug, PartialEq, Eq, Hash)]
pub struct VersionRangeSpecifier(String);

impl View for VersionRangeSpecifier {
    type V = Seq<char>;

    closed spec fn view(&self) -> Seq<char> {
        self.0@
    }
}

impl Clone for VersionRangeSpecifier {
    fn clone(&self) -> (res: Self)
        ensures
            res == *self,
    {
        VersionRangeSpecifier(self.0.clone())
    }
}

impl VersionRangeSpecifier {
    pub fn new(value: String) -> (res: Self)
        ensures
            res@ == value@,
    {
        Self(value)
    }

    pub fn as_str(&self) -> (res: &str)
        ensures
            res@ == self@,
    {
        self.0.as_str()
    }

    pub fn into_string(self) -> (res: String)
        ensures
            res@ == self@,
    {
        self.0
    }

    /// Whether both hold the same characters.
    pub fn same_as(&self, other: &VersionRangeSpecifier) -> (res: bool)
        ensures
            res == (self@ == other@),
    {
        self.0 == other.0
    }
}

impl TryFrom<String> for VersionRangeSpecifier {
    type Error = VersionRangeSpecifierParseError;

    fn try_from(value: String) -> (res: Result<Self, Self::Error>)
        ensures
            res is Ok,
            res->Ok_0@ == value@,
    {
        Ok(Self(value))
    }
}

impl vstd::std_specs::convert::TryFromSpecImpl<String> for VersionRangeSpecifier {
    open spec fn obeys_try_from_spec() -> bool {
        true
    }

    closed spec fn try_from_spec(value: String) -> Result<Self, Self::Error> {
        Ok(Self(value))
    }
}

#[derive(Debug, PartialEq, Eq, Clone, Copy)]
pub enum VersionRangeSpecifierParseError {
    InvalidFormat,
}

/// A string containing a fully-formed URL.
#[derive(Debug, PartialEq, Eq, Hash)]
pub struct UrlString(String);

impl View for UrlString {
    type V = Seq<char>;

    closed spec fn view(&self) -> Seq<char> {
        self.0@
    }
}

impl Clone for UrlString {
    fn clone(&self) -> (res: Self)
        ensures
            res == *self,
    {
        UrlString(self.0.clone())
    }
}

impl UrlString {
    pub fn new(value: String) -> (res: Self)
        ensures
            res@ == value@,
    {
        Self(value)
    }

    pub fn as_str(&self) -> (res: &str)
        ensures
            res@ == self@,
    {
        self.0.as_str()
    }

    pub fn into_string(self) -> (res: String)
        ensures
            res@ == self@,
    {
        self.0
    }

    /// Whether both hold the same characters.
    pub fn same_as(&self, other: &UrlString) -> (res: bool)
        ensures
            res == (self@ == other@),
    {
        self.0 == other.0
    }
}

impl TryFrom<String> for UrlString {
    type Error = UrlStringParseError;

    fn try_from(value: String) -> (res: Result<Self, Self::Error>)
        ensures
            res is Ok,
            res->Ok_0@ == value@,
    {
        Ok(Self(value))
    }
}

impl vstd::std_specs::convert::TryFromSpecImpl<String> for UrlString {
    open spec fn obeys_try_from_spec() -> bool {
        true
    }

    closed spec fn try_from_spec(value: String) -> Result<Self, Self::Error> {
        Ok(Self(value))
    }
}

#[derive(Debug, PartialEq, Eq, Clone, Copy)]
pub enum UrlStringParseError {
    InvalidFormat,
}

/// The characters of each string of a sequence.
pub open spec fn texts(values: Seq<String>) -> Seq<Seq<char>> {
    Seq::new(values.len(), |i: int| values[i]@)
}

/// A map from package names to ranges, as pairs of character sequences in the
/// order in which the registry listed them.
pub open spec fn ranges_by_name(pairs: Seq<(String, VersionRangeSpecifier)>) -> Seq<
    (Seq<char>, Seq<char>),
> {
    Seq::new(pairs.len(), |i: int| (pairs[i].0@, pairs[i].1@))
}

/// A map from tags to versions, as pairs of character sequences.
pub open spec fn versions_by_tag(pairs: Seq<(String, Version)>) -> Seq<(Seq<char>, Seq<char>)> {
    Seq::new(pairs.len(), |i: int| (pairs[i].0@, pairs[i].1@))
}

fn clone_texts(values: &Vec<String>) -> (res: Vec<String>)
    ensures
        res@ == values@,
{
    let mut out: Vec<String> = Vec::new();
    let mut i: usize = 0;
    while i < values.len()
        invariant
            i <= values.len(),
            out@ == values@.take(i as int),
        decreases values.len() - i,
    {
        out.push(values[i].clone());
        i += 1;
    }
    out
}

/// A copy of a name-to-range map.
pub fn clone_ranges(pairs: &Vec<(String, VersionRangeSpecifier)>) -> (res: Vec<
    (String, VersionRangeSpecifier),
>)
    ensures
        res@ == pairs@,
{
    let mut out: Vec<(String, VersionRangeSpecifier)> = Vec::new();
    let mut i: usize = 0;
    while i < pairs.len()
        invariant
            i <= pairs.len(),
            out@ == pairs@.take(i as int),
        decreases pairs.len() - i,
    {
        out.push((pairs[i].0.clone(), pairs[i].1.clone()));
        i += 1;
    }
    out
}

fn clone_option_chars(value: &Option<String>) -> (res: Option<String>)
    ensures
        res == *value,
{
    match value {
        Some(text) => Some(text.clone()),
        None => None,
    }
}

/// One registry signature over a distribution.
#[derive(Debug, PartialEq, Eq, Hash)]
pub struct NpmVersionDistSignature {
    pub keyid: String,
    pub sig: String,
}

pub struct NpmVersionDistSignatureView {
    pub keyid: Seq<char>,
    pub sig: Seq<char>,
}

impl View for NpmVersionDistSignature {
    type V = NpmVersionDistSignatureView;

    open spec fn view(&self) -> NpmVersionDistSignatureView {
        NpmVersionDistSignatureView { keyid: self.keyid@, sig: self.sig@ }
    }
}

impl Clone for NpmVersionDistSignature {
    fn clone(&self) -> (res: Self)
        ensures
            res == *self,
    {
        NpmVersionDistSignature { keyid: self.keyid.clone(), sig: self.sig.clone() }
    }
}

pub open spec fn signature_views(values: Seq<NpmVersionDistSignature>) -> Seq<
    NpmVersionDistSignatureView,
> {
    Seq::new(values.len(), |i: int| values[i]@)
}

fn clone_signatures(values: &Vec<NpmVersionDistSignature>) -> (res: Vec<NpmVersionDistSignature>)
    ensures
        res@ == values@,
{
    let mut out: Vec<NpmVersionDistSignature> = Vec::new();
    let mut i: usize = 0;
    while i < values.len()
        invariant
            i <= values.len(),
            out@ == values@.take(i as int),
        decreases values.len() - i,
    {
        out.push(values[i].clone());
        i += 1;
    }
    out
}

/// The distribution block of one version: where its archive is, and the
/// checksums that the registry published for it.
#[derive(Debug, PartialEq, Eq, Hash)]
pub struct NpmVersionDist {
    pub shasum: String,
    pub tarball: UrlString,
    pub integrity: Option<String>,
    pub file_count: Option<i32>,
    pub unpacked_size: Option<i32>,
    pub npm_signatures: Option<String>,
    pub signatures: Option<Vec<NpmVersionDistSignature>>,
}

pub struct NpmVersionDistView {
    pub shasum: Seq<char>,
    pub tarball: Seq<char>,
    pub integrity: Option<Seq<char>>,
    pub file_count: Option<i32>,
    pub unpacked_size: Option<i32>,
    pub npm_signatures: Option<Seq<char>>,
    pub signatures: Option<Seq<NpmVersionDistSignatureView>>,
}

impl View for NpmVersionDist {
    type V = NpmVersionDistView;

    open spec fn view(&self) -> NpmVersionDistView {
        NpmVersionDistView {
            shasum: self.shasum@,
            tarball: self.tarball@,
            integrity: option_chars(self.integrity),
            file_count: self.file_count,
            unpacked_size: self.unpacked_size,
            npm_signatures: option_chars(self.npm_signatures),
            signatures: match self.signatures {
                Some(list) => Some(signature_views(list@)),
                None => None,
            },
        }
    }
}

impl Clone for NpmVersionDist {
    fn clone(&self) -> (res: Self)
        ensures
            res@ == self@,
    {
        NpmVersionDist {
            shasum: self.shasum.clone(),
            tarball: self.tarball.clone(),
            integrity: clone_option_chars(&self.integrity),
            file_count: self.file_count,
            unpacked_size: self.unpacked_size,
            npm_signatures: clone_option_chars(&self.npm_signatures),
            signatures: match &self.signatures {
                Some(list) => Some(clone_signatures(list)),
                None => None,
            },
        }
    }
}

/// The engine constraints of a version, in one of the three shapes that
/// registry metadata uses. They are carried along and never consulted.
#[derive(Debug, PartialEq, Eq)]
pub enum Engines {
    Table(Vec<(String, VersionRangeSpecifier)>),
    Array(Vec<String>),
    String(String),
}

pub enum EnginesView {
    Table(Seq<(Seq<char>, Seq<char>)>),
    Array(Seq<Seq<char>>),
    String(Seq<char>),
}

impl View for Engines {
    type V = EnginesView;

    open spec fn view(&self) -> EnginesView {
        match self {
            Engines::Table(pairs) => EnginesView::Table(ranges_by_name(pairs@)),
            Engines::Array(values) => EnginesView::Array(texts(values@)),
            Engines::String(value) => EnginesView::String(value@),
        }
    }
}

impl Clone for Engines {
    fn clone(&self) -> (res: Self)
        ensures
            res@ == self@,
    {
        match self {
            Engines::Table(pairs) => Engines::Table(clone_ranges(pairs)),
            Engines::Array(values) => Engines::Array(clone_texts(values)),
            Engines::String(value) => Engines::String(value.clone()),
        }
    }
}

/// The metadata of one published version of a package.
#[derive(Debug, PartialEq, Eq)]
pub struct NpmPackageVersion {
    pub name: String,
    pub version: Version,
    /// Runtime dependencies, name to range, in registry order.
    pub dependencies: Vec<(String, VersionRangeSpecifier)>,
    pub dist: NpmVersionDist,
    pub engines: Option<Engines>,
}

pub struct NpmPackageVersionView {
    pub name: Seq<char>,
    pub version: Seq<char>,
    pub dependencies: Seq<(Seq<char>, Seq<char>)>,
    pub dist: NpmVersionDistView,
    pub engines: Option<EnginesView>,
}

impl View for NpmPackageVersion {
    type V = NpmPackageVersionView;

    open spec fn view(&self) -> NpmPackageVersionView {
        NpmPackageVersionView {
            name: self.name@,
            version: self.version@,
            dependencies: ranges_by_name(self.dependencies@),
            dist: self.dist@,
            engines: match self.engines {
                Some(engines) => Some(engines@),
                None => None,
            },
        }
    }
}

impl Clone for NpmPackageVersion {
    fn clone(&self) -> (res: Self)
        ensures
            res@ == self@,
    {
        NpmPackageVersion {
            name: self.name.clone(),
            version: self.version.clone(),
            dependencies: clone_ranges(&self.dependencies),
            dist: self.dist.clone(),
            engines: match &self.engines {
                Some(engines) => Some(engines.clone()),
                None => None,
            },
        }
    }
}

/// The views of a sequence of version metadata.
pub open spec fn version_views(values: Seq<NpmPackageVersion>) -> Seq<NpmPackageVersionView> {
    Seq::new(values.len(), |i: int| values[i]@)
}

/// A copy of a list of version metadata.
pub fn clone_versions(values: &Vec<NpmPackageVersion>) -> (res: Vec<NpmPackageVersion>)
    ensures
        version_views(res@) == version_views(values@),
{
    let mut out: Vec<NpmPackageVersion> = Vec::new();
    let mut i: usize = 0;
    while i < values.len()
        invariant
            i <= values.len(),
            out.len() == i,
            forall|j: int| 0 <= j < i ==> out@[j]@ == values@[j]@,
        decreases values.len() - i,
    {
        out.push(values[i].clone());
        i += 1;
    }
    assert(version_views(out@) =~= version_views(values@));
    out
}

/// The key-value pairs that a map of version metadata holds, in the map's
/// own order: the order in which the keys were first inserted. It is a name
/// for the contents of an `indexmap::IndexMap`; the trusted functions below
/// say what the map's methods do in terms of it.
pub uninterp spec fn versions_of(map: IndexMap<String, NpmPackageVersion>) -> Seq<
    (Seq<char>, NpmPackageVersion),
>;

/// The keys of a sequence of key-value pairs.
pub open spec fn version_keys(entries: Seq<(Seq<char>, NpmPackageVersion)>) -> Seq<Seq<char>> {
    Seq::new(entries.len(), |i: int| entries[i].0)
}

/// Calls `IndexMap::len`. Trusted: the number it returns is the number of
/// key-value pairs in the map.
#[verifier::external_body]
pub(crate) fn versions_len(map: &IndexMap<String, NpmPackageVersion>) -> (res: usize)
    ensures
        res == versions_of(*map).len(),
{
    map.len()
}

/// Calls `IndexMap::get_index`. Trusted: for an index below the map's length
/// it returns the key and the value at that position of the map's order, and
/// `None` for any other index.
#[verifier::external_body]
pub(crate) fn versions_get_index<'a>(
    map: &'a IndexMap<String, NpmPackageVersion>,
    index: usize,
) -> (res: Option<(&'a String, &'a NpmPackageVersion)>)
    ensures
        index < versions_of(*map).len() ==> res is Some && res->Some_0.0@ == versions_of(
            *map,
        )[index as int].0 && *res->Some_0.1 == versions_of(*map)[index as int].1,
        index >= versions_of(*map).len() ==> res is None,
{
    map.get_index(index)
}

/// Calls `IndexMap::get`. Trusted: it returns the value stored under the key
/// whose characters are those of `key`, and `None` if the map has no such
/// key. A map holds a key at most once, so that value is the one at the
/// key's first position.
#[verifier::external_body]
pub(crate) fn versions_get<'a>(map: &'a IndexMap<String, NpmPackageVersion>, key: &str) -> (res:
    Option<&'a NpmPackageVersion>)
    ensures
        match first_index(version_keys(versions_of(*map)), key@) {
            Some(i) => res is Some && *res->Some_0 == versions_of(*map)[i].1,
            None => res is None,
        },
{
    map.get(key)
}

/// What the registry publishes about one package: its tags and its
/// versions, the versions in registry order.
#[derive(Debug)]
pub struct NpmResolvedPackage {
    pub name: String,
    pub dist_tags: Vec<(String, Version)>,
    pub versions: IndexMap<String, NpmPackageVersion>,
    pub modified: String,
}

pub struct NpmResolvedPackageView {
    pub name: Seq<char>,
    pub dist_tags: Seq<(Seq<char>, Seq<char>)>,
    pub versions: Seq<(Seq<char>, NpmPackageVersionView)>,
    pub modified: Seq<char>,
}

impl View for NpmResolvedPackage {
    type V = NpmResolvedPackageView;

    open spec fn view(&self) -> NpmResolvedPackageView {
        NpmResolvedPackageView {
            name: self.name@,
            dist_tags: versions_by_tag(self.dist_tags@),
            versions: Seq::new(
                versions_of(self.versions).len(),
                |i: int| (versions_of(self.versions)[i].0, versions_of(self.versions)[i].1@),
            ),
            modified: self.modified@,
        }
    }
}

/// One package of a resolved set: the version chosen for it, the versions
/// chosen for its dependencies, and whether the caller asked for it.
#[derive(Debug, PartialEq, Eq)]
pub struct ResolvedDependencies {
    pub version: NpmPackageVersion,
    pub dependencies: Vec<NpmPackageVersion>,
    pub is_root: bool,
}

pub struct ResolvedDependenciesView {
    pub version: NpmPackageVersionView,
    pub dependencies: Seq<NpmPackageVersionView>,
    pub is_root: bool,
}

impl View for ResolvedDependencies {
    type V = ResolvedDependenciesView;

    open spec fn view(&self) -> ResolvedDependenciesView {
        ResolvedDependenciesView {
            version: self.version@,
            dependencies: version_views(self.dependencies@),
            is_root: self.is_root,
        }
    }
}

impl Clone for ResolvedDependencies {
    fn clone(&self) -> (res: Self)
        ensures
            res@ == self@,
    {
        ResolvedDependencies {
            version: self.version.clone(),
            dependencies: clone_versions(&self.dependencies),
            is_root: self.is_root,
        }
    }
}

impl ResolvedDependencies {
    pub fn new(version: NpmPackageVersion, dependencies: Vec<NpmPackageVersion>, is_root: bool) -> (res:
        Self)
        ensures
            res.version == version,
            res.dependencies == dependencies,
            res.is_root == is_root,
    {
        Self { version, dependencies, is_root }
    }
}

/// The views of a sequence of resolved packages.
pub open spec fn resolved_views(values: Seq<ResolvedDependencies>) -> Seq<
    ResolvedDependenciesView,
> {
    Seq::new(values.len(), |i: int| values[i]@)
}

/// A dependency tree: a package, the version chosen for it, and the trees of
/// its dependencies.
#[derive(Debug, PartialEq, Eq)]
pub struct ResolvedDependencyTree {
    pub name: String,
    pub version: NpmPackageVersion,
    pub dependencies: Vec<ResolvedDependencyTree>,
}

pub struct ResolvedDependencyTreeView {
    pub name: Seq<char>,
    pub version: NpmPackageVersionView,
    pub dependencies: Seq<ResolvedDependencyTreeView>,
}

/// What a tree holds: the characters of its name, the view of its version,
/// and the same of each tree below it.
pub open spec fn tree_view(tree: ResolvedDependencyTree) -> ResolvedDependencyTreeView
    decreases tree,
{
    ResolvedDependencyTreeView {
        name: tree.name@,
        version: tree.version@,
        dependencies: Seq::new(
            tree.dependencies@.len(),
            |i: int|
                if 0 <= i < tree.dependencies@.len() {
                    tree_view(tree.dependencies@[i])
                } else {
                    arbitrary()
                },
        ),
    }
}

impl View for ResolvedDependencyTree {
    type V = ResolvedDependencyTreeView;

    open spec fn view(&self) -> ResolvedDependencyTreeView {
        tree_view(*self)
    }
}

/// The views of a sequence of trees.
pub open spec fn tree_views(trees: Seq<ResolvedDependencyTree>) -> Seq<ResolvedDependencyTreeView> {
    Seq::new(trees.len(), |i: int| trees[i]@)
}

/// The view of a tree holds the views of the trees below it.
pub proof fn lemma_tree_view(tree: ResolvedDependencyTree)
    ensures
        tree@.name == tree.name@,
        tree@.version == tree.version@,
        tree@.dependencies == tree_views(tree.dependencies@),
{
    assert(tree@.dependencies =~= tree_views(tree.dependencies@));
}

impl ResolvedDependencyTree {
    pub fn new(name: String, version: NpmPackageVersion, dependencies: Vec<ResolvedDependencyTree>) -> (res:
        Self)
        ensures
            res.name == name,
            res.version == version,
            res.dependencies == dependencies,
    {
        Self { name, version, dependencies }
    }
}

} // verus!
