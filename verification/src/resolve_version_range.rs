//! Version selection: the version of a package that a range or the tag
//! `latest` stands for.

use crate::lookup::{first_index, lemma_first_index_absent, lemma_first_index_found};
use crate::npm::{
    NpmPackageVersion, NpmPackageVersionView, NpmResolvedPackage, NpmResolvedPackageView, Version,
    VersionRangeSpecifier, version_keys, versions_by_tag, versions_get, versions_get_index,
    versions_len, versions_of,
};
use crate::semver::{
    parse_range, parse_version, range_text_aborts, range_text_is_safe, semver_range_parses,
    semver_satisfies, semver_version_parses, version_satisfies,
};
use vstd::prelude::*;

verus! {

#[derive(Debug, PartialEq, Eq, Clone, Copy, Structural)]
pub enum Error {
    VersionRangeResolveError,
}

impl Error {
    pub fn to_string(&self) -> (res: String)
        ensures
            res@ == "VersionRangeResolveError"@,
    {
        String::from_str("VersionRangeResolveError")
    }
}

/// The one tag that is consulted.
pub const LATEST: &'static str = "latest";

/// The tags of a tag-to-version map.
pub open spec fn tag_names(tags: Seq<(Seq<char>, Seq<char>)>) -> Seq<Seq<char>> {
    Seq::new(tags.len(), |i: int| tags[i].0)
}

/// The version strings under which a package's versions are listed.
pub open spec fn listed_versions(package: NpmResolvedPackageView) -> Seq<Seq<char>> {
    Seq::new(package.versions.len(), |i: int| package.versions[i].0)
}

/// The place, among the package's versions, of the version that the tag
/// `latest` names. There is none if the package has no such tag, or lists no
/// version under the tag's version string.
pub open spec fn latest_index(package: NpmResolvedPackageView) -> Option<int> {
    match first_index(tag_names(package.dist_tags), LATEST@) {
        Some(tag) => first_index(listed_versions(package), package.dist_tags[tag].1),
        None => None,
    }
}

/// `i` is the last position of `flags` that holds `true`.
pub open spec fn is_last_true(flags: Seq<bool>, i: int) -> bool {
    &&& 0 <= i < flags.len()
    &&& flags[i]
    &&& forall|j: int| i < j < flags.len() ==> !flags[j]
}

/// The last position of `flags` that holds `true`, if any does.
pub open spec fn last_true(flags: Seq<bool>) -> Option<int> {
    if exists|i: int| is_last_true(flags, i) {
        Some(choose|i: int| is_last_true(flags, i))
    } else {
        None
    }
}

/// A listed version string is one that a range selects: it reads as a
/// version, and that version satisfies the range.
pub open spec fn in_range(version: Seq<char>, range: Seq<char>) -> bool {
    semver_version_parses(version) && semver_satisfies(version, range)
}

/// For each version of the package, whether `range` selects it.
pub open spec fn range_flags(package: NpmResolvedPackageView, range: Seq<char>) -> Seq<bool> {
    Seq::new(package.versions.len(), |i: int| in_range(package.versions[i].0, range))
}

/// The place, among the package's versions, of the version that `range`
/// stands for. For `latest` it is what the tag names. Any other text is read
/// as a semver range, and stands for the last version in registry order that
/// satisfies it. A text that does not read as a range stands for nothing.
pub open spec fn selected_index(package: NpmResolvedPackageView, range: Seq<char>) -> Option<int> {
    if range == LATEST@ {
        latest_index(package)
    } else if range_text_aborts(range) || !semver_range_parses(range) {
        None
    } else {
        last_true(range_flags(package, range))
    }
}

/// The answer for a place among the package's versions: the metadata there,
/// or the error where there is no place.
pub open spec fn version_at(package: NpmResolvedPackageView, place: Option<int>) -> Result<
    NpmPackageVersionView,
    Error,
> {
    match place {
        Some(i) => Ok(package.versions[i].1),
        None => Err(Error::VersionRangeResolveError),
    }
}

/// The view of a selection: the view of the metadata, or the error.
pub open spec fn selection_view(res: Result<NpmPackageVersion, Error>) -> Result<
    NpmPackageVersionView,
    Error,
> {
    match res {
        Ok(version) => Ok(version@),
        Err(error) => Err(error),
    }
}

/// The version that a tag-to-version map holds for the tag `latest`.
fn latest_tag(tags: &Vec<(String, Version)>) -> (res: Option<&Version>)
    ensures
        match first_index(tag_names(versions_by_tag(tags@)), LATEST@) {
            Some(i) => res is Some && res->Some_0@ == versions_by_tag(tags@)[i].1,
            None => res is None,
        },
{
    let ghost names = tag_names(versions_by_tag(tags@));
    let latest = String::from_str(LATEST);
    let mut i: usize = 0;
    while i < tags.len()
        invariant
            i <= tags.len(),
            latest@ == LATEST@,
            names == tag_names(versions_by_tag(tags@)),
            forall|j: int| 0 <= j < i ==> names[j] != LATEST@,
        decreases tags.len() - i,
    {
        if tags[i].0 == latest {
            proof {
                assert(names[i as int] == LATEST@);
                lemma_first_index_found(names, LATEST@, i as int);
            }
            return Some(&tags[i].1);
        }
        assert(names[i as int] != LATEST@);
        i += 1;
    }
    proof {
        lemma_first_index_absent(names, LATEST@);
    }
    None
}

/// The version that the tag `latest` names.
pub fn resolve_latest(package: &NpmResolvedPackage) -> (res: Result<NpmPackageVersion, Error>)
    ensures
        selection_view(res) == version_at(package@, latest_index(package@)),
{
    assert(listed_versions(package@) =~= version_keys(versions_of(package.versions)));
    match latest_tag(&package.dist_tags) {
        Some(latest) => match versions_get(&package.versions, latest.as_str()) {
            Some(version) => Ok(version.clone()),
            None => Err(Error::VersionRangeResolveError),
        },
        None => Err(Error::VersionRangeResolveError),
    }
}

/// The last position of `flags` that holds `true`.
pub fn newest_flagged(flags: &Vec<bool>) -> (res: Option<usize>)
    ensures
        match res {
            Some(i) => last_true(flags@) == Some(i as int),
            None => last_true(flags@) is None,
        },
{
    let mut i: usize = flags.len();
    while i > 0
        invariant
            i <= flags.len(),
            forall|j: int| i <= j < flags.len() ==> !flags@[j],
        decreases i,
    {
        i -= 1;
        if flags[i] {
            proof {
                lemma_last_true_found(flags@, i as int);
            }
            return Some(i);
        }
    }
    proof {
        assert forall|k: int| !is_last_true(flags@, k) by {}
    }
    None
}

/// A last position is the only last position.
pub proof fn lemma_last_true_found(flags: Seq<bool>, i: int)
    requires
        is_last_true(flags, i),
    ensures
        last_true(flags) == Some(i),
{
    let j = choose|j: int| is_last_true(flags, j);
    assert(is_last_true(flags, j));
    if j < i {
        assert(!flags[i]);
    } else if i < j {
        assert(!flags[j]);
    }
}

/// The newest version of the package that is flagged: the last in registry
/// order whose flag is set. `flags` holds one flag for each version, in the
/// same order; a flag without a version counts for nothing.
pub fn pick_newest(package: &NpmResolvedPackage, flags: &Vec<bool>) -> (res: Result<
    NpmPackageVersion,
    Error,
>)
    ensures
        selection_view(res) == match last_true(flags@) {
            Some(i) if i < package@.versions.len() => Ok(package@.versions[i].1),
            _ => Err(Error::VersionRangeResolveError),
        },
{
    match newest_flagged(flags) {
        Some(i) => match versions_get_index(&package.versions, i) {
            Some((_, version)) => Ok(version.clone()),
            None => Err(Error::VersionRangeResolveError),
        },
        None => Err(Error::VersionRangeResolveError),
    }
}

/// The version of `package` that `version_range` stands for: for `latest`
/// the version that the tag names, for a semver range the newest listed
/// version that satisfies it, newest meaning last in registry order. Fails
/// where the range stands for no version of the package.
pub fn resolve_version_from_version_range(
    package: &NpmResolvedPackage,
    version_range: &VersionRangeSpecifier,
) -> (res: Result<NpmPackageVersion, Error>)
    ensures
        selection_view(res) == version_at(package@, selected_index(package@, version_range@)),
{
    let latest = VersionRangeSpecifier::new(String::from_str(LATEST));
    if version_range.same_as(&latest) {
        return resolve_latest(package);
    }
    let text = version_range.as_str();
    if !range_text_is_safe(text) {
        return Err(Error::VersionRangeResolveError);
    }
    let range = match parse_range(text) {
        Ok(range) => range,
        Err(_) => {
            return Err(Error::VersionRangeResolveError);
        },
    };
    let ghost entries = versions_of(package.versions);
    let n = versions_len(&package.versions);
    let mut flags: Vec<bool> = Vec::new();
    let mut i: usize = 0;
    while i < n
        invariant
            i <= n,
            n == entries.len(),
            entries == versions_of(package.versions),
            range.source() == version_range@,
            flags@ == range_flags(package@, version_range@).take(i as int),
        decreases n - i,
    {
        let satisfied = match versions_get_index(&package.versions, i) {
            Some((key, _)) => match parse_version(key.as_str()) {
                Ok(version) => version_satisfies(&version, &range),
                Err(_) => false,
            },
            None => false,
        };
        flags.push(satisfied);
        assert(flags@ =~= range_flags(package@, version_range@).take(i + 1));
        i += 1;
    }
    assert(flags@ =~= range_flags(package@, version_range@));
    pick_newest(package, &flags)
}

/// Selection is a function of the metadata and the range: the same
/// metadata and the same range text select the same version, whenever and
/// wherever they are asked.
pub proof fn lemma_selection_is_deterministic(
    first: NpmResolvedPackage,
    second: NpmResolvedPackage,
    range: VersionRangeSpecifier,
    other_range: VersionRangeSpecifier,
)
    requires
        first@ == second@,
        range@ == other_range@,
    ensures
        version_at(first@, selected_index(first@, range@)) == version_at(
            second@,
            selected_index(second@, other_range@),
        ),
{
}

} // verus!
