//! Planning the download: which archives to fetch, where each is unpacked,
//! and what to do with each entry of an archive.

use crate::npm::{
    NpmPackageVersionView, ResolvedDependencies, ResolvedDependenciesView, UrlString, Version,
    resolved_views,
};
use crate::outcome::IoOutcome;
use crate::paths::{join, joined, parent, parent_dir, versioned, with_version};
use crate::text::{has_prefix, option_chars, starts_with};
use crate::STORE_FOLDER;
use vstd::prelude::*;

verus! {

#[derive(Debug, PartialEq, Eq, Clone, Copy, Structural)]
pub enum Error {
    UnpackError,
}

impl Error {
    pub fn to_string(&self) -> (res: String)
        ensures
            res@ == "UnpackError"@,
    {
        String::from_str("UnpackError")
    }
}

/// Where the archive of `name` at `version` is unpacked:
/// `<store>/<name>@<version>`, with the name as it is.
pub open spec fn store_package_path(name: Seq<char>, version: Seq<char>) -> Seq<char> {
    joined(STORE_FOLDER@, versioned(name, version))
}

pub fn get_store_package_path(package_name: &String, version: &Version) -> (res: String)
    ensures
        res@ == store_package_path(package_name@, version@),
{
    let folder = with_version(package_name.as_str(), version.as_str());
    join(STORE_FOLDER, folder.as_str())
}

/// One archive to fetch and unpack.
#[derive(Debug, PartialEq, Eq)]
pub struct Download {
    pub name: String,
    pub version: Version,
    pub tarball: UrlString,
}

pub struct DownloadView {
    pub name: Seq<char>,
    pub version: Seq<char>,
    pub tarball: Seq<char>,
}

impl View for Download {
    type V = DownloadView;

    open spec fn view(&self) -> DownloadView {
        DownloadView { name: self.name@, version: self.version@, tarball: self.tarball@ }
    }
}

pub open spec fn download_views(values: Seq<Download>) -> Seq<DownloadView> {
    Seq::new(values.len(), |i: int| values[i]@)
}

/// The archive that holds a version.
pub open spec fn download_of(version: NpmPackageVersionView) -> DownloadView {
    DownloadView { name: version.name, version: version.version, tarball: version.dist.tarball }
}

/// Package `i` has the archive of an earlier package of the list.
pub open spec fn archive_seen_before(packages: Seq<ResolvedDependenciesView>, i: int) -> bool {
    exists|j: int|
        0 <= j < i && (#[trigger] packages[j]).version.dist.tarball
            == packages[i].version.dist.tarball
}

/// The downloads for the first `n` packages: one for each package whose
/// archive no earlier package has, in the order of the list.
pub open spec fn downloads_upto(packages: Seq<ResolvedDependenciesView>, n: int) -> Seq<
    DownloadView,
>
    decreases n,
{
    if n <= 0 {
        Seq::empty()
    } else if archive_seen_before(packages, n - 1) {
        downloads_upto(packages, n - 1)
    } else {
        downloads_upto(packages, n - 1).push(download_of(packages[n - 1].version))
    }
}

/// The downloads for a resolved set.
pub open spec fn downloads_for(packages: Seq<ResolvedDependenciesView>) -> Seq<DownloadView> {
    downloads_upto(packages, packages.len() as int)
}

/// The packages of a resolved set that the caller asked for.
pub open spec fn root_packages(packages: Seq<ResolvedDependenciesView>) -> Seq<
    ResolvedDependenciesView,
> {
    packages.filter(|p: ResolvedDependenciesView| p.is_root)
}

/// The archives to fetch for a resolved set: each archive once, however many
/// packages of the set share it.
pub fn plan_downloads(packages: &Vec<ResolvedDependencies>) -> (res: Vec<Download>)
    ensures
        download_views(res@) == downloads_for(resolved_views(packages@)),
{
    let ghost views = resolved_views(packages@);
    let mut out: Vec<Download> = Vec::new();
    let mut i: usize = 0;
    while i < packages.len()
        invariant
            i <= packages.len(),
            views == resolved_views(packages@),
            download_views(out@) == downloads_upto(views, i as int),
        decreases packages.len() - i,
    {
        let url = &packages[i].version.dist.tarball;
        let mut seen = false;
        let mut j: usize = 0;
        while j < i && !seen
            invariant
                j <= i < packages.len(),
                views == resolved_views(packages@),
                *url == packages@[i as int].version.dist.tarball,
                seen ==> archive_seen_before(views, i as int),
                !seen ==> forall|k: int|
                    0 <= k < j ==> (#[trigger] views[k]).version.dist.tarball
                        != views[i as int].version.dist.tarball,
            decreases i - j + (if seen { 0int } else { 1int }),
        {
            if packages[j].version.dist.tarball.same_as(url) {
                assert(views[j as int].version.dist.tarball == views[i as int].version.dist.tarball);
                seen = true;
            } else {
                j += 1;
            }
        }
        if !seen {
            let package = &packages[i].version;
            out.push(
                Download {
                    name: package.name.clone(),
                    version: package.version.clone(),
                    tarball: package.dist.tarball.clone(),
                },
            );
            assert(download_views(out@) =~= downloads_upto(views, i as int).push(
                download_of(views[i as int].version),
            ));
        }
        i += 1;
    }
    out
}

/// The packages of a resolved set that the caller asked for, in the order of
/// the set. They are the ones that get a link at the top of the project.
pub fn top_level_packages(packages: &Vec<ResolvedDependencies>) -> (res: Vec<ResolvedDependencies>)
    ensures
        resolved_views(res@) == root_packages(resolved_views(packages@)),
{
    let ghost views = resolved_views(packages@);
    let ghost is_root = |p: ResolvedDependenciesView| p.is_root;
    let mut out: Vec<ResolvedDependencies> = Vec::new();
    let mut i: usize = 0;
    proof {
        reveal(Seq::filter);
        assert(views.take(0).filter(is_root) =~= Seq::empty());
    }
    while i < packages.len()
        invariant
            i <= packages.len(),
            views == resolved_views(packages@),
            is_root == |p: ResolvedDependenciesView| p.is_root,
            resolved_views(out@) == views.take(i as int).filter(is_root),
        decreases packages.len() - i,
    {
        proof {
            reveal(Seq::filter);
            assert(views.take(i + 1).drop_last() =~= views.take(i as int));
        }
        if packages[i].is_root {
            out.push(packages[i].clone());
            assert(resolved_views(out@) =~= views.take(i as int).filter(is_root).push(
                views[i as int],
            ));
        }
        i += 1;
    }
    assert(views.take(packages.len() as int) =~= views);
    out
}

/// `download` is the archive of one of the first `n` packages.
pub open spec fn is_archive_among(
    packages: Seq<ResolvedDependenciesView>,
    n: int,
    download: DownloadView,
) -> bool {
    exists|i: int| 0 <= i < n && download_of((#[trigger] packages[i]).version) == download
}

/// One of `downloads` fetches the archive at `url`.
pub open spec fn fetches(downloads: Seq<DownloadView>, url: Seq<char>) -> bool {
    exists|a: int| 0 <= a < downloads.len() && (#[trigger] downloads[a]).tarball == url
}

/// No two of `downloads` fetch the same archive.
pub open spec fn archives_distinct(downloads: Seq<DownloadView>) -> bool {
    forall|a: int, b: int|
        0 <= a < b < downloads.len() ==> (#[trigger] downloads[a]).tarball
            != (#[trigger] downloads[b]).tarball
}

/// Each archive of a resolved set is fetched exactly once: no two downloads
/// of the plan name the same archive, every download is the archive of some
/// package of the set, and every package's archive is among the downloads.
pub proof fn lemma_one_download_per_archive(packages: Seq<ResolvedDependenciesView>)
    ensures
        archives_distinct(downloads_for(packages)),
        forall|a: int|
            0 <= a < downloads_for(packages).len() ==> is_archive_among(
                packages,
                packages.len() as int,
                #[trigger] downloads_for(packages)[a],
            ),
        forall|i: int|
            0 <= i < packages.len() ==> fetches(
                downloads_for(packages),
                (#[trigger] packages[i]).version.dist.tarball,
            ),
{
    lemma_downloads_upto(packages, packages.len() as int);
}

proof fn lemma_downloads_upto(packages: Seq<ResolvedDependenciesView>, n: int)
    requires
        0 <= n <= packages.len(),
    ensures
        archives_distinct(downloads_upto(packages, n)),
        forall|a: int|
            0 <= a < downloads_upto(packages, n).len() ==> is_archive_among(
                packages,
                n,
                #[trigger] downloads_upto(packages, n)[a],
            ),
        forall|i: int|
            0 <= i < n ==> fetches(
                downloads_upto(packages, n),
                (#[trigger] packages[i]).version.dist.tarball,
            ),
    decreases n,
{
    if n > 0 {
        lemma_downloads_upto(packages, n - 1);
        let before = downloads_upto(packages, n - 1);
        let now = downloads_upto(packages, n);
        let url = packages[n - 1].version.dist.tarball;
        if archive_seen_before(packages, n - 1) {
            let j = choose|j: int|
                0 <= j < n - 1 && (#[trigger] packages[j]).version.dist.tarball == url;
            assert(fetches(before, packages[j].version.dist.tarball));
            assert forall|a: int| 0 <= a < now.len() implies is_archive_among(
                packages,
                n,
                #[trigger] now[a],
            ) by {
                assert(is_archive_among(packages, n - 1, before[a]));
                let i = choose|i: int|
                    0 <= i < n - 1 && download_of((#[trigger] packages[i]).version) == before[a];
                assert(download_of(packages[i].version) == now[a]);
            }
        } else {
            let last = before.len() as int;
            assert(now[last] == download_of(packages[n - 1].version));
            assert forall|a: int, b: int| 0 <= a < b < now.len() implies (#[trigger] now[a]).tarball
                != (#[trigger] now[b]).tarball by {
                if b == last {
                    assert(is_archive_among(packages, n - 1, before[a]));
                    let i = choose|i: int|
                        0 <= i < n - 1 && download_of((#[trigger] packages[i]).version)
                            == before[a];
                    assert(packages[i].version.dist.tarball == now[a].tarball);
                } else {
                    assert(before[a].tarball != before[b].tarball);
                }
            }
            assert forall|a: int| 0 <= a < now.len() implies is_archive_among(
                packages,
                n,
                #[trigger] now[a],
            ) by {
                if a == last {
                    assert(download_of(packages[n - 1].version) == now[a]);
                } else {
                    assert(is_archive_among(packages, n - 1, before[a]));
                    let i = choose|i: int|
                        0 <= i < n - 1 && download_of((#[trigger] packages[i]).version)
                            == before[a];
                    assert(download_of(packages[i].version) == now[a]);
                }
            }
            assert forall|i: int| 0 <= i < n implies fetches(
                now,
                (#[trigger] packages[i]).version.dist.tarball,
            ) by {
                if i < n - 1 {
                    assert(fetches(before, packages[i].version.dist.tarball));
                    let a2 = choose|a2: int|
                        0 <= a2 < before.len() && (#[trigger] before[a2]).tarball
                            == packages[i].version.dist.tarball;
                    assert(now[a2].tarball == packages[i].version.dist.tarball);
                } else {
                    assert(now[last].tarball == packages[i].version.dist.tarball);
                }
            }
        }
    }
}

/// The folder that an npm archive wraps its files in.
pub const ARCHIVE_ROOT: &'static str = "package";

/// The path of an archive entry below the store directory of its package:
/// the entry's own path without the leading `package` component, if it has
/// one.
pub open spec fn stripped_entry_path(path: Seq<char>) -> Seq<char> {
    if path == ARCHIVE_ROOT@ {
        Seq::empty()
    } else if has_prefix(path, ARCHIVE_ROOT@ + seq!['/']) {
        path.skip(ARCHIVE_ROOT@.len() as int + 1)
    } else {
        path
    }
}

/// The path of an archive entry below the store directory of its package.
pub fn strip_package_prefix(path: &String) -> (res: String)
    ensures
        res@ == stripped_entry_path(path@),
{
    let root = String::from_str(ARCHIVE_ROOT);
    if *path == root {
        return String::new();
    }
    let mut prefix = root;
    prefix.append("/");
    proof {
        reveal_strlit("/");
        assert(prefix@ =~= ARCHIVE_ROOT@ + seq!['/']);
    }
    let text = path.as_str();
    if starts_with(text, prefix.as_str()) {
        let from = prefix.as_str().unicode_len();
        let to = text.unicode_len();
        let rest = text.substring_char(from, to);
        assert(rest@ =~= path@.skip(ARCHIVE_ROOT@.len() as int + 1));
        String::from_str(rest)
    } else {
        path.clone()
    }
}

/// What to do with one entry of an archive.
#[derive(Debug, PartialEq, Eq)]
pub enum EntryAction {
    /// An entry of the same path was unpacked before: leave this one out.
    Skip,
    /// Make `directory`, if there is one, with the directories above it, and
    /// unpack the entry to `destination`.
    Unpack { directory: Option<String>, destination: String },
}

pub enum EntryActionView {
    Skip,
    Unpack { directory: Option<Seq<char>>, destination: Seq<char> },
}

impl View for EntryAction {
    type V = EntryActionView;

    open spec fn view(&self) -> EntryActionView {
        match self {
            EntryAction::Skip => EntryActionView::Skip,
            EntryAction::Unpack { directory, destination } => EntryActionView::Unpack {
                directory: option_chars(*directory),
                destination: destination@,
            },
        }
    }
}

/// The unpacking of one archive: where it goes, and which paths of it have
/// been unpacked so far.
#[derive(Debug)]
pub struct Extraction {
    destination: String,
    extracted: Vec<String>,
}

pub struct ExtractionView {
    pub destination: Seq<char>,
    pub extracted: Seq<Seq<char>>,
}

/// What unpacking the entry `path` into `destination` asks for, where the
/// stripped path was not unpacked before.
pub open spec fn unpack_action(destination: Seq<char>, path: Seq<char>) -> EntryActionView {
    EntryActionView::Unpack {
        directory: match parent_dir(path) {
            Some(dir) => Some(joined(destination, dir)),
            None => None,
        },
        destination: joined(destination, path),
    }
}

impl View for Extraction {
    type V = ExtractionView;

    closed spec fn view(&self) -> ExtractionView {
        ExtractionView {
            destination: self.destination@,
            extracted: Seq::new(self.extracted@.len(), |i: int| self.extracted@[i]@),
        }
    }
}

impl Extraction {
    /// The state before the first entry of the archive of `package_name` at
    /// `version`.
    pub fn begin(package_name: &String, version: &Version) -> (res: Extraction)
        ensures
            res@.destination == store_package_path(package_name@, version@),
            res@.extracted == Seq::<Seq<char>>::empty(),
    {
        let res = Extraction {
            destination: get_store_package_path(package_name, version),
            extracted: Vec::new(),
        };
        assert(res@.extracted =~= Seq::<Seq<char>>::empty());
        res
    }

    /// The directory that the archive is unpacked into.
    pub fn destination(&self) -> (res: &String)
        ensures
            res@ == self@.destination,
    {
        &self.destination
    }

    /// Whether an entry with this stripped path was unpacked before.
    fn has_extracted(&self, path: &String) -> (res: bool)
        ensures
            res == self@.extracted.contains(path@),
    {
        let mut i: usize = 0;
        while i < self.extracted.len()
            invariant
                i <= self.extracted.len(),
                forall|j: int| 0 <= j < i ==> self@.extracted[j] != path@,
            decreases self.extracted.len() - i,
        {
            if self.extracted[i] == *path {
                assert(self@.extracted[i as int] == path@);
                return true;
            }
            i += 1;
        }
        false
    }

    /// Decides what happens to the next entry of the archive, whose path in
    /// the archive is `entry_path`. A path is unpacked once: a later entry of
    /// the same stripped path is skipped and changes nothing.
    pub fn next_entry(&mut self, entry_path: &String) -> (action: EntryAction)
        ensures
            final(self)@.destination == old(self)@.destination,
            old(self)@.extracted.contains(stripped_entry_path(entry_path@)) ==> action@
                == EntryActionView::Skip && final(self)@ == old(self)@,
            !old(self)@.extracted.contains(stripped_entry_path(entry_path@)) ==> action@
                == unpack_action(old(self)@.destination, stripped_entry_path(entry_path@))
                && final(self)@.extracted == old(self)@.extracted.push(
                stripped_entry_path(entry_path@),
            ),
            old(self)@.extracted.no_duplicates() ==> final(self)@.extracted.no_duplicates(),
    {
        let path = strip_package_prefix(entry_path);
        if self.has_extracted(&path) {
            return EntryAction::Skip;
        }
        let directory = match parent(path.as_str()) {
            Some(dir) => Some(join(self.destination.as_str(), dir.as_str())),
            None => None,
        };
        let destination = join(self.destination.as_str(), path.as_str());
        self.extracted.push(path);
        assert(self@.extracted =~= old(self)@.extracted.push(stripped_entry_path(entry_path@)));
        EntryAction::Unpack { directory, destination }
    }
}

/// Whether the unpacking of an archive goes on after a directory was made
/// for one of its entries with this outcome. A directory that exists already
/// is no failure; any other failure ends the archive.
pub fn after_directory(outcome: IoOutcome) -> (res: Result<(), Error>)
    ensures
        res is Ok <==> outcome.is_absorbed(),
        res is Err ==> res == Err::<(), Error>(Error::UnpackError),
{
    if outcome.absorbed() {
        Ok(())
    } else {
        Err(Error::UnpackError)
    }
}

/// Whether the unpacking of an archive goes on after an entry was unpacked
/// with this outcome. Only an entry that was unpacked counts.
pub fn after_unpack(outcome: IoOutcome) -> (res: Result<(), Error>)
    ensures
        res is Ok <==> outcome == IoOutcome::Done,
        res is Err ==> res == Err::<(), Error>(Error::UnpackError),
{
    match outcome {
        IoOutcome::Done => Ok(()),
        _ => Err(Error::UnpackError),
    }
}

} // verus!
