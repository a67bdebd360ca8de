//! What holds of every run of the resolver: the root flags follow what the
//! caller asked for, a resolved set holds each package once, and recording
//! never takes a line away.

use crate::dependency_resolver::{
    ResolvedEntryView, direct_deps_upto, entry_index, entry_keys, has_name, keys_distinct,
    package_at, package_seen_before, packages_of, packages_upto, recorded, requested,
    requests_upto, same_package, seeds_upto,
};
use crate::lookup::{lemma_first_index, lemma_first_index_found};
use crate::npm::{NpmPackageVersionView, ResolvedDependenciesView};
use vstd::prelude::*;

verus! {

/// The caller asked for `range` of `name`.
pub open spec fn is_requested(roots: Seq<(Seq<char>, Seq<char>)>, name: Seq<char>, range: Seq<char>) -> bool {
    exists|k: int| 0 <= k < roots.len() && #[trigger] roots[k] == (name, range)
}

/// No name is requested twice.
pub open spec fn names_distinct(roots: Seq<(Seq<char>, Seq<char>)>) -> bool {
    forall|i: int, j: int|
        0 <= i < j < roots.len() ==> (#[trigger] roots[i]).0 != (#[trigger] roots[j]).0
}

/// The root flags of a table agree with what the caller asked for: a line
/// is a root exactly if its name and range were requested, no key has two
/// lines, and a requested name that has any line has the line of its
/// requested range.
pub open spec fn flags_agree(table: Seq<ResolvedEntryView>, roots: Seq<(Seq<char>, Seq<char>)>) -> bool {
    &&& keys_distinct(table)
    &&& forall|i: int|
        0 <= i < table.len() ==> ((#[trigger] table[i]).is_root <==> is_requested(
            roots,
            table[i].name,
            table[i].range,
        ))
    &&& forall|i: int, k: int|
        0 <= i < table.len() && 0 <= k < roots.len() && (#[trigger] table[i]).name
            == (#[trigger] roots[k]).0 ==> entry_index(table, roots[k].0, roots[k].1) is Some
}

/// `entry` is what a fetch of the resolver brought under the name that was
/// fetched: as a root, the fetch was one of the first, for a requested name
/// and range; otherwise it was started for a dependency, whose package the
/// table held by then.
pub open spec fn answers_request(
    table: Seq<ResolvedEntryView>,
    roots: Seq<(Seq<char>, Seq<char>)>,
    entry: ResolvedEntryView,
) -> bool {
    if entry.is_root {
        is_requested(roots, entry.name, entry.range)
    } else {
        has_name(table, entry.name)
    }
}

/// The table after the first `n` of `events` were recorded, one after the
/// other.
pub open spec fn table_after(events: Seq<ResolvedEntryView>, n: int) -> Seq<ResolvedEntryView>
    decreases n,
{
    if n <= 0 {
        Seq::empty()
    } else {
        recorded(table_after(events, n - 1), events[n - 1])
    }
}

/// Each of `events` answers a request, in the table as the events before it
/// left it.
pub open spec fn answer_requests(roots: Seq<(Seq<char>, Seq<char>)>, events: Seq<ResolvedEntryView>) -> bool {
    forall|n: int|
        0 <= n < events.len() ==> answers_request(table_after(events, n), roots, #[trigger] events[n])
}

/// One of the requested pairs was resolved to the package of `version`.
pub open spec fn resolved_from_request(
    table: Seq<ResolvedEntryView>,
    roots: Seq<(Seq<char>, Seq<char>)>,
    version: NpmPackageVersionView,
) -> bool {
    exists|k: int|
        0 <= k < roots.len() && match entry_index(
            table,
            (#[trigger] roots[k]).0,
            roots[k].1,
        ) {
            Some(i) => same_package(table[i].version, version),
            None => false,
        }
}

/// A line of the table is still the line of its key after another entry
/// was recorded.
pub proof fn lemma_recorded_keeps_lines(
    table: Seq<ResolvedEntryView>,
    entry: ResolvedEntryView,
    name: Seq<char>,
    range: Seq<char>,
)
    ensures
        recorded(table, entry).len() >= table.len(),
        forall|i: int| 0 <= i < table.len() ==> recorded(table, entry)[i] == table[i],
        entry_index(table, name, range) is Some ==> entry_index(recorded(table, entry), name, range)
            == entry_index(table, name, range),
        has_name(table, name) ==> has_name(recorded(table, entry), name),
        entry_index(recorded(table, entry), entry.name, entry.range) is Some,
{
    let after = recorded(table, entry);
    lemma_first_index(entry_keys(table), (name, range));
    if entry_index(table, name, range) is Some {
        let i = entry_index(table, name, range)->Some_0;
        assert(entry_keys(after)[i] == (name, range));
        assert forall|j: int| 0 <= j < i implies entry_keys(after)[j] != (name, range) by {
            assert(entry_keys(table)[j] != (name, range));
        }
        lemma_first_index_found(entry_keys(after), (name, range), i);
    }
    if has_name(table, name) {
        let i = choose|i: int| 0 <= i < table.len() && (#[trigger] table[i]).name == name;
        assert(after[i].name == name);
    }
    lemma_first_index(entry_keys(table), (entry.name, entry.range));
    if entry_index(table, entry.name, entry.range) is None {
        let last = table.len() as int;
        assert(entry_keys(after)[last] == (entry.name, entry.range));
        assert forall|j: int| 0 <= j < last implies entry_keys(after)[j] != (
            entry.name,
            entry.range,
        ) by {
            assert(entry_keys(table)[j] != (entry.name, entry.range));
        }
        lemma_first_index_found(entry_keys(after), (entry.name, entry.range), last);
    }
}

/// Recording an entry that answers a request keeps the root flags in
/// agreement with what the caller asked for.
pub proof fn lemma_flags_agree_after_record(
    table: Seq<ResolvedEntryView>,
    roots: Seq<(Seq<char>, Seq<char>)>,
    entry: ResolvedEntryView,
)
    requires
        names_distinct(roots),
        flags_agree(table, roots),
        answers_request(table, roots, entry),
    ensures
        flags_agree(recorded(table, entry), roots),
{
    let after = recorded(table, entry);
    lemma_first_index(entry_keys(table), (entry.name, entry.range));
    if entry_index(table, entry.name, entry.range) is None {
        let last = table.len() as int;
        assert forall|i: int, j: int| 0 <= i < j < after.len() implies (#[trigger] after[i]).name
            != (#[trigger] after[j]).name || after[i].range != after[j].range by {
            if j == last {
                assert(entry_keys(table)[i] != (entry.name, entry.range));
            }
        }
        assert forall|i: int, k: int|
            0 <= i < after.len() && 0 <= k < roots.len() && (#[trigger] after[i]).name
                == (#[trigger] roots[k]).0 implies entry_index(after, roots[k].0, roots[k].1)
            is Some by {
            lemma_recorded_keeps_lines(table, entry, roots[k].0, roots[k].1);
            if i == last && entry.is_root {
                let k2 = choose|k2: int|
                    0 <= k2 < roots.len() && #[trigger] roots[k2] == (entry.name, entry.range);
                assert(k2 == k);
            } else if i == last {
                let i2 = choose|i2: int|
                    0 <= i2 < table.len() && (#[trigger] table[i2]).name == entry.name;
                assert(entry_index(table, roots[k].0, roots[k].1) is Some);
            } else {
                assert(table[i].name == roots[k].0);
            }
        }
        assert forall|i: int| 0 <= i < after.len() implies ((#[trigger] after[i]).is_root
            <==> is_requested(roots, after[i].name, after[i].range)) by {
            if i == last && !entry.is_root && is_requested(roots, entry.name, entry.range) {
                let k = choose|k: int|
                    0 <= k < roots.len() && #[trigger] roots[k] == (entry.name, entry.range);
                let i2 = choose|i2: int|
                    0 <= i2 < table.len() && (#[trigger] table[i2]).name == entry.name;
                assert(table[i2].name == roots[k].0);
                assert(entry_index(table, roots[k].0, roots[k].1) is Some);
            } else if i < last {
                assert(after[i] == table[i]);
            }
        }
    }
}

/// A fetch that resolution starts with is a root for a requested pair, and a
/// fetch that a chosen version gives rise to is no root and is for a package
/// that the table holds. So what such a fetch brings under the name that was
/// fetched answers a request.
pub proof fn lemma_requests_are_answerable(
    table: Seq<ResolvedEntryView>,
    dependencies: Seq<(Seq<char>, Seq<char>)>,
    n: int,
)
    requires
        0 <= n <= dependencies.len(),
    ensures
        forall|a: int|
            0 <= a < seeds_upto(dependencies, n).len() ==> (#[trigger] seeds_upto(
                dependencies,
                n,
            )[a]).is_root && is_requested(
                dependencies,
                seeds_upto(dependencies, n)[a].name,
                seeds_upto(dependencies, n)[a].range,
            ),
        forall|a: int|
            0 <= a < requests_upto(table, dependencies, n).len() ==> !(#[trigger] requests_upto(
                table,
                dependencies,
                n,
            )[a]).is_root && has_name(table, requests_upto(table, dependencies, n)[a].name),
    decreases n,
{
    if n > 0 {
        lemma_requests_are_answerable(table, dependencies, n - 1);
        let seeds = seeds_upto(dependencies, n);
        assert forall|a: int| 0 <= a < seeds.len() implies (#[trigger] seeds[a]).is_root
            && is_requested(dependencies, seeds[a].name, seeds[a].range) by {
            if a < seeds_upto(dependencies, n - 1).len() {
                assert(seeds[a] == seeds_upto(dependencies, n - 1)[a]);
            } else {
                assert(dependencies[n - 1] == (seeds[a].name, seeds[a].range));
            }
        }
        let requests = requests_upto(table, dependencies, n);
        assert forall|a: int| 0 <= a < requests.len() implies !(#[trigger] requests[a]).is_root
            && has_name(table, requests[a].name) by {
            if a < requests_upto(table, dependencies, n - 1).len() {
                assert(requests[a] == requests_upto(table, dependencies, n - 1)[a]);
            }
        }
    }
}

/// `package` is what one of the first `n` lines of the table stands for.
pub open spec fn is_package_among(
    table: Seq<ResolvedEntryView>,
    n: int,
    package: ResolvedDependenciesView,
) -> bool {
    exists|i: int| 0 <= i < n && #[trigger] package_at(table, i) == package
}

/// Every package of a resolved set is the package of a line of the table,
/// with the root flag that the lines of that package give it.
pub proof fn lemma_packages_come_from_lines(table: Seq<ResolvedEntryView>, n: int)
    requires
        0 <= n <= table.len(),
    ensures
        forall|a: int|
            0 <= a < packages_upto(table, n).len() ==> is_package_among(
                table,
                n,
                #[trigger] packages_upto(table, n)[a],
            ),
    decreases n,
{
    if n > 0 {
        lemma_packages_come_from_lines(table, n - 1);
        let before = packages_upto(table, n - 1);
        let now = packages_upto(table, n);
        assert forall|a: int| 0 <= a < now.len() implies is_package_among(
            table,
            n,
            #[trigger] now[a],
        ) by {
            if a < before.len() {
                assert(is_package_among(table, n - 1, before[a]));
                let i = choose|i: int| 0 <= i < n - 1 && #[trigger] package_at(table, i) == before[a];
                assert(package_at(table, i) == now[a]);
            } else {
                assert(package_at(table, n - 1) == now[a]);
            }
        }
    }
}

/// The root flag. Take any run of the resolver for the requested pairs
/// `roots`, no name requested twice, in which every recorded entry answers a
/// request under the name that was fetched. Then the root flags of the table
/// agree with `roots` after every event, and a package of the resolved set is
/// a root exactly if one of the requested pairs was resolved to it.
pub proof fn lemma_root_flag(roots: Seq<(Seq<char>, Seq<char>)>, events: Seq<ResolvedEntryView>)
    requires
        names_distinct(roots),
        answer_requests(roots, events),
    ensures
        forall|n: int| 0 <= n <= events.len() ==> flags_agree(#[trigger] table_after(events, n), roots),
        forall|a: int|
            0 <= a < packages_of(table_after(events, events.len() as int)).len() ==> ((
            #[trigger] packages_of(table_after(events, events.len() as int))[a]).is_root
                <==> resolved_from_request(
                table_after(events, events.len() as int),
                roots,
                packages_of(table_after(events, events.len() as int))[a].version,
            )),
{
    assert forall|n: int| 0 <= n <= events.len() implies flags_agree(
        #[trigger] table_after(events, n),
        roots,
    ) by {
        lemma_flags_agree_in_run(roots, events, n);
    }
    let table = table_after(events, events.len() as int);
    lemma_packages_come_from_lines(table, table.len() as int);
    assert forall|a: int| 0 <= a < packages_of(table).len() implies ((#[trigger] packages_of(
        table,
    )[a]).is_root <==> resolved_from_request(table, roots, packages_of(table)[a].version)) by {
        let package = packages_of(table)[a];
        assert(is_package_among(table, table.len() as int, package));
        let i = choose|i: int| 0 <= i < table.len() && #[trigger] package_at(table, i) == package;
        if package.is_root {
            let l = choose|l: int|
                0 <= l < table.len() && same_package((#[trigger] table[l]).version, table[i].version)
                    && table[l].is_root;
            let k = choose|k: int|
                0 <= k < roots.len() && #[trigger] roots[k] == (table[l].name, table[l].range);
            lemma_first_index(entry_keys(table), roots[k]);
            assert(entry_keys(table)[l] == roots[k]);
            let j = entry_index(table, roots[k].0, roots[k].1)->Some_0;
            assert(entry_keys(table)[j] == roots[k]);
            assert(j == l);
        }
        if resolved_from_request(table, roots, package.version) {
            let k = choose|k: int|
                0 <= k < roots.len() && match entry_index(
                    table,
                    (#[trigger] roots[k]).0,
                    roots[k].1,
                ) {
                    Some(i) => same_package(table[i].version, package.version),
                    None => false,
                };
            lemma_first_index(entry_keys(table), roots[k]);
            let j = entry_index(table, roots[k].0, roots[k].1)->Some_0;
            assert(entry_keys(table)[j] == roots[k]);
            assert(roots[k] == (table[j].name, table[j].range));
            assert(table[j].is_root);
            assert(requested(table, i));
        }
    }
}

proof fn lemma_flags_agree_in_run(
    roots: Seq<(Seq<char>, Seq<char>)>,
    events: Seq<ResolvedEntryView>,
    n: int,
)
    requires
        names_distinct(roots),
        answer_requests(roots, events),
        0 <= n <= events.len(),
    ensures
        flags_agree(table_after(events, n), roots),
    decreases n,
{
    if n > 0 {
        lemma_flags_agree_in_run(roots, events, n - 1);
        assert(answers_request(table_after(events, n - 1), roots, events[n - 1]));
        lemma_flags_agree_after_record(table_after(events, n - 1), roots, events[n - 1]);
    }
}

/// Recording keeps the keys of a table distinct.
pub proof fn lemma_recorded_keeps_keys_distinct(table: Seq<ResolvedEntryView>, entry: ResolvedEntryView)
    requires
        keys_distinct(table),
    ensures
        keys_distinct(recorded(table, entry)),
{
    let after = recorded(table, entry);
    lemma_first_index(entry_keys(table), (entry.name, entry.range));
    assert forall|i: int, j: int| 0 <= i < j < after.len() implies (#[trigger] after[i]).name
        != (#[trigger] after[j]).name || after[i].range != after[j].range by {
        if j == table.len() {
            assert(entry_keys(table)[i] != (entry.name, entry.range));
        }
    }
}

/// A resolved set holds each package once: no two of its members have the
/// same name and version.
pub proof fn lemma_packages_are_distinct(table: Seq<ResolvedEntryView>)
    ensures
        forall|a: int, b: int|
            0 <= a < b < packages_of(table).len() ==> !same_package(
                (#[trigger] packages_of(table)[a]).version,
                (#[trigger] packages_of(table)[b]).version,
            ),
{
    lemma_packages_distinct_upto(table, table.len() as int);
}

proof fn lemma_packages_distinct_upto(table: Seq<ResolvedEntryView>, n: int)
    requires
        0 <= n <= table.len(),
    ensures
        forall|a: int, b: int|
            0 <= a < b < packages_upto(table, n).len() ==> !same_package(
                (#[trigger] packages_upto(table, n)[a]).version,
                (#[trigger] packages_upto(table, n)[b]).version,
            ),
    decreases n,
{
    if n > 0 {
        lemma_packages_distinct_upto(table, n - 1);
        lemma_packages_come_from_lines(table, n - 1);
        let before = packages_upto(table, n - 1);
        let now = packages_upto(table, n);
        assert forall|a: int, b: int| 0 <= a < b < now.len() implies !same_package(
            (#[trigger] now[a]).version,
            (#[trigger] now[b]).version,
        ) by {
            if b < before.len() {
                assert(!same_package(before[a].version, before[b].version));
            } else {
                assert(is_package_among(table, n - 1, before[a]));
                let i = choose|i: int| 0 <= i < n - 1 && #[trigger] package_at(table, i) == before[a];
                assert(table[i].version == now[a].version);
                assert(!package_seen_before(table, n - 1));
                assert(now[b].version == table[n - 1].version);
            }
        }
    }
}

/// Where the table has a line for every dependency of a version, the
/// version's list of chosen dependencies has one member for each of them, in
/// their order: the version that the table holds for that name and range.
pub proof fn lemma_direct_deps_complete(
    table: Seq<ResolvedEntryView>,
    dependencies: Seq<(Seq<char>, Seq<char>)>,
    n: int,
)
    requires
        0 <= n <= dependencies.len(),
        forall|j: int|
            0 <= j < n ==> entry_index(
                table,
                (#[trigger] dependencies[j]).0,
                dependencies[j].1,
            ) is Some,
    ensures
        direct_deps_upto(table, dependencies, n).len() == n,
        forall|j: int|
            0 <= j < n ==> #[trigger] direct_deps_upto(table, dependencies, n)[j] == table[entry_index(
                table,
                dependencies[j].0,
                dependencies[j].1,
            )->Some_0].version,
    decreases n,
{
    if n > 0 {
        lemma_direct_deps_complete(table, dependencies, n - 1);
        assert(entry_index(table, dependencies[n - 1].0, dependencies[n - 1].1) is Some);
        let before = direct_deps_upto(table, dependencies, n - 1);
        let now = direct_deps_upto(table, dependencies, n);
        assert forall|j: int| 0 <= j < n implies #[trigger] now[j] == table[entry_index(
            table,
            dependencies[j].0,
            dependencies[j].1,
        )->Some_0].version by {
            if j < n - 1 {
                assert(now[j] == before[j]);
            }
        }
    }
}

} // verus!
