//! The project manifest: where it is looked for, and how its dependency
//! list is read and rewritten.

use crate::lookup::{first_index, lemma_first_index, lemma_first_index_absent, lemma_first_index_found};
use crate::npm::{VersionRangeSpecifier, ranges_by_name};
use crate::paths::{join, joined, lemma_parent_dir, lemma_parent_of_joined, parent, parent_dir};
use crate::text::has_char;
use vstd::prelude::*;

verus! {

#[derive(Debug, PartialEq, Eq, Clone, Copy, Structural)]
pub enum ManifestError {
    ManifestNotFound,
}

impl ManifestError {
    pub fn to_string(&self) -> (res: String)
        ensures
            res@ == "Failed to locate manifest file"@,
    {
        String::from_str("Failed to locate manifest file")
    }
}

/// A JSON value. A number is kept as the text that stands for it.
#[derive(Debug, PartialEq, Eq)]
pub enum JsonValue {
    Null,
    Bool(bool),
    Number(String),
    String(String),
    Array(Vec<JsonValue>),
    Object(Vec<(String, JsonValue)>),
}

pub enum JsonView {
    Null,
    Bool(bool),
    Number(Seq<char>),
    String(Seq<char>),
    Array(Seq<JsonView>),
    Object(Seq<(Seq<char>, JsonView)>),
}

/// What a JSON value holds.
pub open spec fn json_view(value: JsonValue) -> JsonView
    decreases value,
{
    match value {
        JsonValue::Null => JsonView::Null,
        JsonValue::Bool(b) => JsonView::Bool(b),
        JsonValue::Number(text) => JsonView::Number(text@),
        JsonValue::String(text) => JsonView::String(text@),
        JsonValue::Array(items) => JsonView::Array(
            Seq::new(
                items@.len(),
                |i: int|
                    if 0 <= i < items@.len() {
                        json_view(items@[i])
                    } else {
                        arbitrary()
                    },
            ),
        ),
        JsonValue::Object(members) => JsonView::Object(
            Seq::new(
                members@.len(),
                |i: int|
                    if 0 <= i < members@.len() {
                        (members@[i].0@, json_view(members@[i].1))
                    } else {
                        arbitrary()
                    },
            ),
        ),
    }
}

impl View for JsonValue {
    type V = JsonView;

    open spec fn view(&self) -> JsonView {
        json_view(*self)
    }
}

/// The views of the members of an object.
pub open spec fn member_views(members: Seq<(String, JsonValue)>) -> Seq<(Seq<char>, JsonView)> {
    Seq::new(members.len(), |i: int| (members[i].0@, members[i].1@))
}

/// The view of an object holds the views of its members.
pub proof fn lemma_object_view(members: Vec<(String, JsonValue)>)
    ensures
        JsonValue::Object(members)@ == JsonView::Object(member_views(members@)),
{
    assert(JsonValue::Object(members)@->Object_0 =~= member_views(members@));
}

/// The name of the manifest file.
pub const MANIFEST_FILE: &'static str = "package.json";

/// The member of the manifest that lists the runtime dependencies.
pub const DEPENDENCIES: &'static str = "dependencies";

/// Where the manifest of the directory `dir` would be.
pub open spec fn manifest_in(dir: Seq<char>) -> Seq<char> {
    joined(dir, MANIFEST_FILE@)
}

/// Where to look after `current`, a place where no manifest is: in the
/// directory above the one that `current` lies in. There is no such place
/// where that directory has none above it.
pub open spec fn next_candidate(current: Seq<char>) -> Option<Seq<char>> {
    match parent_dir(current) {
        Some(dir) => match parent_dir(dir) {
            Some(above) => Some(manifest_in(above)),
            None => None,
        },
        None => None,
    }
}

/// The first place to look for the manifest: in the working directory.
pub fn first_manifest_path(working_dir: &String) -> (res: String)
    ensures
        res@ == manifest_in(working_dir@),
{
    join(working_dir.as_str(), MANIFEST_FILE)
}

/// The next place to look for the manifest, after `current`.
pub fn next_manifest_path(current: &String) -> (res: Result<String, ManifestError>)
    ensures
        match next_candidate(current@) {
            Some(next) => res is Ok && res->Ok_0@ == next,
            None => res == Err::<String, ManifestError>(ManifestError::ManifestNotFound),
        },
{
    match parent(current.as_str()) {
        Some(dir) => match parent(dir.as_str()) {
            Some(above) => Ok(join(above.as_str(), MANIFEST_FILE)),
            None => Err(ManifestError::ManifestNotFound),
        },
        None => Err(ManifestError::ManifestNotFound),
    }
}

/// One step of the search for the manifest.
#[derive(Debug, PartialEq, Eq)]
pub enum SearchStep {
    /// The manifest is the file at this path.
    Found(String),
    /// Look at this path next.
    Look(String),
}

/// Decides how the search for the manifest goes on, after `candidate` was
/// looked at and a file was there or not: a file that is there is the
/// manifest; otherwise the search goes on one directory up, and fails where
/// there is none.
pub fn get_manifest_file(candidate: &String, exists: bool) -> (res: Result<SearchStep, ManifestError>)
    ensures
        exists ==> (res matches Ok(SearchStep::Found(path)) && path@ == candidate@),
        !exists ==> match next_candidate(candidate@) {
            Some(next) => (res matches Ok(SearchStep::Look(path)) && path@ == next),
            None => res == Err::<SearchStep, ManifestError>(ManifestError::ManifestNotFound),
        },
{
    if exists {
        Ok(SearchStep::Found(candidate.clone()))
    } else {
        match next_manifest_path(candidate) {
            Ok(next) => Ok(SearchStep::Look(next)),
            Err(error) => Err(error),
        }
    }
}

/// The search ends. A place to look is the manifest file's name below some
/// directory; the place after it is again of that form, and its path is
/// shorter.
pub proof fn lemma_search_ascends(dir: Seq<char>)
    ensures
        match next_candidate(manifest_in(dir)) {
            Some(next) => next.len() < manifest_in(dir).len() && parent_dir(dir) == Some(
                parent_dir(next)->Some_0,
            ) && next == manifest_in(parent_dir(dir)->Some_0),
            None => parent_dir(dir) is None,
        },
{
    reveal_strlit("package.json");
    assert(!has_char(MANIFEST_FILE@, '/'));
    lemma_parent_of_joined(dir, MANIFEST_FILE@);
    lemma_parent_dir(dir);
    if parent_dir(dir) is Some {
        lemma_parent_of_joined(parent_dir(dir)->Some_0, MANIFEST_FILE@);
    }
}

/// The names of the members of an object.
pub open spec fn member_names(members: Seq<(Seq<char>, JsonView)>) -> Seq<Seq<char>> {
    Seq::new(members.len(), |i: int| members[i].0)
}

/// An object's members with `key` set to `value`: in the place of the
/// member of that name, or at the end where there is none.
pub open spec fn with_member(
    members: Seq<(Seq<char>, JsonView)>,
    key: Seq<char>,
    value: JsonView,
) -> Seq<(Seq<char>, JsonView)> {
    match first_index(member_names(members), key) {
        Some(i) => members.update(i, (key, value)),
        None => members.push((key, value)),
    }
}

/// A dependency list with the first `n` of `additions` set, one after the
/// other, each range as a JSON string.
pub open spec fn with_ranges(
    members: Seq<(Seq<char>, JsonView)>,
    additions: Seq<(Seq<char>, Seq<char>)>,
    n: int,
) -> Seq<(Seq<char>, JsonView)>
    decreases n,
{
    if n <= 0 {
        members
    } else {
        with_member(
            with_ranges(members, additions, n - 1),
            additions[n - 1].0,
            JsonView::String(additions[n - 1].1),
        )
    }
}

/// The manifest with `additions` in its dependency list. A manifest without
/// the list gets one. A manifest whose `dependencies` member is no object,
/// or which is no object itself, stays as it is.
pub open spec fn with_dependencies(manifest: JsonView, additions: Seq<(Seq<char>, Seq<char>)>) -> JsonView {
    match manifest {
        JsonView::Object(members) => match first_index(member_names(members), DEPENDENCIES@) {
            Some(i) => match members[i].1 {
                JsonView::Object(list) => JsonView::Object(
                    members.update(
                        i,
                        (
                            members[i].0,
                            JsonView::Object(with_ranges(list, additions, additions.len() as int)),
                        ),
                    ),
                ),
                _ => manifest,
            },
            None => JsonView::Object(
                members.push(
                    (
                        DEPENDENCIES@,
                        JsonView::Object(
                            with_ranges(Seq::empty(), additions, additions.len() as int),
                        ),
                    ),
                ),
            ),
        },
        _ => manifest,
    }
}

/// The place of the member `key` among the members of an object.
pub fn member_position(members: &Vec<(String, JsonValue)>, key: &String) -> (res: Option<usize>)
    ensures
        match res {
            Some(i) => first_index(member_names(member_views(members@)), key@) == Some(i as int),
            None => first_index(member_names(member_views(members@)), key@) is None,
        },
{
    let ghost names = member_names(member_views(members@));
    let mut i: usize = 0;
    while i < members.len()
        invariant
            i <= members.len(),
            names == member_names(member_views(members@)),
            forall|j: int| 0 <= j < i ==> names[j] != key@,
        decreases members.len() - i,
    {
        if members[i].0 == *key {
            proof {
                assert(names[i as int] == key@);
                lemma_first_index_found(names, key@, i as int);
            }
            return Some(i);
        }
        assert(names[i as int] != key@);
        i += 1;
    }
    proof {
        lemma_first_index_absent(names, key@);
    }
    None
}

/// Sets the member `key` of an object to `value`.
pub fn set_member(members: &mut Vec<(String, JsonValue)>, key: String, value: JsonValue)
    ensures
        member_views(final(members)@) == with_member(member_views(old(members)@), key@, value@),
{
    match member_position(members, &key) {
        Some(i) => {
            proof {
                lemma_first_index(member_names(member_views(members@)), key@);
            }
            members.set(i, (key, value));
            assert(member_views(members@) =~= member_views(old(members)@).update(
                i as int,
                (key@, value@),
            ));
        },
        None => {
            members.push((key, value));
            assert(member_views(members@) =~= member_views(old(members)@).push((key@, value@)));
        },
    }
}

/// Sets each of `additions` in a dependency list, the range as a JSON
/// string. A package that the list names already gets the new range.
pub fn set_ranges(members: &mut Vec<(String, JsonValue)>, additions: &Vec<(String, VersionRangeSpecifier)>)
    ensures
        member_views(final(members)@) == with_ranges(
            member_views(old(members)@),
            ranges_by_name(additions@),
            additions@.len() as int,
        ),
{
    let ghost pairs = ranges_by_name(additions@);
    let mut i: usize = 0;
    while i < additions.len()
        invariant
            i <= additions.len(),
            pairs == ranges_by_name(additions@),
            member_views(members@) == with_ranges(member_views(old(members)@), pairs, i as int),
        decreases additions.len() - i,
    {
        let range = String::from_str(additions[i].1.as_str());
        set_member(members, additions[i].0.clone(), JsonValue::String(range));
        i += 1;
    }
}

/// The manifest with `additions` in its dependency list: each package of
/// `additions` is listed with its range, in place of what the list held for
/// it. A manifest without a dependency list gets one.
pub fn update_manifest(manifest: JsonValue, additions: &Vec<(String, VersionRangeSpecifier)>) -> (res:
    JsonValue)
    requires
        manifest@ is Object,
    ensures
        res@ == with_dependencies(manifest@, ranges_by_name(additions@)),
{
    match manifest {
        JsonValue::Object(members) => {
            let mut members = members;
            let ghost before = member_views(members@);
            proof {
                lemma_object_view(members);
            }
            let key = String::from_str(DEPENDENCIES);
            match member_position(&members, &key) {
                Some(i) => {
                    proof {
                        lemma_first_index(member_names(before), DEPENDENCIES@);
                    }
                    let (name, value) = members.remove(i);
                    assert(name@ == before[i as int].0 && value@ == before[i as int].1);
                    match value {
                        JsonValue::Object(list) => {
                            let mut list = list;
                            proof {
                                lemma_object_view(list);
                            }
                            set_ranges(&mut list, additions);
                            proof {
                                lemma_object_view(list);
                            }
                            members.insert(i, (name, JsonValue::Object(list)));
                            proof {
                                lemma_object_view(members);
                                assert(member_views(members@) =~= before.update(
                                    i as int,
                                    (
                                        before[i as int].0,
                                        JsonView::Object(
                                            with_ranges(
                                                before[i as int].1->Object_0,
                                                ranges_by_name(additions@),
                                                additions@.len() as int,
                                            ),
                                        ),
                                    ),
                                ));
                            }
                            JsonValue::Object(members)
                        },
                        other => {
                            members.insert(i, (name, other));
                            proof {
                                lemma_object_view(members);
                                assert(member_views(members@) =~= before);
                            }
                            JsonValue::Object(members)
                        },
                    }
                },
                None => {
                    let mut list: Vec<(String, JsonValue)> = Vec::new();
                    assert(member_views(list@) =~= Seq::<(Seq<char>, JsonView)>::empty());
                    set_ranges(&mut list, additions);
                    proof {
                        lemma_object_view(list);
                    }
                    members.push((key, JsonValue::Object(list)));
                    proof {
                        lemma_object_view(members);
                        assert(member_views(members@) =~= before.push(
                            (
                                DEPENDENCIES@,
                                JsonView::Object(
                                    with_ranges(
                                        Seq::empty(),
                                        ranges_by_name(additions@),
                                        additions@.len() as int,
                                    ),
                                ),
                            ),
                        ));
                    }
                    JsonValue::Object(members)
                },
            }
        },
        other => other,
    }
}

} // verus!
