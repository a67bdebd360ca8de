//! Installing what the manifest lists: reading the dependency list.

use crate::lookup::{first_index, lemma_first_index};
use crate::npm::{VersionRangeSpecifier, ranges_by_name};
use crate::package_manifest::{
    DEPENDENCIES, JsonValue, JsonView, lemma_object_view, member_names, member_position,
    member_views,
};
use vstd::prelude::*;

verus! {

/// Every member of the list is a JSON string.
pub open spec fn all_ranges(list: Seq<(Seq<char>, JsonView)>) -> bool {
    forall|j: int| 0 <= j < list.len() ==> (#[trigger] list[j]).1 is String
}

/// The members of a list of JSON strings, as names and ranges.
pub open spec fn ranges_of(list: Seq<(Seq<char>, JsonView)>) -> Seq<(Seq<char>, Seq<char>)> {
    Seq::new(list.len(), |j: int| (list[j].0, list[j].1->String_0))
}

/// The dependency list of a manifest: the members of its `dependencies`
/// object, as names and ranges. A manifest has none where it is no object,
/// has no such member, or has one that is not an object of strings.
pub open spec fn declared_dependencies(manifest: JsonView) -> Option<Seq<(Seq<char>, Seq<char>)>> {
    match manifest {
        JsonView::Object(members) => match first_index(member_names(members), DEPENDENCIES@) {
            Some(i) => match members[i].1 {
                JsonView::Object(list) => if all_ranges(list) {
                    Some(ranges_of(list))
                } else {
                    None
                },
                _ => None,
            },
            None => None,
        },
        _ => None,
    }
}

/// The names and ranges of an optional dependency list.
pub open spec fn optional_ranges(list: Option<Vec<(String, VersionRangeSpecifier)>>) -> Option<
    Seq<(Seq<char>, Seq<char>)>,
> {
    match list {
        Some(pairs) => Some(ranges_by_name(pairs@)),
        None => None,
    }
}

/// The members of an object of strings, as names and ranges.
fn read_ranges(list: &Vec<(String, JsonValue)>) -> (res: Option<Vec<(String, VersionRangeSpecifier)>>)
    ensures
        optional_ranges(res) == if all_ranges(member_views(list@)) {
            Some(ranges_of(member_views(list@)))
        } else {
            None
        },
{
    let ghost views = member_views(list@);
    let mut out: Vec<(String, VersionRangeSpecifier)> = Vec::new();
    let mut j: usize = 0;
    while j < list.len()
        invariant
            j <= list.len(),
            views == member_views(list@),
            forall|k: int| 0 <= k < j ==> (#[trigger] views[k]).1 is String,
            out@.len() == j,
            forall|k: int|
                0 <= k < j ==> (#[trigger] out@[k]).0@ == views[k].0 && out@[k].1@
                    == views[k].1->String_0,
        decreases list.len() - j,
    {
        match &list[j].1 {
            JsonValue::String(text) => {
                out.push((list[j].0.clone(), VersionRangeSpecifier::new(text.clone())));
            },
            _ => {
                assert(!(views[j as int].1 is String));
                return None;
            },
        }
        j += 1;
    }
    assert(ranges_by_name(out@) =~= ranges_of(views));
    Some(out)
}

/// What installing from the manifest installs: the packages of the
/// manifest's dependency list, each with its range. A manifest without a
/// dependency list asks for nothing, which is no failure.
pub fn install_manifest(manifest: &JsonValue) -> (res: Option<Vec<(String, VersionRangeSpecifier)>>)
    ensures
        optional_ranges(res) == declared_dependencies(manifest@),
{
    match manifest {
        JsonValue::Object(members) => {
            proof {
                lemma_object_view(*members);
            }
            let key = String::from_str(DEPENDENCIES);
            match member_position(members, &key) {
                Some(i) => {
                    proof {
                        lemma_first_index(member_names(member_views(members@)), DEPENDENCIES@);
                    }
                    match &members[i].1 {
                        JsonValue::Object(list) => {
                            proof {
                                lemma_object_view(*list);
                            }
                            read_ranges(list)
                        },
                        _ => None,
                    }
                },
                None => None,
            }
        },
        _ => None,
    }
}

} // verus!
