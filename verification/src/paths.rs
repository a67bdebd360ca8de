//! Paths as text: components separated by `/`.
//!
//! Every directory and link of an installation is named by a relative path
//! that this module and its callers put together from package names and
//! versions. Nothing here touches the file system.

use crate::text::{chars_of, has_char, option_chars};
use vstd::prelude::*;

verus! {

/// The separator between the components of a path.
pub open spec fn separator() -> Seq<char> {
    seq!['/']
}

/// `tail` below the directory `dir`.
pub open spec fn joined(dir: Seq<char>, tail: Seq<char>) -> Seq<char> {
    dir + separator() + tail
}

/// A name is scoped when it begins with `@`.
pub open spec fn scoped(name: Seq<char>) -> bool {
    name.len() > 0 && name[0] == '@'
}

/// `s` with every `/` replaced by `+`.
pub open spec fn slashes_to_plus(s: Seq<char>) -> Seq<char> {
    Seq::new(
        s.len(),
        |i: int|
            if s[i] == '/' {
                '+'
            } else {
                s[i]
            },
    )
}

/// The folder name that stands for a package name: a scoped name with its
/// slashes replaced, any other name unchanged.
pub open spec fn encoded_folder_name(name: Seq<char>) -> Seq<char> {
    if scoped(name) {
        slashes_to_plus(name)
    } else {
        name
    }
}

/// `<name>@<version>`.
pub open spec fn versioned(name: Seq<char>, version: Seq<char>) -> Seq<char> {
    name + seq!['@'] + version
}

/// The directory that holds `path`: the text before its last separator.
/// A path without a separator has none.
pub open spec fn parent_dir(path: Seq<char>) -> Option<Seq<char>>
    decreases path.len(),
{
    if path.len() == 0 {
        None
    } else if path.last() == '/' {
        Some(path.drop_last())
    } else {
        parent_dir(path.drop_last())
    }
}

/// The parent of a path is the text before a separator that no separator
/// follows.
pub proof fn lemma_parent_dir_at(path: Seq<char>, at: int)
    requires
        0 <= at < path.len(),
        path[at] == '/',
        forall|j: int| at < j < path.len() ==> path[j] != '/',
    ensures
        parent_dir(path) == Some(path.subrange(0, at)),
    decreases path.len() - at,
{
    if at == path.len() - 1 {
        assert(path.drop_last() =~= path.subrange(0, at));
    } else {
        lemma_parent_dir_at(path.drop_last(), at);
        assert(path.drop_last().subrange(0, at) =~= path.subrange(0, at));
    }
}

/// A path without a separator has no parent.
pub proof fn lemma_parent_dir_none(path: Seq<char>)
    requires
        !has_char(path, '/'),
    ensures
        parent_dir(path) is None,
    decreases path.len(),
{
    if path.len() > 0 {
        assert(path[path.len() - 1] != '/');
        assert forall|j: int| 0 <= j < path.drop_last().len() implies path.drop_last()[j]
            != '/' by {
            assert(path[j] != '/');
        }
        lemma_parent_dir_none(path.drop_last());
    }
}

/// The parent of `dir/tail`, where `tail` holds no separator, is `dir`.
pub proof fn lemma_parent_of_joined(dir: Seq<char>, tail: Seq<char>)
    requires
        !has_char(tail, '/'),
    ensures
        parent_dir(joined(dir, tail)) == Some(dir),
{
    let path = joined(dir, tail);
    assert forall|j: int| dir.len() < j < path.len() implies path[j] != '/' by {
        assert(path[j] == tail[j - dir.len() - 1]);
    }
    lemma_parent_dir_at(path, dir.len() as int);
    assert(path.subrange(0, dir.len() as int) =~= dir);
}

/// What `parent_dir` returns, spelled out: the parent is the text before the
/// last separator of the path.
pub proof fn lemma_parent_dir(path: Seq<char>)
    ensures
        match parent_dir(path) {
            Some(dir) => {
                &&& dir.len() < path.len()
                &&& dir == path.subrange(0, dir.len() as int)
                &&& path[dir.len() as int] == '/'
                &&& forall|j: int| dir.len() < j < path.len() ==> path[j] != '/'
            },
            None => !has_char(path, '/'),
        },
    decreases path.len(),
{
    if path.len() > 0 {
        if path.last() == '/' {
            assert(path.drop_last() =~= path.subrange(0, path.len() - 1));
        } else {
            let shorter = path.drop_last();
            lemma_parent_dir(shorter);
            match parent_dir(shorter) {
                Some(dir) => {
                    assert(dir =~= path.subrange(0, dir.len() as int));
                    assert(path[dir.len() as int] == shorter[dir.len() as int]);
                    assert forall|j: int| dir.len() < j < path.len() implies path[j] != '/' by {
                        if j < shorter.len() {
                            assert(shorter[j] != '/');
                        }
                    }
                },
                None => {
                    if has_char(path, '/') {
                        let i = choose|i: int| 0 <= i < path.len() && path[i] == '/';
                        assert(shorter[i] == '/');
                    }
                },
            }
        }
    }
}

/// A path that holds a separator at `at` has a parent, which reaches at
/// least up to there.
pub proof fn lemma_parent_dir_exists(path: Seq<char>, at: int)
    requires
        0 <= at < path.len(),
        path[at] == '/',
    ensures
        parent_dir(path) is Some,
        at <= parent_dir(path)->Some_0.len() < path.len(),
        parent_dir(path)->Some_0 == path.subrange(0, parent_dir(path)->Some_0.len() as int),
{
    lemma_parent_dir(path);
}

/// The folder name of a scoped package has the length of the name, holds no
/// `/`, has a `+` wherever the name has a `/`, and the name's own character
/// everywhere else.
pub proof fn lemma_encoded_folder_name(name: Seq<char>)
    requires
        scoped(name),
    ensures
        encoded_folder_name(name).len() == name.len(),
        !has_char(encoded_folder_name(name), '/'),
        forall|i: int|
            0 <= i < name.len() && name[i] == '/' ==> #[trigger] encoded_folder_name(name)[i] == '+',
        forall|i: int|
            0 <= i < name.len() && name[i] != '/' ==> #[trigger] encoded_folder_name(name)[i]
                == name[i],
{
}

/// Whether a package name is scoped.
pub fn is_scoped(name: &String) -> (res: bool)
    ensures
        res == scoped(name@),
{
    !name.as_str().is_empty() && name.as_str().get_char(0) == '@'
}

/// `dir`, a separator, and `tail`.
pub fn join(dir: &str, tail: &str) -> (res: String)
    ensures
        res@ == joined(dir@, tail@),
{
    let mut out = String::from_str(dir);
    out.append("/");
    out.append(tail);
    proof {
        reveal_strlit("/");
        assert("/"@ =~= separator());
    }
    out
}

/// `<name>@<version>`.
pub fn with_version(name: &str, version: &str) -> (res: String)
    ensures
        res@ == versioned(name@, version@),
{
    let mut out = String::from_str(name);
    out.append("@");
    out.append(version);
    proof {
        reveal_strlit("@");
        assert("@"@ =~= seq!['@']);
    }
    out
}

/// The folder name that stands for a package name.
pub fn encode_folder_name(name: &String) -> (res: String)
    ensures
        res@ == encoded_folder_name(name@),
{
    if !is_scoped(name) {
        return name.clone();
    }
    let text = name.as_str();
    let chars = chars_of(text);
    let mut out = String::new();
    let mut start: usize = 0;
    let mut i: usize = 0;
    while i < chars.len()
        invariant
            start <= i <= chars.len(),
            chars@ == name@,
            text@ == name@,
            out@ == slashes_to_plus(name@.take(start as int)),
            forall|j: int| start <= j < i ==> name@[j] != '/',
        decreases chars.len() - i,
    {
        if chars[i] == '/' {
            out.append(text.substring_char(start, i));
            out.append("+");
            proof {
                reveal_strlit("+");
                assert(out@ =~= slashes_to_plus(name@.take(i + 1)));
            }
            start = i + 1;
        }
        i += 1;
    }
    out.append(text.substring_char(start, chars.len()));
    assert(out@ =~= slashes_to_plus(name@));
    out
}

/// The directory that holds `path`, if `path` has a separator.
pub fn parent(path: &str) -> (res: Option<String>)
    ensures
        option_chars(res) == parent_dir(path@),
{
    let chars = chars_of(path);
    let mut i: usize = chars.len();
    while i > 0
        invariant
            i <= chars.len(),
            chars@ == path@,
            forall|j: int| i <= j < chars.len() ==> path@[j] != '/',
        decreases i,
    {
        i -= 1;
        if chars[i] == '/' {
            proof {
                lemma_parent_dir_at(path@, i as int);
            }
            return Some(String::from_str(path.substring_char(0, i)));
        }
    }
    proof {
        lemma_parent_dir_none(path@);
    }
    None
}

} // verus!
