//! File paths as text: file name, stem, extension and parent directory.
//!
//! Paths are read by the rules of systems that separate directories with a
//! slash.

use crate::text::{find_last_char, last_index_of, lemma_last_index_of, slice_chars};
use vstd::prelude::*;

verus! {

/// The character that separates the components of a path.
pub const SEPARATOR: char = '/';

/// Length of `path` without the separators that end it.
pub open spec fn trimmed_length(path: Seq<char>) -> int
    decreases path.len(),
{
    if path.len() > 0 && path.last() == SEPARATOR {
        trimmed_length(path.drop_last())
    } else {
        path.len() as int
    }
}

/// `trimmed_length` is a length within the path, and the path does not end
/// in a separator there.
pub proof fn lemma_trimmed_length(path: Seq<char>)
    ensures
        0 <= trimmed_length(path) <= path.len(),
        trimmed_length(path) > 0 ==> path[trimmed_length(path) - 1] != SEPARATOR,
    decreases path.len(),
{
    if path.len() > 0 && path.last() == SEPARATOR {
        lemma_trimmed_length(path.drop_last());
    }
}

/// `path` without the separators that end it.
pub open spec fn trimmed(path: Seq<char>) -> Seq<char> {
    path.take(trimmed_length(path))
}

/// Length of `path` without what ends it and names nothing: separators,
/// and components that consist of one dot.
pub open spec fn body_length(path: Seq<char>) -> int
    decreases path.len(),
{
    if path.len() > 0 && path.last() == SEPARATOR {
        body_length(path.drop_last())
    } else if path.len() > 1 && path.last() == '.' && path[path.len() - 2] == SEPARATOR {
        body_length(path.drop_last())
    } else {
        path.len() as int
    }
}

/// `body_length` is a length within the path.
pub proof fn lemma_body_length(path: Seq<char>)
    ensures
        0 <= body_length(path) <= path.len(),
    decreases path.len(),
{
    if path.len() > 0 && (path.last() == SEPARATOR || (path.len() > 1 && path.last() == '.'
        && path[path.len() - 2] == SEPARATOR)) {
        lemma_body_length(path.drop_last());
    }
}

/// `path` without the separators and the components of one dot that end
/// it.
pub open spec fn body_of(path: Seq<char>) -> Seq<char> {
    path.take(body_length(path))
}

/// The last component of a path, where components of one dot at the end
/// do not count. A path that is empty, consists of separators, is a single
/// dot, or ends in `..` has none.
pub open spec fn file_name_of(path: Seq<char>) -> Option<Seq<char>> {
    let body = body_of(path);
    let name = body.skip(last_index_of(body, SEPARATOR) + 1);
    if name.len() == 0 || name == seq!['.'] || name == seq!['.', '.'] {
        None
    } else {
        Some(name)
    }
}

/// Position of the dot that begins the extension of a file name, or `-1`
/// if the name has no extension: a dot at the very start begins none.
pub open spec fn extension_dot(name: Seq<char>) -> int {
    if last_index_of(name, '.') <= 0 {
        -1
    } else {
        last_index_of(name, '.')
    }
}

/// The extension of the last component of a path: what follows its last
/// dot, unless that dot begins the component.
pub open spec fn extension_of(path: Seq<char>) -> Option<Seq<char>> {
    match file_name_of(path) {
        Some(name) => if extension_dot(name) < 0 {
            None
        } else {
            Some(name.skip(extension_dot(name) + 1))
        },
        None => None,
    }
}

/// The last component of a path without its extension.
pub open spec fn file_stem_of(path: Seq<char>) -> Option<Seq<char>> {
    match file_name_of(path) {
        Some(name) => if extension_dot(name) < 0 {
            Some(name)
        } else {
            Some(name.take(extension_dot(name)))
        },
        None => None,
    }
}

/// The path without its last component, where components of one dot at
/// the end do not count. A path that is empty or consists of separators has
/// no parent; a path of one component has the empty parent, or the root if
/// it begins with a separator.
pub open spec fn parent_of(path: Seq<char>) -> Option<Seq<char>> {
    let body = body_of(path);
    let cut = last_index_of(body, SEPARATOR);
    if body.len() == 0 {
        None
    } else if cut < 0 {
        Some(Seq::empty())
    } else if body_of(body.take(cut)).len() == 0 {
        Some(seq![SEPARATOR])
    } else {
        Some(body_of(body.take(cut)))
    }
}

/// `chars` without the separators that end it.
pub fn trim_separators(chars: &Vec<char>) -> (body: Vec<char>)
    ensures
        body@ == trimmed(chars@),
{
    let mut end: usize = chars.len();
    assert(chars@.take(end as int) =~= chars@);
    while end > 0 && chars[end - 1] == SEPARATOR
        invariant
            end <= chars.len(),
            trimmed_length(chars@) == trimmed_length(chars@.take(end as int)),
        decreases end,
    {
        assert(chars@.take(end as int).drop_last() =~= chars@.take(end - 1));
        end -= 1;
    }
    assert(chars@.take(end as int).len() > 0 ==> chars@.take(end as int).last() == chars@[end - 1]);
    slice_chars(chars, 0, end)
}

/// `chars` without the separators and the components of one dot that end
/// it.
pub fn path_body(chars: &Vec<char>) -> (body: Vec<char>)
    ensures
        body@ == body_of(chars@),
{
    let mut end: usize = chars.len();
    assert(chars@.take(end as int) =~= chars@);
    loop
        invariant
            end <= chars.len(),
            body_length(chars@) == body_length(chars@.take(end as int)),
        ensures
            end <= chars.len(),
            body_length(chars@) == end,
        decreases end,
    {
        let ghost head = chars@.take(end as int);
        if end > 0 && chars[end - 1] == SEPARATOR {
            assert(head.last() == chars@[end - 1]);
            assert(head.drop_last() =~= chars@.take(end - 1));
            end -= 1;
        } else if end > 1 && chars[end - 1] == '.' && chars[end - 2] == SEPARATOR {
            assert(head.last() == chars@[end - 1]);
            assert(head[head.len() - 2] == chars@[end - 2]);
            assert(head.drop_last() =~= chars@.take(end - 1));
            end -= 1;
        } else {
            assert(head.len() > 0 ==> head.last() == chars@[end - 1]);
            assert(head.len() > 1 ==> head[head.len() - 2] == chars@[end - 2]);
            assert(body_length(head) == head.len());
            break ;
        }
    }
    assert(chars@.subrange(0, end as int) =~= chars@.take(end as int));
    slice_chars(chars, 0, end)
}

/// The last component of a path.
pub fn file_name(path: &Vec<char>) -> (name: Option<Vec<char>>)
    ensures
        name is Some == file_name_of(path@) is Some,
        name is Some ==> name->0@ == file_name_of(path@)->0,
{
    let body = path_body(path);
    let start: usize = match find_last_char(&body, SEPARATOR) {
        Some(at) => {
            assert(at < body.len());
            at + 1
        },
        None => 0,
    };
    proof {
        lemma_last_index_of(body@, SEPARATOR);
    }
    let name = slice_chars(&body, start, body.len());
    assert(name@ =~= body@.skip(start as int));
    if name.len() == 0 {
        return None;
    }
    if name.len() == 1 && name[0] == '.' {
        assert(name@ =~= seq!['.']);
        return None;
    }
    if name.len() == 2 && name[0] == '.' && name[1] == '.' {
        assert(name@ =~= seq!['.', '.']);
        return None;
    }
    assert(name@ != seq!['.']) by {
        if name@ == seq!['.'] {
            assert(name@.len() == 1 && name@[0] == '.');
        }
    }
    assert(name@ != seq!['.', '.']) by {
        if name@ == seq!['.', '.'] {
            assert(name@.len() == 2 && name@[0] == '.' && name@[1] == '.');
        }
    }
    Some(name)
}

/// Position of the dot that begins the extension of a file name.
fn find_extension_dot(name: &Vec<char>) -> (dot: Option<usize>)
    ensures
        dot is Some ==> dot->0 == extension_dot(name@) && 0 < dot->0 < name@.len(),
        dot is None ==> extension_dot(name@) == -1,
{
    proof {
        lemma_last_index_of(name@, '.');
    }
    match find_last_char(name, '.') {
        Some(at) => if at == 0 {
            None
        } else {
            Some(at)
        },
        None => None,
    }
}

/// The extension of the last component of a path.
pub fn extension(path: &Vec<char>) -> (ext: Option<Vec<char>>)
    ensures
        ext is Some == extension_of(path@) is Some,
        ext is Some ==> ext->0@ == extension_of(path@)->0,
{
    match file_name(path) {
        Some(name) => match find_extension_dot(&name) {
            Some(dot) => {
                assert(dot < name.len());
                let ext = slice_chars(&name, dot + 1, name.len());
                assert(ext@ =~= name@.skip(dot + 1));
                Some(ext)
            },
            None => None,
        },
        None => None,
    }
}

/// The last component of a path without its extension.
pub fn file_stem(path: &Vec<char>) -> (stem: Option<Vec<char>>)
    ensures
        stem is Some == file_stem_of(path@) is Some,
        stem is Some ==> stem->0@ == file_stem_of(path@)->0,
{
    match file_name(path) {
        Some(name) => match find_extension_dot(&name) {
            Some(dot) => {
                let stem = slice_chars(&name, 0, dot);
                assert(stem@ =~= name@.take(dot as int));
                Some(stem)
            },
            None => Some(name),
        },
        None => None,
    }
}

/// The path without its last component.
pub fn parent(path: &Vec<char>) -> (dir: Option<Vec<char>>)
    ensures
        dir is Some == parent_of(path@) is Some,
        dir is Some ==> dir->0@ == parent_of(path@)->0,
{
    let body = path_body(path);
    if body.len() == 0 {
        return None;
    }
    proof {
        lemma_last_index_of(body@, SEPARATOR);
    }
    match find_last_char(&body, SEPARATOR) {
        Some(cut) => {
            let head = slice_chars(&body, 0, cut);
            assert(head@ =~= body@.take(cut as int));
            let dir = path_body(&head);
            if dir.len() == 0 {
                let mut root: Vec<char> = Vec::new();
                root.push(SEPARATOR);
                assert(root@ =~= seq![SEPARATOR]);
                Some(root)
            } else {
                Some(dir)
            }
        },
        None => {
            let empty: Vec<char> = Vec::new();
            assert(empty@ =~= Seq::<char>::empty());
            Some(empty)
        },
    }
}

} // verus!
