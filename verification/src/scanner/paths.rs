//! Path text handling for route discovery.
//!
//! Paths are handled as `/`-separated text (Unix semantics): a trailing `/`
//! is ignored, the file name is the last component, the parent is what lies
//! before it.
use vstd::prelude::*;
use crate::text::{
    find_first, rfind_char, slice_from, slice_range, trim_end_chars,
};
use crate::text::{first_occurrence, last_char_index, trim_end_char, lemma_first_occurrence};

verus! {

/// The last component of a path; `None` for an empty path, the root, or `..`.
pub open spec fn path_file_name(p: Seq<char>) -> Option<Seq<char>> {
    let q = trim_end_char(p, '/');
    let name = match last_char_index(q, '/') {
        Some(k) => q.skip(k + 1),
        None => q,
    };
    if name.len() == 0 || name == ".."@ {
        None
    } else {
        Some(name)
    }
}

/// The path without its last component; `None` for an empty path or the root.
pub open spec fn path_parent(p: Seq<char>) -> Option<Seq<char>> {
    let q = trim_end_char(p, '/');
    if q.len() == 0 {
        None
    } else {
        match last_char_index(q, '/') {
            None => Some(Seq::empty()),
            Some(k) => {
                let r = trim_end_char(q.take(k), '/');
                if r.len() == 0 {
                    Some(seq!['/'])
                } else {
                    Some(r)
                }
            },
        }
    }
}

/// A file name split at its last `.`: the stem and the extension.  A name
/// whose only `.` is its first character has no extension.
pub open spec fn split_file_name(name: Seq<char>) -> (Seq<char>, Option<Seq<char>>) {
    match last_char_index(name, '.') {
        Some(k) => if k == 0 {
            (name, None)
        } else {
            (name.take(k), Some(name.skip(k + 1)))
        },
        None => (name, None),
    }
}

/// The file name without its extension.
pub open spec fn path_file_stem(p: Seq<char>) -> Option<Seq<char>> {
    match path_file_name(p) {
        Some(n) => Some(split_file_name(n).0),
        None => None,
    }
}

/// The extension of the file name.
pub open spec fn path_extension(p: Seq<char>) -> Option<Seq<char>> {
    match path_file_name(p) {
        Some(n) => split_file_name(n).1,
        None => None,
    }
}

/// The text after the first occurrence of `marker` (what
/// `splitn(2, marker).nth(1)` gives).
pub open spec fn after_marker(s: Seq<char>, marker: Seq<char>) -> Option<Seq<char>> {
    match first_occurrence(s, marker) {
        Some(i) => Some(s.skip(i + marker.len())),
        None => None,
    }
}

/// The last component of a path.
pub fn file_name(p: &[char]) -> (r: Option<Vec<char>>)
    ensures
        r matches Some(v) ==> path_file_name(p@) == Some(v@),
        r is None ==> path_file_name(p@) is None,
{
    let q = trim_end_chars(p, '/');
    let name = match rfind_char(q.as_slice(), '/') {
        Some(k) => slice_from(q.as_slice(), k + 1),
        None => q,
    };
    let dots = ['.', '.'];
    assert(dots@ =~= ".."@) by {
        reveal_strlit("..");
    }
    if name.len() == 0 || (name.len() == 2 && name[0] == '.' && name[1] == '.') {
        proof {
            if name.len() == 2 && name[0] == '.' && name[1] == '.' {
                assert(name@ =~= dots@);
            }
        }
        None
    } else {
        proof {
            if name@ == ".."@ {
                assert(name@[0] == dots@[0] && name@[1] == dots@[1]);
            }
        }
        Some(name)
    }
}

/// The path without its last component.
pub fn parent(p: &[char]) -> (r: Option<Vec<char>>)
    ensures
        r matches Some(v) ==> path_parent(p@) == Some(v@),
        r is None ==> path_parent(p@) is None,
{
    let q = trim_end_chars(p, '/');
    if q.len() == 0 {
        return None;
    }
    match rfind_char(q.as_slice(), '/') {
        None => Some(Vec::new()),
        Some(k) => {
            let head = slice_range(q.as_slice(), 0, k);
            assert(head@ =~= q@.take(k as int));
            let r = trim_end_chars(head.as_slice(), '/');
            if r.len() == 0 {
                let mut root: Vec<char> = Vec::new();
                root.push('/');
                assert(root@ =~= seq!['/']);
                Some(root)
            } else {
                Some(r)
            }
        },
    }
}

/// A file name split at its last `.`.
pub fn split_name(name: &[char]) -> (r: (Vec<char>, Option<Vec<char>>))
    ensures
        r.0@ == split_file_name(name@).0,
        r.1 matches Some(e) ==> split_file_name(name@).1 == Some(e@),
        r.1 is None ==> split_file_name(name@).1 is None,
{
    match rfind_char(name, '.') {
        Some(k) => if k == 0 {
            (slice_from(name, 0), None)
        } else {
            let stem = slice_range(name, 0, k);
            assert(stem@ =~= name@.take(k as int));
            (stem, Some(slice_from(name, k + 1)))
        },
        None => {
            let all = slice_from(name, 0);
            assert(all@ =~= name@);
            (all, None)
        },
    }
}

/// The file name without its extension.
pub fn file_stem(p: &[char]) -> (r: Option<Vec<char>>)
    ensures
        r matches Some(v) ==> path_file_stem(p@) == Some(v@),
        r is None ==> path_file_stem(p@) is None,
{
    match file_name(p) {
        Some(n) => Some(split_name(n.as_slice()).0),
        None => None,
    }
}

/// The extension of the file name.
pub fn extension(p: &[char]) -> (r: Option<Vec<char>>)
    ensures
        r matches Some(v) ==> path_extension(p@) == Some(v@),
        r is None ==> path_extension(p@) is None,
{
    match file_name(p) {
        Some(n) => split_name(n.as_slice()).1,
        None => None,
    }
}

/// The text after the first occurrence of `marker`.
pub fn text_after(s: &[char], marker: &[char]) -> (r: Option<Vec<char>>)
    ensures
        r matches Some(v) ==> after_marker(s@, marker@) == Some(v@),
        r is None ==> after_marker(s@, marker@) is None,
{
    match find_first(s, marker) {
        Some(i) => {
            proof {
                lemma_first_occurrence(s@, marker@);
            }
            Some(slice_from(s, i + marker.len()))
        },
        None => None,
    }
}

} // verus!
