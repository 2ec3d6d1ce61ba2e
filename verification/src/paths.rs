//! File names. Paths are kept as strings and taken apart the way of Unix:
//! their components are separated by slashes; empty components and lone dots
//! do not count.

use crate::text::{chars_of, string_of};
use vstd::prelude::*;
use vstd::string::StringExecFns;

verus! {

/// The text of `s`, where there is one.
pub open spec fn option_text(s: Option<String>) -> Option<Seq<char>> {
    match s {
        Some(s) => Some(s@),
        None => None,
    }
}

/// Whether the component that ends before the index `e` is a lone dot.
pub open spec fn lone_dot(path: Seq<char>, e: int) -> bool {
    1 <= e <= path.len() && path[e - 1] == '.' && (e == 1 || path[e - 2] == '/')
}

/// Where the last component of `path[..e]` ends that counts: `e` moved back
/// over slashes and lone dots.
pub open spec fn name_end(path: Seq<char>, e: int) -> int
    decreases e,
{
    if e <= 0 || e > path.len() {
        0
    } else if path[e - 1] == '/' || lone_dot(path, e) {
        name_end(path, e - 1)
    } else {
        e
    }
}

/// Where the component begins that ends before the index `e`.
pub open spec fn name_start(path: Seq<char>, e: int) -> int
    decreases e,
{
    if e <= 0 || e > path.len() {
        0
    } else if path[e - 1] == '/' {
        e
    } else {
        name_start(path, e - 1)
    }
}

/// The last component of `path`, unless there is none or it is `..`.
pub open spec fn file_name_of(path: Seq<char>) -> Option<Seq<char>> {
    let e = name_end(path, path.len() as int);
    let name = path.subrange(name_start(path, e), e);
    if e == 0 || name == seq!['.', '.'] {
        None
    } else {
        Some(name)
    }
}

/// The index of the last dot of `name[..e]`, or -1 where it has none.
pub open spec fn last_dot(name: Seq<char>, e: int) -> int
    decreases e,
{
    if e <= 0 || e > name.len() {
        -1
    } else if name[e - 1] == '.' {
        e - 1
    } else {
        last_dot(name, e - 1)
    }
}

/// How long the stem of the file name `name` is: up to its last dot, and all
/// of it where it has no dot but perhaps a first one.
pub open spec fn stem_len(name: Seq<char>) -> int {
    let d = last_dot(name, name.len() as int);
    if d <= 0 {
        name.len() as int
    } else {
        d
    }
}

/// The file name of `path` without its extension, if it has a file name.
pub open spec fn file_stem_of(path: Seq<char>) -> Option<Seq<char>> {
    match file_name_of(path) {
        Some(name) => Some(name.take(stem_len(name))),
        None => None,
    }
}

/// How long the extension of `path` is: what follows the stem of its file
/// name and a dot, and nothing where the file name is all stem.
pub open spec fn extension_len(path: Seq<char>) -> int {
    match file_name_of(path) {
        Some(name) => if stem_len(name) < name.len() {
            name.len() - stem_len(name) - 1
        } else {
            0
        },
        None => 0,
    }
}

/// `path` up to the stem of its file name, with `extension` after a dot
/// unless it is empty. A path without a file name stays as it is.
pub open spec fn extended(path: Seq<char>, extension: Seq<char>) -> Seq<char> {
    match file_name_of(path) {
        Some(name) => {
            let s = name_start(path, name_end(path, path.len() as int));
            if extension.len() > 0 {
                path.take(s + stem_len(name)) + seq!['.'] + extension
            } else {
                path.take(s + stem_len(name))
            }
        },
        None => path,
    }
}

/// `path` with `extension` in the place of its own: `path` is cut short by
/// the length of its extension, and what is left is extended.
pub open spec fn with_extension_of(path: Seq<char>, extension: Seq<char>) -> Seq<char> {
    extended(path.take(path.len() - extension_len(path)), extension)
}

/// `path` as seen from `base`: `path` itself where it begins with a slash,
/// and otherwise `base` with `path` after it, and a slash between them
/// unless `base` is empty or ends with one.
pub open spec fn joined_path(base: Seq<char>, path: Seq<char>) -> Seq<char> {
    if path.len() > 0 && path[0] == '/' {
        path
    } else if base.len() > 0 && base.last() != '/' {
        base + seq!['/'] + path
    } else {
        base + path
    }
}

/// Where the file name of `v` begins and ends, if it has one.
fn name_span(v: &Vec<char>) -> (r: Option<(usize, usize)>)
    ensures
        match r {
            Some((s, e)) => s <= e <= v.len() && e == name_end(v@, v.len() as int) && s
                == name_start(v@, e as int) && file_name_of(v@) == Some(
                v@.subrange(s as int, e as int),
            ),
            None => file_name_of(v@) is None,
        },
{
    let mut e: usize = v.len();
    while e > 0 && (v[e - 1] == '/' || (v[e - 1] == '.' && (e == 1 || v[e - 2] == '/')))
        invariant
            e <= v.len(),
            name_end(v@, v.len() as int) == name_end(v@, e as int),
        decreases e,
    {
        e -= 1;
    }
    if e == 0 {
        return None;
    }
    let mut s: usize = e;
    while s > 0 && v[s - 1] != '/'
        invariant
            s <= e <= v.len(),
            name_start(v@, e as int) == name_start(v@, s as int),
        decreases s,
    {
        s -= 1;
    }
    if e - s == 2 && v[s] == '.' && v[s + 1] == '.' {
        assert(v@.subrange(s as int, e as int) =~= seq!['.', '.']);
        None
    } else {
        assert(v@.subrange(s as int, e as int) != seq!['.', '.']) by {
            if v@.subrange(s as int, e as int) == seq!['.', '.'] {
                assert(v@.subrange(s as int, e as int).len() == 2);
                assert(v@.subrange(s as int, e as int)[0] == '.');
                assert(v@.subrange(s as int, e as int)[1] == '.');
            }
        }
        Some((s, e))
    }
}

/// How long the stem of the file name `v[s..e]` is.
fn stem_length(v: &Vec<char>, s: usize, e: usize) -> (r: usize)
    requires
        s <= e <= v.len(),
    ensures
        r == stem_len(v@.subrange(s as int, e as int)),
        r <= e - s,
{
    let ghost name = v@.subrange(s as int, e as int);
    let mut d: usize = e;
    while d > s && v[d - 1] != '.'
        invariant
            s <= d <= e <= v.len(),
            name == v@.subrange(s as int, e as int),
            last_dot(name, name.len() as int) == last_dot(name, d - s),
        decreases d,
    {
        d -= 1;
    }
    if d - s <= 1 {
        e - s
    } else {
        assert(name[d - s - 1] == '.');
        d - 1 - s
    }
}

/// Decides `file_name_of`.
pub fn file_name(path: &str) -> (r: Option<String>)
    ensures
        option_text(r) == file_name_of(path@),
{
    let v = chars_of(path);
    match name_span(&v) {
        Some((s, e)) => Some(string_of(&v, s, e)),
        None => None,
    }
}

/// Decides `file_stem_of`.
pub fn file_stem(path: &str) -> (r: Option<String>)
    ensures
        option_text(r) == file_stem_of(path@),
{
    let v = chars_of(path);
    match name_span(&v) {
        Some((s, e)) => {
            let n = stem_length(&v, s, e);
            let stem = string_of(&v, s, s + n);
            assert(stem@ =~= v@.subrange(s as int, e as int).take(n as int));
            Some(stem)
        },
        None => None,
    }
}

/// Decides `with_extension_of`.
pub fn with_extension(path: &str, extension: &str) -> (r: String)
    ensures
        r@ == with_extension_of(path@, extension@),
{
    let whole = chars_of(path);
    let own = match name_span(&whole) {
        Some((s, e)) => {
            let n = stem_length(&whole, s, e);
            if n < e - s {
                e - s - n - 1
            } else {
                0
            }
        },
        None => 0,
    };
    let mut v: Vec<char> = Vec::new();
    let mut i: usize = 0;
    while i < whole.len() - own
        invariant
            own <= whole.len(),
            i <= whole.len() - own,
            v@ == whole@.take(i as int),
        decreases whole.len() - own - i,
    {
        v.push(whole[i]);
        assert(whole@.take(i + 1) =~= whole@.take(i as int).push(whole@[i as int]));
        i += 1;
    }
    match name_span(&v) {
        Some((s, e)) => {
            let n = stem_length(&v, s, e);
            let kept = string_of(&v, 0, s + n);
            assert(kept@ =~= v@.take(s + n));
            let ext = chars_of(extension);
            proof {
                reveal_strlit(".");
                assert("."@ =~= seq!['.']);
            }
            if ext.len() > 0 {
                kept.concat(".").concat(extension)
            } else {
                kept
            }
        },
        None => {
            let kept = string_of(&v, 0, v.len());
            assert(kept@ =~= v@);
            kept
        },
    }
}

/// Decides `joined_path`.
pub fn join(base: &str, path: &str) -> (r: String)
    ensures
        r@ == joined_path(base@, path@),
{
    let b = chars_of(base);
    let p = chars_of(path);
    proof {
        reveal_strlit("/");
        assert("/"@ =~= seq!['/']);
    }
    if p.len() > 0 && p[0] == '/' {
        String::from_str(path)
    } else if b.len() > 0 && b[b.len() - 1] != '/' {
        String::from_str(base).concat("/").concat(path)
    } else {
        String::from_str(base).concat(path)
    }
}

} // verus!
