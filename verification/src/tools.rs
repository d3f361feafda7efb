//! Locating a downloaded tool: the directory named after it, and the choice
//! among the files of that name found under it.

use vstd::prelude::*;
use crate::text::{chars_of, eq_ignore_ascii_case, str_eq_ignore_ascii_case, string_of, string_views, vec_slice};

verus! {

/// The last index of `c` in `s`, if any.
pub open spec fn last_index_of(s: Seq<char>, c: char) -> Option<int>
    decreases s.len(),
{
    if s.len() == 0 {
        None
    } else if s.last() == c {
        Some(s.len() - 1)
    } else {
        last_index_of(s.drop_last(), c)
    }
}

/// The stem of a plain file name, as `Path::file_stem` gives it: the name
/// up to its last dot, or the whole name when it has no dot or its only dot
/// comes first.
pub open spec fn file_stem(name: Seq<char>) -> Seq<char> {
    match last_index_of(name, '.') {
        Some(i) if i > 0 => name.take(i),
        _ => name,
    }
}

/// A path separator: Windows takes both slashes.
pub open spec fn is_separator(c: char) -> bool {
    c == '/' || c == '\\'
}

/// Whether the path opens with a drive letter and a colon, as in `C:`.
pub open spec fn has_drive_prefix(path: Seq<char>) -> bool {
    &&& path.len() >= 2
    &&& (('a' <= path[0] && path[0] <= 'z') || ('A' <= path[0] && path[0] <= 'Z'))
    &&& path[1] == ':'
}

/// Whether the path opens with two separators, the start of a UNC or
/// device path.
pub open spec fn has_double_separator_prefix(path: Seq<char>) -> bool {
    path.len() >= 2 && is_separator(path[0]) && is_separator(path[1])
}

/// The path without its drive prefix.
pub open spec fn without_drive(path: Seq<char>) -> Seq<char> {
    if has_drive_prefix(path) { path.skip(2) } else { path }
}

/// Whether a run of characters between separators is a component of its
/// own: neither empty nor `.`.
pub open spec fn is_named_run(run: Seq<char>) -> bool {
    run.len() > 0 && run != seq!['.']
}

/// The last component of `s + run`, where `run` holds no separator:
/// scanning from the back, empty and `.` components are passed over.
pub open spec fn last_component(s: Seq<char>, run: Seq<char>) -> Option<Seq<char>>
    decreases s.len(),
{
    if s.len() == 0 {
        if is_named_run(run) { Some(run) } else { None }
    } else if is_separator(s.last()) {
        if is_named_run(run) { Some(run) } else { last_component(s.drop_last(), seq![]) }
    } else {
        last_component(s.drop_last(), seq![s.last()] + run)
    }
}

/// The final component of a path, as `Path::file_name` gives it on
/// Windows: none where the path ends in `..` or has no component.
pub open spec fn file_name(path: Seq<char>) -> Option<Seq<char>> {
    match last_component(without_drive(path), seq![]) {
        Some(n) if n != seq!['.', '.'] => Some(n),
        _ => None,
    }
}

/// Whether `v[i..j]` is a component of its own.
fn named_run(v: &Vec<char>, i: usize, j: usize) -> (r: bool)
    requires
        i <= j <= v.len(),
    ensures
        r == is_named_run(v@.subrange(i as int, j as int)),
{
    if j == i {
        return false;
    }
    if j == i + 1 && v[i] == '.' {
        assert(v@.subrange(i as int, j as int) =~= seq!['.']);
        return false;
    }
    assert(v@.subrange(i as int, j as int).len() != 1 || v@.subrange(i as int, j as int)[0] != '.');
    true
}

/// The bounds in `v` of the last component of `v[start..]`.
fn last_component_bounds(v: &Vec<char>, start: usize) -> (r: Option<(usize, usize)>)
    requires
        start <= v.len(),
    ensures
        match r {
            Some((b, e)) => start <= b <= e <= v.len()
                && last_component(v@.skip(start as int), seq![]) == Some(v@.subrange(b as int, e as int)),
            None => last_component(v@.skip(start as int), seq![]) is None,
        },
{
    let ghost t = v@.skip(start as int);
    let mut i: usize = v.len();
    let mut end: usize = v.len();
    assert(t.take(t.len() as int) =~= t);
    assert(v@.subrange(i as int, end as int) =~= Seq::<char>::empty());
    while i > start
        invariant
            start <= i <= end <= v.len(),
            t == v@.skip(start as int),
            last_component(t, seq![]) == last_component(t.take(i - start),
                v@.subrange(i as int, end as int)),
        decreases i,
    {
        let c = v[i - 1];
        let ghost run = v@.subrange(i as int, end as int);
        let ghost u = t.take(i - start);
        assert(u.last() == c);
        assert(u.drop_last() =~= t.take(i - 1 - start));
        if c == '/' || c == '\\' {
            if named_run(v, i, end) {
                return Some((i, end));
            }
            end = i - 1;
            assert(v@.subrange(end as int, end as int) =~= Seq::<char>::empty());
        } else {
            assert(seq![c] + run =~= v@.subrange(i - 1, end as int));
        }
        i = i - 1;
    }
    assert(t.take(0) =~= Seq::<char>::empty());
    if named_run(v, start, end) {
        Some((start, end))
    } else {
        None
    }
}

/// Where the part of the path after its drive prefix begins.
fn drive_prefix_len(v: &Vec<char>) -> (r: usize)
    ensures
        r <= v.len(),
        v@.skip(r as int) == without_drive(v@),
{
    if v.len() >= 2 && (('a' <= v[0] && v[0] <= 'z') || ('A' <= v[0] && v[0] <= 'Z')) && v[1] == ':' {
        2
    } else {
        assert(v@.skip(0) =~= v@);
        0
    }
}

/// The final component of a path, if it has one.
fn file_name_of(v: &Vec<char>) -> (r: Option<Vec<char>>)
    ensures
        match r {
            Some(n) => file_name(v@) == Some(n@),
            None => file_name(v@) is None,
        },
{
    let start = drive_prefix_len(v);
    match last_component_bounds(v, start) {
        Some((b, e)) => {
            if e - b == 2 && v[b] == '.' && v[b + 1] == '.' {
                assert(v@.subrange(b as int, e as int) =~= seq!['.', '.']);
                None
            } else {
                let n = vec_slice(v, b, e);
                assert(n@.len() != 2 || n@[0] != '.' || n@[1] != '.');
                Some(n)
            }
        },
        None => None,
    }
}

/// Whether the path names a file whose stem can be taken: it has a final
/// component that is not `..`, and it does not open with two separators.
pub fn has_file_name(path: &str) -> (r: bool)
    ensures
        r == (!has_double_separator_prefix(path@) && file_name(path@) is Some),
{
    let v = chars_of(path);
    if v.len() >= 2 && (v[0] == '/' || v[0] == '\\') && (v[1] == '/' || v[1] == '\\') {
        return false;
    }
    file_name_of(&v).is_some()
}

/// The stem of a tool's file name, which its directory is named after.
pub fn tool_stem(tool_filename: &str) -> (r: String)
    requires
        !has_double_separator_prefix(tool_filename@),
        file_name(tool_filename@) is Some,
    ensures
        r@ == file_stem(file_name(tool_filename@)->0),
{
    let path = chars_of(tool_filename);
    let name = match file_name_of(&path) {
        Some(n) => n,
        None => Vec::new(),
    };
    let mut i = name.len();
    assert(name@.take(i as int) =~= name@);
    while i > 0 && name[i - 1] != '.'
        invariant
            i <= name.len(),
            last_index_of(name@, '.') == last_index_of(name@.take(i as int), '.'),
        decreases i,
    {
        assert(name@.take(i as int).drop_last() =~= name@.take(i - 1));
        i = i - 1;
    }
    if i > 0 {
        assert(name@.take(i as int).last() == '.');
    } else {
        assert(name@.take(0) =~= Seq::<char>::empty());
    }
    if i > 1 {
        string_of(&vec_slice(&name, 0, i - 1))
    } else {
        string_of(&name)
    }
}

/// How well a found file fits: its depth in components, lowered by 100 when
/// one of its components is `bin` (up to ASCII case).
pub open spec fn candidate_score(components: Seq<Seq<char>>) -> int {
    let depth = components.len() as int;
    if exists|i: int| 0 <= i < components.len() && eq_ignore_ascii_case(components[i], "bin"@) {
        depth - 100
    } else {
        depth
    }
}

/// Score a found file by the components of its path.
pub fn score_candidate(components: &Vec<String>) -> (r: i32)
    requires
        components.len() <= i32::MAX,
    ensures
        r == candidate_score(string_views(components@)),
{
    let depth = components.len() as i32;
    assert(depth == components.len());
    let mut i: usize = 0;
    let ghost cs = string_views(components@);
    while i < components.len()
        invariant
            i <= components.len(),
            depth == components.len(),
            cs == string_views(components@),
            forall|k: int| 0 <= k < i ==> !eq_ignore_ascii_case(cs[k], "bin"@),
        decreases components.len() - i,
    {
        if str_eq_ignore_ascii_case(components[i].as_str(), "bin") {
            assert(eq_ignore_ascii_case(cs[i as int], "bin"@));
            return depth - 100;
        }
        i = i + 1;
    }
    depth
}

/// The index of the first candidate with the lowest score, which a stable
/// sort by score puts first.
pub open spec fn is_best_candidate(scores: Seq<i32>, b: int) -> bool {
    &&& 0 <= b < scores.len()
    &&& forall|k: int| 0 <= k < scores.len() ==> scores[b] <= scores[k]
    &&& forall|k: int| 0 <= k < b ==> scores[k] > scores[b]
}

/// Pick the file to use among candidates: the first one with the lowest score.
pub fn best_candidate(scores: &Vec<i32>) -> (r: Option<usize>)
    ensures
        scores.len() == 0 <==> r is None,
        r matches Some(b) ==> is_best_candidate(scores@, b as int),
{
    if scores.len() == 0 {
        return None;
    }
    let mut best: usize = 0;
    let mut i: usize = 1;
    while i < scores.len()
        invariant
            1 <= i <= scores.len(),
            best < i,
            forall|k: int| 0 <= k < i ==> scores@[best as int] <= scores@[k],
            forall|k: int| 0 <= k < best ==> scores@[k] > scores@[best as int],
        decreases scores.len() - i,
    {
        if scores[i] < scores[best] {
            best = i;
        }
        i = i + 1;
    }
    Some(best)
}

} // verus!
