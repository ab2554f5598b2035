//! Paths as text, read the way a Unix host reads them: segments parted by
//! `/`, where empty segments and `.` segments inside a path stand for nothing.

use crate::text::chars_of;
use vstd::prelude::*;
use vstd::string::*;

verus! {

/// Where the last segment of `p` starts: just past its last `/`, or at 0.
pub open spec fn last_segment_start(p: Seq<char>) -> int
    decreases p.len(),
{
    if p.len() == 0 {
        0
    } else if p.last() == '/' {
        p.len() as int
    } else {
        last_segment_start(p.drop_last())
    }
}

/// The text after the last `/` of `p`.
pub open spec fn last_segment(p: Seq<char>) -> Seq<char> {
    p.subrange(last_segment_start(p), p.len() as int)
}

/// `p` without the `/` characters and the `.` segments at its end.  What
/// remains is empty or ends in a segment that names something.
pub open spec fn trimmed(p: Seq<char>) -> Seq<char>
    decreases p.len(),
{
    if p.len() == 0 {
        p
    } else if p.last() == '/' {
        trimmed(p.drop_last())
    } else if p.last() == '.' && (p.len() == 1 || p[p.len() - 2] == '/') {
        trimmed(p.drop_last())
    } else {
        p
    }
}

/// `p` starts at the root.
pub open spec fn rooted(p: Seq<char>) -> bool {
    p.len() > 0 && p[0] == '/'
}

/// `p` is relative and starts with a `.` segment.
pub open spec fn starts_here(p: Seq<char>) -> bool {
    p.len() > 0 && p[0] == '.' && (p.len() == 1 || p[1] == '/')
}

/// How many characters stand before the segments of `p`: one for the root or
/// for a leading `.`.
pub open spec fn lead(p: Seq<char>) -> int {
    if rooted(p) || starts_here(p) {
        1
    } else {
        0
    }
}

/// The file name: the last segment that is neither empty nor `.`, unless that
/// is `..`.
pub open spec fn name_of(p: Seq<char>) -> Option<Seq<char>> {
    let t = trimmed(p);
    let segment = last_segment(t);
    if t.len() == 0 || segment == seq!['.', '.'] {
        None
    } else {
        Some(segment)
    }
}

/// The index of the last `.` of `name`, or -1.
pub open spec fn last_dot(name: Seq<char>) -> int
    decreases name.len(),
{
    if name.len() == 0 {
        -1
    } else if name.last() == '.' {
        name.len() - 1
    } else {
        last_dot(name.drop_last())
    }
}

/// The extension: what follows the last `.` of the file name, where that `.`
/// is not the name's first character.
pub open spec fn extension_of(p: Seq<char>) -> Option<Seq<char>> {
    match name_of(p) {
        None => None,
        Some(name) => {
            let dot = last_dot(name);
            if dot <= 0 {
                None
            } else {
                Some(name.subrange(dot + 1, name.len() as int))
            }
        },
    }
}

/// The stem: the file name without its extension and the `.` before it.
pub open spec fn stem_of(p: Seq<char>) -> Option<Seq<char>> {
    match name_of(p) {
        None => None,
        Some(name) => {
            let dot = last_dot(name);
            if dot <= 0 {
                Some(name)
            } else {
                Some(name.subrange(0, dot))
            }
        },
    }
}

/// The parent: `p` without its file name or its last `..`, and without what
/// `trimmed` drops before it.  The root and the empty path have none.
pub open spec fn parent_of(p: Seq<char>) -> Option<Seq<char>> {
    let k = lead(p);
    let body = trimmed(p.subrange(k, p.len() as int));
    if body.len() == 0 {
        if !rooted(p) && starts_here(p) {
            Some(Seq::empty())
        } else {
            None
        }
    } else {
        let rest = trimmed(body.take(last_segment_start(body)));
        Some(p.subrange(0, k) + rest)
    }
}

/// `rel` seen from `base`: a rooted `rel` stands for itself.
pub open spec fn joined(base: Seq<char>, rel: Seq<char>) -> Seq<char> {
    if rooted(rel) {
        rel
    } else if base.len() == 0 || base.last() == '/' {
        base + rel
    } else {
        base + seq!['/'] + rel
    }
}

/// If no `/` stands in `p` from `i` on, and one stands just before `i` (or `i`
/// is 0), the last segment starts at `i`.
pub proof fn lemma_segment_start(p: Seq<char>, i: int)
    requires
        0 <= i <= p.len(),
        forall|j: int| i <= j < p.len() ==> p[j] != '/',
        i == 0 || p[i - 1] == '/',
    ensures
        last_segment_start(p) == i,
    decreases p.len(),
{
    if p.len() > i {
        lemma_segment_start(p.drop_last(), i);
    }
}

/// If no `.` stands in `name` after `i`, and one stands at `i` (or `i` is -1),
/// the last dot is at `i`.
pub proof fn lemma_last_dot(name: Seq<char>, i: int)
    requires
        -1 <= i < name.len(),
        forall|j: int| i < j < name.len() ==> name[j] != '.',
        i == -1 || name[i] == '.',
    ensures
        last_dot(name) == i,
    decreases name.len(),
{
    if name.len() > i + 1 {
        lemma_last_dot(name.drop_last(), i);
    }
}

/// Where the last segment of the first `end` characters starts.
fn segment_start(v: &Vec<char>, end: usize) -> (r: usize)
    requires
        end <= v.len(),
    ensures
        r <= end,
        r == last_segment_start(v@.take(end as int)),
{
    let mut i: usize = end;
    while i > 0 && v[i - 1] != '/'
        invariant
            i <= end <= v.len(),
            forall|j: int| i <= j < end ==> v@[j] != '/',
        decreases i,
    {
        i = i - 1;
    }
    proof {
        lemma_segment_start(v@.take(end as int), i as int);
    }
    i
}

/// How much of the first `end` characters is left once the `/` characters and
/// `.` segments at their end are dropped.
fn trimmed_end(v: &Vec<char>, end: usize) -> (r: usize)
    requires
        end <= v.len(),
    ensures
        r <= end,
        v@.take(r as int) == trimmed(v@.take(end as int)),
{
    let mut e: usize = end;
    loop
        invariant
            e <= end <= v.len(),
            trimmed(v@.take(e as int)) == trimmed(v@.take(end as int)),
        decreases e,
    {
        if e == 0 {
            return e;
        }
        let c = v[e - 1];
        let idle = c == '/' || (c == '.' && (e == 1 || v[e - 2] == '/'));
        proof {
            assert(v@.take(e as int).drop_last() =~= v@.take(e - 1));
        }
        if !idle {
            return e;
        }
        e = e - 1;
    }
}

/// The index of the last `.` among the characters from `from` to `to`.
fn dot_in(v: &Vec<char>, from: usize, to: usize) -> (r: Option<usize>)
    requires
        from <= to <= v.len(),
    ensures
        match r {
            Some(i) => from <= i < to && last_dot(v@.subrange(from as int, to as int)) == i - from,
            None => last_dot(v@.subrange(from as int, to as int)) == -1,
        },
{
    let mut i: usize = to;
    while i > from
        invariant
            from <= i <= to <= v.len(),
            forall|j: int| i <= j < to ==> v@[j] != '.',
        decreases i,
    {
        i = i - 1;
        if v[i] == '.' {
            proof {
                lemma_last_dot(v@.subrange(from as int, to as int), i - from);
            }
            return Some(i);
        }
    }
    proof {
        lemma_last_dot(v@.subrange(from as int, to as int), -1);
    }
    None
}

/// The bounds of the file name of the path whose characters are `v`.
fn name_bounds(v: &Vec<char>) -> (r: Option<(usize, usize)>)
    ensures
        match r {
            Some((from, to)) => from <= to <= v.len() && name_of(v@) == Some(
                v@.subrange(from as int, to as int),
            ),
            None => name_of(v@) is None,
        },
{
    assert(v@.take(v.len() as int) =~= v@);
    let e = trimmed_end(v, v.len());
    if e == 0 {
        return None;
    }
    let start = segment_start(v, e);
    let ghost segment = v@.subrange(start as int, e as int);
    assert(last_segment(v@.take(e as int)) =~= segment);
    if e - start == 2 && v[start] == '.' && v[start + 1] == '.' {
        assert(segment =~= seq!['.', '.']);
        return None;
    }
    assert(segment != seq!['.', '.']) by {
        if segment == seq!['.', '.'] {
            assert(segment.len() == 2);
            assert(segment[0] == '.' && segment[1] == '.');
        }
    }
    Some((start, e))
}

/// The file name of `path`.
pub fn file_name(path: &str) -> (r: Option<String>)
    ensures
        match r {
            Some(name) => name_of(path@) == Some(name@),
            None => name_of(path@) is None,
        },
{
    let v = chars_of(path);
    match name_bounds(&v) {
        Some((from, to)) => Some(String::from_str(path.substring_char(from, to))),
        None => None,
    }
}

/// The extension of `path`, without the dot.
pub fn extension(path: &str) -> (r: Option<String>)
    ensures
        match r {
            Some(ext) => extension_of(path@) == Some(ext@),
            None => extension_of(path@) is None,
        },
{
    let v = chars_of(path);
    match name_bounds(&v) {
        Some((from, to)) => {
            match dot_in(&v, from, to) {
                Some(dot) => {
                    if dot == from {
                        None
                    } else {
                        proof {
                            let name = v@.subrange(from as int, to as int);
                            assert(name.subrange(dot - from + 1, name.len() as int) =~= v@.subrange(
                                dot + 1,
                                to as int,
                            ));
                        }
                        Some(String::from_str(path.substring_char(dot + 1, to)))
                    }
                },
                None => None,
            }
        },
        None => None,
    }
}

/// The stem of `path`: its file name without the extension.
pub fn file_stem(path: &str) -> (r: Option<String>)
    ensures
        match r {
            Some(stem) => stem_of(path@) == Some(stem@),
            None => stem_of(path@) is None,
        },
{
    let v = chars_of(path);
    match name_bounds(&v) {
        Some((from, to)) => {
            match dot_in(&v, from, to) {
                Some(dot) => {
                    if dot == from {
                        Some(String::from_str(path.substring_char(from, to)))
                    } else {
                        proof {
                            let name = v@.subrange(from as int, to as int);
                            assert(name.subrange(0, dot - from) =~= v@.subrange(
                                from as int,
                                dot as int,
                            ));
                        }
                        Some(String::from_str(path.substring_char(from, dot)))
                    }
                },
                None => Some(String::from_str(path.substring_char(from, to))),
            }
        },
        None => None,
    }
}

/// The characters of `v` from index `k` on.
fn tail_of(v: &Vec<char>, k: usize) -> (r: Vec<char>)
    requires
        k <= v.len(),
    ensures
        r@ == v@.subrange(k as int, v.len() as int),
{
    let mut r: Vec<char> = Vec::new();
    let mut i: usize = k;
    while i < v.len()
        invariant
            k <= i <= v.len(),
            r@ == v@.subrange(k as int, i as int),
        decreases v.len() - i,
    {
        r.push(v[i]);
        assert(r@ =~= v@.subrange(k as int, i + 1));
        i = i + 1;
    }
    r
}

/// The parent of `path`.
pub fn parent(path: &str) -> (r: Option<String>)
    ensures
        match r {
            Some(dir) => parent_of(path@) == Some(dir@),
            None => parent_of(path@) is None,
        },
{
    let v = chars_of(path);
    let root = v.len() > 0 && v[0] == '/';
    let here = v.len() > 0 && v[0] == '.' && (v.len() == 1 || v[1] == '/');
    let k: usize = if root || here {
        1
    } else {
        0
    };
    let body = tail_of(&v, k);
    assert(body@.take(body.len() as int) =~= body@);
    let e = trimmed_end(&body, body.len());
    if e == 0 {
        assert(body@.take(0) =~= Seq::<char>::empty());
        if here && !root {
            proof {
                assert(path@.subrange(0, 0) =~= Seq::<char>::empty());
            }
            return Some(String::from_str(path.substring_char(0, 0)));
        }
        return None;
    }
    let start = segment_start(&body, e);
    let cut = trimmed_end(&body, start);
    proof {
        let tb = body@.take(e as int);
        assert(tb.take(start as int) =~= body@.take(start as int));
        assert(path@.subrange(0, k as int) + body@.take(cut as int) =~= path@.subrange(
            0,
            k + cut,
        ));
    }
    Some(String::from_str(path.substring_char(0, k + cut)))
}

/// Whether `path` starts at the root.
pub fn is_absolute(path: &str) -> (b: bool)
    ensures
        b == rooted(path@),
{
    let v = chars_of(path);
    v.len() > 0 && v[0] == '/'
}

/// `rel` seen from `base`.
pub fn join(base: &str, rel: &str) -> (r: String)
    ensures
        r@ == joined(base@, rel@),
{
    let b = chars_of(base);
    if is_absolute(rel) {
        String::from_str(rel)
    } else if b.len() == 0 || b[b.len() - 1] == '/' {
        let mut r = String::from_str(base);
        r.append(rel);
        r
    } else {
        proof {
            reveal_strlit("/");
            assert("/"@ =~= seq!['/']);
        }
        let mut r = String::from_str(base);
        r.append("/");
        r.append(rel);
        r
    }
}

} // verus!
