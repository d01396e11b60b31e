//! Paths as text, in the way of Unix: names with slashes between them.

use vstd::prelude::*;

use crate::text;

verus! {

/// The path without what does not change where it leads: slashes at its end,
/// and dots that stand for the directory itself.
pub open spec fn trimmed_end(p: Seq<char>) -> Seq<char>
    decreases p.len(),
{
    if p.len() > 0 && p.last() == '/' {
        trimmed_end(p.drop_last())
    } else if p.len() >= 2 && p[p.len() - 1] == '.' && p[p.len() - 2] == '/' {
        trimmed_end(p.take(p.len() - 2))
    } else {
        p
    }
}

/// Where the last name of a path starts: behind its last slash.
pub open spec fn name_start(p: Seq<char>) -> nat
    decreases p.len(),
{
    if p.len() == 0 || p.last() == '/' {
        p.len()
    } else {
        name_start(p.drop_last())
    }
}

pub open spec fn last_name(p: Seq<char>) -> Seq<char> {
    let q = trimmed_end(p);
    q.skip(name_start(q) as int)
}

/// The last name of a path, where it names something: not the directory itself
/// or the one above it.
pub open spec fn file_name(p: Seq<char>) -> Option<Seq<char>> {
    let name = last_name(p);
    if name.len() == 0 || name == seq!['.'] || name == seq!['.', '.'] {
        None
    } else {
        Some(name)
    }
}

/// Where the last dot of a name is, or its length without one.
pub open spec fn last_dot(name: Seq<char>) -> int
    decreases name.len(),
{
    if name.len() == 0 {
        -1
    } else if name.last() == '.' {
        name.len() - 1
    } else {
        last_dot(name.drop_last())
    }
}

/// How much of a name stands before its extension: all of it where its only dot
/// is the first character.
pub open spec fn stem_len(name: Seq<char>) -> int {
    if last_dot(name) <= 0 {
        name.len() as int
    } else {
        last_dot(name)
    }
}

/// The last name of a path without its extension.
pub open spec fn file_stem(p: Seq<char>) -> Option<Seq<char>> {
    match file_name(p) {
        Some(name) => Some(name.take(stem_len(name))),
        None => None,
    }
}

/// The extension of the last name of a path.
pub open spec fn extension(p: Seq<char>) -> Option<Seq<char>> {
    match file_name(p) {
        Some(name) => if last_dot(name) <= 0 {
            None
        } else {
            Some(name.skip(last_dot(name) + 1))
        },
        None => None,
    }
}

/// `b` as seen from `a`: `b` itself where it starts at the root.
pub open spec fn joined(a: Seq<char>, b: Seq<char>) -> Seq<char> {
    if b.len() > 0 && b[0] == '/' {
        b
    } else if a.len() == 0 || a.last() == '/' {
        a + b
    } else {
        a.push('/') + b
    }
}

/// The directory that a path lies in. The root and the empty path lie in none.
pub open spec fn parent(p: Seq<char>) -> Option<Seq<char>> {
    let q = trimmed_end(p);
    if q.len() == 0 {
        None
    } else {
        let head = q.take(name_start(q) as int);
        let dir = trimmed_end(head);
        if dir.len() == 0 && head.len() > 0 {
            Some(seq!['/'])
        } else {
            Some(dir)
        }
    }
}

/// The path with another extension; a path that names nothing stays.
pub open spec fn with_extension(p: Seq<char>, ext: Seq<char>) -> Seq<char> {
    match file_name(p) {
        Some(name) => {
            let q = trimmed_end(p);
            let stem_end = name_start(q) + stem_len(name);
            q.take(stem_end).push('.') + ext
        },
        None => p,
    }
}

proof fn lemma_last_dot_bound(name: Seq<char>)
    ensures
        -1 <= last_dot(name) < name.len(),
    decreases name.len(),
{
    if name.len() > 0 && name.last() != '.' {
        lemma_last_dot_bound(name.drop_last());
    }
}

/// How long the first `len` characters of a path are without what stands at their
/// end for nothing.
fn trimmed_len(chars: &Vec<char>, len: usize) -> (n: usize)
    requires
        len <= chars@.len(),
    ensures
        n <= len,
        chars@.take(n as int) == trimmed_end(chars@.take(len as int)),
{
    let mut n: usize = len;
    while n > 0 && (chars[n - 1] == '/' || (n >= 2 && chars[n - 1] == '.' && chars[n - 2] == '/'))
        invariant
            n <= len <= chars@.len(),
            trimmed_end(chars@.take(n as int)) == trimmed_end(chars@.take(len as int)),
        decreases n,
    {
        let ghost p = chars@.take(n as int);
        if chars[n - 1] == '/' {
            proof {
                assert(p.last() == '/');
                assert(p.drop_last() =~= chars@.take(n - 1));
            }
            n -= 1;
        } else {
            proof {
                assert(p[n - 1] == '.' && p[n - 2] == '/');
                assert(p.take(n - 2) =~= chars@.take(n - 2));
            }
            n -= 2;
        }
    }
    proof {
        let p = chars@.take(n as int);
        assert(trimmed_end(p) == p);
    }
    n
}

fn start_of_name(chars: &Vec<char>, n: usize) -> (start: usize)
    requires
        n <= chars@.len(),
    ensures
        start <= n,
        start == name_start(chars@.take(n as int)),
{
    let mut start: usize = n;
    while start > 0 && chars[start - 1] != '/'
        invariant
            start <= n <= chars@.len(),
            name_start(chars@.take(start as int)) == name_start(chars@.take(n as int)),
        decreases start,
    {
        proof {
            let p = chars@.take(start as int);
            assert(p.last() == chars@[start - 1]);
            assert(p.drop_last() =~= chars@.take(start - 1));
        }
        start -= 1;
    }
    proof {
        let p = chars@.take(start as int);
        if start > 0 {
            assert(p.last() == chars@[start - 1]);
        }
        assert(name_start(p) == p.len());
    }
    start
}

/// The place of the last dot between `start` and `n`, counted from `start`.
fn dot_place(chars: &Vec<char>, start: usize, n: usize) -> (dot: Option<usize>)
    requires
        start <= n <= chars@.len(),
    ensures
        match dot {
            Some(d) => d == last_dot(chars@.subrange(start as int, n as int)) && start + d < n,
            None => last_dot(chars@.subrange(start as int, n as int)) == -1,
        },
{
    let ghost name = chars@.subrange(start as int, n as int);
    let mut end: usize = n;
    assert(name.take(end - start) =~= name);
    while end > start && chars[end - 1] != '.'
        invariant
            start <= end <= n <= chars@.len(),
            name == chars@.subrange(start as int, n as int),
            last_dot(name.take(end - start)) == last_dot(name),
        decreases end,
    {
        proof {
            let p = name.take(end - start);
            assert(p.last() == chars@[end - 1]);
            assert(p.drop_last() =~= name.take(end - start - 1));
        }
        end -= 1;
    }
    let ghost p = name.take(end - start);
    if end == start {
        assert(p.len() == 0);
        None
    } else {
        assert(p.last() == chars@[end - 1]);
        Some(end - start - 1)
    }
}

/// The parts of a path: where its last name starts, where the name's stem and
/// the name itself end, or nothing where the path names nothing.
fn name_bounds(chars: &Vec<char>) -> (bounds: Option<(usize, usize, usize)>)
    ensures
        match bounds {
            Some((start, stem_end, end)) => {
                let name = chars@.subrange(start as int, end as int);
                &&& start <= stem_end <= end <= chars@.len()
                &&& chars@.take(end as int) == trimmed_end(chars@)
                &&& start == name_start(trimmed_end(chars@))
                &&& file_name(chars@) == Some(name)
                &&& stem_end - start == stem_len(name)
            },
            None => file_name(chars@) is None,
        },
{
    let end: usize = trimmed_len(chars, chars.len());
    assert(chars@.take(chars@.len() as int) =~= chars@);
    let start: usize = start_of_name(chars, end);
    let ghost q = trimmed_end(chars@);
    let ghost name = chars@.subrange(start as int, end as int);
    assert(q.skip(start as int) =~= name);
    assert(last_name(chars@) == name);
    if start == end {
        return None;
    }
    if end - start == 1 && chars[start] == '.' {
        assert(name =~= seq!['.']);
        return None;
    }
    if end - start == 2 && chars[start] == '.' && chars[start + 1] == '.' {
        assert(name =~= seq!['.', '.']);
        return None;
    }
    proof {
        if name == seq!['.'] {
            assert(name[0] == '.');
        }
        if name == seq!['.', '.'] {
            assert(name[0] == '.' && name[1] == '.');
        }
    }
    match dot_place(chars, start, end) {
        Some(d) => if d > 0 {
            Some((start, start + d, end))
        } else {
            Some((start, end, end))
        },
        None => Some((start, end, end)),
    }
}

/// The last name of a path, where it names something.
pub fn name_of(path: &str) -> (name: Option<String>)
    ensures
        match name {
            Some(n) => file_name(path@) == Some(n@),
            None => file_name(path@) is None,
        },
{
    let chars = text::chars_of(path);
    match name_bounds(&chars) {
        Some((start, _, end)) => Some(text::text_of(&chars, start, end)),
        None => None,
    }
}

/// The last name of a path without its extension.
pub fn stem_of(path: &str) -> (stem: Option<String>)
    ensures
        match stem {
            Some(s) => file_stem(path@) == Some(s@),
            None => file_stem(path@) is None,
        },
{
    let chars = text::chars_of(path);
    match name_bounds(&chars) {
        Some((start, stem_end, end)) => {
            assert(chars@.subrange(start as int, end as int).take(stem_end - start)
                =~= chars@.subrange(start as int, stem_end as int));
            Some(text::text_of(&chars, start, stem_end))
        },
        None => None,
    }
}

/// The extension of the last name of a path.
pub fn extension_of(path: &str) -> (ext: Option<String>)
    ensures
        match ext {
            Some(e) => extension(path@) == Some(e@),
            None => extension(path@) is None,
        },
{
    let chars = text::chars_of(path);
    match name_bounds(&chars) {
        Some((start, stem_end, end)) => {
            let ghost name = chars@.subrange(start as int, end as int);
            proof {
                lemma_last_dot_bound(name);
            }
            if stem_end == end {
                assert(last_dot(name) <= 0);
                None
            } else {
                assert(name.skip(stem_end - start + 1) =~= chars@.subrange(
                    stem_end + 1,
                    end as int,
                ));
                Some(text::text_of(&chars, stem_end + 1, end))
            }
        },
        None => None,
    }
}

/// The directory that a path lies in.
pub fn parent_of(path: &str) -> (dir: Option<String>)
    ensures
        match dir {
            Some(d) => parent(path@) == Some(d@),
            None => parent(path@) is None,
        },
{
    let chars = text::chars_of(path);
    let end: usize = trimmed_len(&chars, chars.len());
    assert(chars@.take(chars@.len() as int) =~= chars@);
    if end == 0 {
        return None;
    }
    let start: usize = start_of_name(&chars, end);
    let ghost q = trimmed_end(chars@);
    assert(q.take(start as int) =~= chars@.take(start as int));
    let n: usize = trimmed_len(&chars, start);
    if n == 0 && start > 0 {
        let mut root = String::new();
        root.push('/');
        assert(root@ =~= seq!['/']);
        return Some(root);
    }
    assert(chars@.take(n as int) =~= chars@.subrange(0, n as int));
    Some(text::text_of(&chars, 0, n))
}

/// `b` as seen from `a`.
pub fn join(a: &str, b: &str) -> (path: String)
    ensures
        path@ == joined(a@, b@),
{
    let left = text::chars_of(a);
    let right = text::chars_of(b);
    if right.len() > 0 && right[0] == '/' {
        return b.to_owned();
    }
    let mut path = a.to_owned();
    if left.len() > 0 && left[left.len() - 1] != '/' {
        path.push('/');
    }
    path.append(b);
    path
}

/// The path with another extension.
pub fn set_extension(path: &str, ext: &str) -> (out: String)
    ensures
        out@ == with_extension(path@, ext@),
{
    let chars = text::chars_of(path);
    match name_bounds(&chars) {
        Some((start, stem_end, end)) => {
            let mut out = text::text_of(&chars, 0, stem_end);
            assert(trimmed_end(chars@).take(stem_end as int) =~= chars@.subrange(
                0,
                stem_end as int,
            ));
            out.push('.');
            out.append(ext);
            out
        },
        None => path.to_owned(),
    }
}

} // verus!
