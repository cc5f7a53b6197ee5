//! Paths, as texts with `/` between their components.

use vstd::prelude::*;
use vstd::string::*;

use crate::config::opt_str;
use crate::text::{chars_of, text_of};

verus! {

/// `base` with `child` below it. An absolute `child` takes the place of `base`.
pub open spec fn joined(base: Seq<char>, child: Seq<char>) -> Seq<char> {
    if child.len() > 0 && child[0] == '/' {
        child
    } else if base.len() == 0 || base.last() == '/' {
        base + child
    } else {
        base + "/"@ + child
    }
}

/// `base` with `child` below it. An absolute `child` takes the place of `base`.
pub fn join(base: &str, child: &str) -> (r: String)
    ensures
        r@ == joined(base@, child@),
{
    let b = chars_of(base);
    let c = chars_of(child);
    if c.len() > 0 && c[0] == '/' {
        child.to_owned()
    } else if b.len() == 0 || b[b.len() - 1] == '/' {
        base.to_owned().concat(child)
    } else {
        base.to_owned().concat("/").concat(child)
    }
}

/// A path without what may stand behind its last component: separators, and
/// components that say "here".
pub open spec fn without_tail(p: Seq<char>) -> Seq<char>
    decreases p.len(),
{
    if p.len() > 0 && p.last() == '/' {
        without_tail(p.drop_last())
    } else if p.len() >= 2 && p.last() == '.' && p[p.len() - 2] == '/' {
        without_tail(p.take(p.len() - 2))
    } else {
        p
    }
}

/// Where the part of a path behind its last separator starts.
pub open spec fn name_start(p: Seq<char>) -> int
    decreases p.len(),
{
    if p.len() == 0 || p.last() == '/' {
        p.len() as int
    } else {
        name_start(p.drop_last())
    }
}

/// The last component of a path, where that is a name.
pub open spec fn file_name(p: Seq<char>) -> Option<Seq<char>> {
    let t = without_tail(p);
    let n = t.skip(name_start(t));
    if n.len() == 0 || n == "."@ || n == ".."@ {
        None
    } else {
        Some(n)
    }
}

/// Where the last dot before the place `k` stands; -1 where none does.
pub open spec fn last_dot(n: Seq<char>, k: int) -> int
    decreases k,
{
    if k <= 0 {
        -1
    } else if n[k - 1] == '.' {
        k - 1
    } else {
        last_dot(n, k - 1)
    }
}

/// A name up to its last dot; all of it where the only dot comes first or there
/// is none.
pub open spec fn stem(n: Seq<char>) -> Seq<char> {
    let d = last_dot(n, n.len() as int);
    if d > 0 {
        n.take(d)
    } else {
        n
    }
}

/// A path whose name has another extension. One that does not end in a name stays
/// as it is.
pub open spec fn extended(p: Seq<char>, ext: Seq<char>) -> Seq<char> {
    let t = without_tail(p);
    match file_name(p) {
        None => p,
        Some(n) => t.take(name_start(t)) + stem(n) + (if ext.len() == 0 {
            ""@
        } else {
            "."@ + ext
        }),
    }
}

/// What a path is below; `None` for the root and for the empty path.
pub open spec fn parent_of(p: Seq<char>) -> Option<Seq<char>> {
    let t = without_tail(p);
    let d = without_tail(t.take(name_start(t)));
    if t.len() == 0 {
        None
    } else if d.len() == 0 && p[0] == '/' {
        Some("/"@)
    } else {
        Some(d)
    }
}

/// A path with another name at its end.
pub open spec fn renamed(p: Seq<char>, name: Seq<char>) -> Seq<char> {
    if file_name(p) is Some {
        joined(parent_of(p)->0, name)
    } else {
        joined(p, name)
    }
}

fn tail_at(v: &Vec<char>, from: usize) -> (r: usize)
    requires
        from <= v@.len(),
    ensures
        r <= from,
        v@.take(r as int) == without_tail(v@.take(from as int)),
{
    let mut n: usize = from;
    while n > 0 && (v[n - 1] == '/' || (n >= 2 && v[n - 1] == '.' && v[n - 2] == '/'))
        invariant
            n <= from <= v@.len(),
            without_tail(v@.take(n as int)) == without_tail(v@.take(from as int)),
        decreases n,
    {
        let ghost p = v@.take(n as int);
        if v[n - 1] == '/' {
            assert(p.drop_last() =~= v@.take(n - 1));
            n = n - 1;
        } else {
            assert(p.take(p.len() - 2) =~= v@.take(n - 2));
            n = n - 2;
        }
    }
    n
}

fn name_at(v: &Vec<char>, end: usize) -> (r: usize)
    requires
        end <= v@.len(),
    ensures
        r <= end,
        r == name_start(v@.take(end as int)),
{
    let mut k: usize = end;
    while k > 0 && v[k - 1] != '/'
        invariant
            k <= end <= v@.len(),
            name_start(v@.take(k as int)) == name_start(v@.take(end as int)),
        decreases k,
    {
        assert(v@.take(k as int).drop_last() =~= v@.take(k - 1));
        k = k - 1;
    }
    k
}

/// Whether a part of a text is a name: where it starts and ends.
fn is_name(v: &Vec<char>, start: usize, end: usize) -> (r: bool)
    requires
        start <= end <= v@.len(),
    ensures
        ({
            let n = v@.subrange(start as int, end as int);
            r == !(n.len() == 0 || n == "."@ || n == ".."@)
        }),
{
    proof {
        reveal_strlit(".");
        reveal_strlit("..");
    }
    let ghost n = v@.subrange(start as int, end as int);
    if start == end {
        false
    } else if end - start == 1 {
        assert(n == "."@ <==> n[0] == '.') by {
            if n[0] == '.' {
                assert(n =~= "."@);
            }
        }
        v[start] != '.'
    } else if end - start == 2 {
        assert(n == ".."@ <==> n[0] == '.' && n[1] == '.') by {
            if n[0] == '.' && n[1] == '.' {
                assert(n =~= ".."@);
            }
        }
        v[start] != '.' || v[start + 1] != '.'
    } else {
        true
    }
}

/// A path whose name has another extension. One that does not end in a name stays
/// as it is.
pub fn with_extension(path: &str, ext: &str) -> (r: String)
    requires
        !ext@.contains('/'),
    ensures
        r@ == extended(path@, ext@),
{
    let v = chars_of(path);
    let end: usize = tail_at(&v, v.len());
    let start: usize = name_at(&v, end);
    let ghost t = v@.take(end as int);
    let ghost n = v@.subrange(start as int, end as int);
    proof {
        assert(v@.take(v@.len() as int) =~= v@);
        assert(t == without_tail(path@));
        assert(t.skip(name_start(t)) =~= n);
    }
    if !is_name(&v, start, end) {
        return path.to_owned();
    }
    let mut k: usize = end;
    while k > start && v[k - 1] != '.'
        invariant
            start <= k <= end <= v@.len(),
            n == v@.subrange(start as int, end as int),
            last_dot(n, k - start) == last_dot(n, n.len() as int),
        decreases k,
    {
        k = k - 1;
    }
    let cut: usize = if k > start + 1 { k - 1 } else { end };
    let head = text_of(&v, 0, cut);
    assert(head@ =~= t.take(start as int) + stem(n));
    if ext.is_empty() {
        proof {
            reveal_strlit("");
        }
        assert(head@ =~= head@ + ""@);
        head
    } else {
        let r = head.concat(".").concat(ext);
        assert(r@ =~= t.take(start as int) + stem(n) + ("."@ + ext@));
        r
    }
}

/// What a path is below; `None` for the root and for the empty path.
pub fn parent(path: &str) -> (r: Option<String>)
    ensures
        match r {
            Some(d) => parent_of(path@) == Some(d@),
            None => parent_of(path@) is None,
        },
{
    let v = chars_of(path);
    let end: usize = tail_at(&v, v.len());
    assert(v@.take(v@.len() as int) =~= v@);
    if end == 0 {
        return None;
    }
    let start: usize = name_at(&v, end);
    let ghost t = v@.take(end as int);
    assert(t.take(start as int) =~= v@.take(start as int));
    let d: usize = tail_at(&v, start);
    if d == 0 && v[0] == '/' {
        return Some("/".to_owned());
    }
    let r = text_of(&v, 0, d);
    assert(r@ =~= v@.take(d as int));
    Some(r)
}

/// A path with another name at its end.
pub fn with_file_name(path: &str, name: &str) -> (r: String)
    ensures
        r@ == renamed(path@, name@),
{
    let v = chars_of(path);
    let end: usize = tail_at(&v, v.len());
    let start: usize = name_at(&v, end);
    let ghost t = v@.take(end as int);
    proof {
        assert(v@.take(v@.len() as int) =~= v@);
        assert(t.skip(name_start(t)) =~= v@.subrange(start as int, end as int));
    }
    if is_name(&v, start, end) {
        match parent(path) {
            Some(d) => join(d.as_str(), name),
            None => join(path, name),
        }
    } else {
        join(path, name)
    }
}

/// A path that starts with a tilde, written out: the tilde stands for a home
/// directory. Others, and all where there is no home directory, stay as they are.
pub open spec fn written_out(p: Seq<char>, home: Option<Seq<char>>) -> Seq<char> {
    match home {
        None => p,
        Some(h) => if p == "~"@ {
            h
        } else if p.len() >= 2 && p[0] == '~' && p[1] == '/' {
            joined(h, p.skip(2))
        } else {
            p
        },
    }
}

/// A path that starts with a tilde, written out.
pub fn expand_tilde(path: &str, home: Option<&str>) -> (r: String)
    ensures
        r@ == written_out(path@, opt_str(home)),
{
    proof {
        reveal_strlit("~");
    }
    match home {
        None => path.to_owned(),
        Some(h) => {
            let v = chars_of(path);
            if v.len() == 1 && v[0] == '~' {
                assert(path@ =~= "~"@);
                h.to_owned()
            } else if v.len() >= 2 && v[0] == '~' && v[1] == '/' {
                let rest = text_of(&v, 2, v.len());
                assert(rest@ =~= path@.skip(2));
                join(h, rest.as_str())
            } else {
                path.to_owned()
            }
        },
    }
}

} // verus!
