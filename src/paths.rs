//! Names of save files: the `.ron` extension that every saved tree carries,
//! and the file-name part of a path.
use vstd::prelude::*;

verus! {

pub open spec fn ron_ext() -> Seq<char> {
    seq!['r', 'o', 'n']
}

/// The index of the dot that opens the extension of the last path
/// component of `p`, or -1 when that component has none. A dot that opens
/// the component (a hidden file such as `.ron`) starts no extension.
pub open spec fn extension_dot(p: Seq<char>) -> int
    decreases p.len(),
{
    if p.len() == 0 {
        -1
    } else if p.last() == '/' {
        -1
    } else if p.last() == '.' {
        if p.len() >= 2 && p[p.len() - 2] != '/' {
            p.len() - 1
        } else {
            -1
        }
    } else {
        extension_dot(p.drop_last())
    }
}

/// The path already ends in `.ron`.
pub open spec fn has_ron_extension(p: Seq<char>) -> bool {
    extension_dot(p) >= 0 && p.subrange(extension_dot(p) + 1, p.len() as int) == ron_ext()
}

/// `p` with its extension replaced by, or extended with, `ron`.
pub open spec fn with_ron_extension(p: Seq<char>) -> Seq<char> {
    if has_ron_extension(p) {
        p
    } else if extension_dot(p) >= 0 {
        p.subrange(0, extension_dot(p) + 1) + ron_ext()
    } else {
        p + seq!['.'] + ron_ext()
    }
}

/// Where the last path component of `p` starts.
pub open spec fn file_name_start(p: Seq<char>) -> int
    decreases p.len(),
{
    if p.len() == 0 {
        0
    } else if p.last() == '/' {
        p.len() as int
    } else {
        file_name_start(p.drop_last())
    }
}

pub open spec fn file_name(p: Seq<char>) -> Seq<char> {
    p.subrange(file_name_start(p), p.len() as int)
}

proof fn lemma_file_name_start_bounds(p: Seq<char>)
    ensures
        0 <= file_name_start(p) <= p.len(),
    decreases p.len(),
{
    if p.len() > 0 && p.last() != '/' {
        lemma_file_name_start_bounds(p.drop_last());
    }
}

proof fn lemma_extension_dot_bounds(p: Seq<char>)
    ensures
        -1 <= extension_dot(p) < p.len(),
    decreases p.len(),
{
    if p.len() > 0 && p.last() != '/' && p.last() != '.' {
        lemma_extension_dot_bounds(p.drop_last());
    }
}

/// Finds the extension dot of `p`, scanning from the end.
fn find_extension_dot(p: &str) -> (r: Option<usize>)
    ensures
        match r {
            Some(d) => extension_dot(p@) == d as int,
            None => extension_dot(p@) == -1,
        },
{
    let mut i: usize = p.unicode_len();
    assert(p@.subrange(0, i as int) =~= p@);
    while i > 0
        invariant
            i <= p@.len(),
            extension_dot(p@) == extension_dot(p@.subrange(0, i as int)),
        decreases i,
    {
        let ghost q = p@.subrange(0, i as int);
        let c = p.get_char(i - 1);
        assert(q.last() == c);
        if c == '/' {
            return None;
        }
        if c == '.' {
            if i >= 2 && p.get_char(i - 2) != '/' {
                return Some(i - 1);
            }
            return None;
        }
        assert(q.drop_last() =~= p@.subrange(0, i - 1));
        i = i - 1;
    }
    assert(p@.subrange(0, 0) =~= Seq::<char>::empty());
    None
}

/// The path under which a tree named `name` is saved: `name` itself when
/// it ends in `.ron`, else `name` with its extension replaced by `ron`, or
/// with `.ron` added when it has none.
pub fn save_path_for(name: &str) -> (r: String)
    ensures
        r@ == with_ron_extension(name@),
{
    proof {
        lemma_extension_dot_bounds(name@);
        reveal_strlit("ron");
        reveal_strlit(".ron");
    }
    let n = name.unicode_len();
    match find_extension_dot(name) {
        Some(d) => {
            let is_ron = n - d == 4 && name.get_char(d + 1) == 'r' && name.get_char(d + 2) == 'o'
                && name.get_char(d + 3) == 'n';
            if is_ron {
                assert(name@.subrange(d + 1, n as int) =~= ron_ext());
                String::from_str(name)
            } else {
                assert(name@.subrange(d + 1, n as int) != ron_ext()) by {
                    if n == d + 4 {
                        let e = name@.subrange(d + 1, n as int);
                        assert(e[0] == name@[d + 1]);
                        assert(e[1] == name@[d + 2]);
                        assert(e[2] == name@[d + 3]);
                    }
                }
                let mut r = String::from_str(name.substring_char(0, d + 1));
                r.append("ron");
                r
            }
        },
        None => {
            let mut r = String::from_str(name);
            r.append(".ron");
            assert(r@ =~= name@ + seq!['.'] + ron_ext());
            r
        },
    }
}

/// Finds where the last component of `p` starts, scanning from the end.
fn find_file_name_start(p: &str) -> (r: usize)
    ensures
        r as int == file_name_start(p@),
        r <= p@.len(),
{
    let mut i: usize = p.unicode_len();
    assert(p@.subrange(0, i as int) =~= p@);
    while i > 0
        invariant
            i <= p@.len(),
            file_name_start(p@) == file_name_start(p@.subrange(0, i as int)),
        decreases i,
    {
        let ghost q = p@.subrange(0, i as int);
        let c = p.get_char(i - 1);
        assert(q.last() == c);
        if c == '/' {
            return i;
        }
        assert(q.drop_last() =~= p@.subrange(0, i - 1));
        i = i - 1;
    }
    i
}

/// The last component of `path`, or `untitled.ron` when there is none; the
/// name that the save-as dialog offers first.
pub open spec fn suggested_name(path: Option<String>) -> Seq<char> {
    match path {
        Some(p) => if file_name(p@).len() > 0 {
            file_name(p@)
        } else {
            "untitled.ron"@
        },
        None => "untitled.ron"@,
    }
}

/// Computes [`suggested_name`].
pub fn suggested_file_name(path: &Option<String>) -> (r: String)
    ensures
        r@ == suggested_name(*path),
{
    match path {
        None => String::from_str("untitled.ron"),
        Some(p) => {
            let s = p.as_str();
            let n = s.unicode_len();
            let i = find_file_name_start(s);
            if i == n {
                String::from_str("untitled.ron")
            } else {
                String::from_str(s.substring_char(i, n))
            }
        },
    }
}

} // verus!
