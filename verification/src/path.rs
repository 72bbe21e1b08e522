//! `/`-separated relative paths, read the way `std::path::Path` reads them.

use vstd::prelude::*;
use crate::text::{chars_of, views};

verus! {

/// Index of the first `'/'` at or after `from`, or the length.
pub open spec fn next_slash(p: Seq<char>, from: int) -> int
    decreases p.len() - from,
{
    if from >= p.len() {
        p.len() as int
    } else if p[from] == '/' {
        from
    } else {
        next_slash(p, from + 1)
    }
}

pub proof fn lemma_next_slash_bounds(p: Seq<char>, from: int)
    requires
        0 <= from,
    ensures
        from <= p.len() ==> from <= next_slash(p, from) <= p.len(),
        next_slash(p, from) < p.len() ==> p[next_slash(p, from)] == '/',
    decreases p.len() - from,
{
    if from < p.len() && p[from] != '/' {
        lemma_next_slash_bounds(p, from + 1);
    }
}

/// The components of the path from `start` on: the text between slashes,
/// without empty and `.` components.
pub open spec fn segments_from(p: Seq<char>, start: int) -> Seq<Seq<char>>
    decreases p.len() + 1 - start,
{
    if start < 0 || start > p.len() {
        seq![]
    } else {
        proof {
            lemma_next_slash_bounds(p, start);
        }
        let e = next_slash(p, start);
        let seg = p.subrange(start, e);
        let rest = if e < p.len() {
            segments_from(p, e + 1)
        } else {
            seq![]
        };
        if seg.len() == 0 || seg == seq!['.'] {
            rest
        } else {
            seq![seg] + rest
        }
    }
}

/// The normal components of a path (`Path::components` without the root and
/// without `.`).
pub open spec fn segments(p: Seq<char>) -> Seq<Seq<char>> {
    segments_from(p, 0)
}

pub open spec fn is_parent_dir(seg: Seq<char>) -> bool {
    seg == seq!['.', '.']
}

/// `Path::file_name`: the last component, unless the path ends in `..` or
/// has no component.
pub open spec fn file_name(p: Seq<char>) -> Option<Seq<char>> {
    let s = segments(p);
    if s.len() > 0 && !is_parent_dir(s.last()) {
        Some(s.last())
    } else {
        None
    }
}

/// `Path::parent` followed by `Path::file_name`: the name of the directory
/// that holds the path's last component.
pub open spec fn parent_name(p: Seq<char>) -> Option<Seq<char>> {
    let s = segments(p);
    if s.len() >= 2 && !is_parent_dir(s[s.len() - 2]) {
        Some(s[s.len() - 2])
    } else {
        None
    }
}

/// The components of a path, as `segments` states them.
pub fn path_segments<'a>(p: &'a str) -> (r: Vec<&'a str>)
    ensures
        r.len() == segments(p@).len(),
        forall|k: int| 0 <= k < r.len() ==> #[trigger] r[k]@ == segments(p@)[k],
{
    let a = chars_of(p);
    let n = a.len();
    let mut out: Vec<&'a str> = Vec::new();
    let mut start: usize = 0;
    loop
        invariant
            a@ == p@,
            n == a.len(),
            start <= n,
            segments(p@) == views(out@) + segments_from(p@, start as int),
        decreases n - start,
    {
        let mut e: usize = start;
        while e < n && a[e] != '/'
            invariant
                a@ == p@,
                n == a.len(),
                start <= e <= n,
                next_slash(p@, start as int) == next_slash(p@, e as int),
            decreases n - e,
        {
            e = e + 1;
        }
        let seg = p.substring_char(start, e);
        let keep = !(e == start || (e == start + 1 && a[start] == '.'));
        let ghost rest = if e < n {
            segments_from(p@, e + 1)
        } else {
            seq![]
        };
        let ghost before = views(out@);
        proof {
            let old_seq = views(out@);
            lemma_next_slash_bounds(p@, start as int);
            assert(seg@ =~= p@.subrange(start as int, e as int));
            if e == start + 1 && a[start as int] == '.' {
                assert(seg@ =~= seq!['.']);
            }
            assert(seg@.len() == e - start);
            if e == start + 1 {
                assert(seg@[0] == a@[start as int]);
                if a@[start as int] != '.' {
                    assert(seg@ != seq!['.']) by {
                        if seg@ == seq!['.'] {
                            assert(seg@[0] == '.');
                        }
                    }
                }
            } else if e != start {
                assert(seg@ != seq!['.']) by {
                    if seg@ == seq!['.'] {
                        assert(seg@.len() == 1);
                    }
                }
            }
            assert(keep == !(seg@.len() == 0 || seg@ == seq!['.']));
            assert(segments_from(p@, start as int) == if keep {
                seq![seg@] + rest
            } else {
                rest
            });
            if keep {
                assert(old_seq.push(seg@) =~= views(out@.push(seg)));
                assert(old_seq + (seq![seg@] + rest) =~= old_seq.push(seg@) + rest);
            }
            if e >= n {
                assert(rest =~= seq![]);
            }
        }
        if keep {
            out.push(seg);
        }
        assert(segments(p@) == views(out@) + rest) by {
            if keep {
                assert(views(out@) =~= before.push(seg@));
                assert(before + (seq![seg@] + rest) =~= before.push(seg@) + rest);
            } else {
                assert(views(out@) =~= before);
            }
        }
        if e >= n {
            assert(views(out@) + rest =~= views(out@));
            assert(segments(p@) == views(out@));
            return out;
        }
        start = e + 1;
        assert(rest == segments_from(p@, start as int));
        assert(segments(p@) == views(out@) + segments_from(p@, start as int));
    }
}

/// `Path::file_name` of a `/`-separated path.
pub fn path_file_name<'a>(p: &'a str) -> (r: Option<&'a str>)
    ensures
        r matches Some(x) ==> file_name(p@) == Some(x@),
        r is None ==> file_name(p@) is None,
{
    let segs = path_segments(p);
    if segs.len() == 0 {
        return None;
    }
    let last = segs[segs.len() - 1];
    let lc = chars_of(last);
    if lc.len() == 2 && lc[0] == '.' && lc[1] == '.' {
        proof {
            assert(lc@ =~= seq!['.', '.']);
        }
        return None;
    }
    proof {
        if is_parent_dir(last@) {
            assert(lc@[0] == '.' && lc@[1] == '.');
        }
    }
    Some(last)
}

/// The name of the directory holding the path's last component.
pub fn path_parent_name<'a>(p: &'a str) -> (r: Option<&'a str>)
    ensures
        r matches Some(x) ==> parent_name(p@) == Some(x@),
        r is None ==> parent_name(p@) is None,
{
    let segs = path_segments(p);
    if segs.len() < 2 {
        return None;
    }
    let dir = segs[segs.len() - 2];
    let dc = chars_of(dir);
    if dc.len() == 2 && dc[0] == '.' && dc[1] == '.' {
        proof {
            assert(dc@ =~= seq!['.', '.']);
        }
        return None;
    }
    proof {
        if is_parent_dir(dir@) {
            assert(dc@[0] == '.' && dc@[1] == '.');
        }
    }
    Some(dir)
}


/// Index of the last `.` of a file name, or -1.
pub open spec fn last_dot(name: Seq<char>) -> int
    decreases name.len(),
{
    if name.len() == 0 {
        -1
    } else if name.last() == '.' {
        name.len() - 1
    } else {
        last_dot(name.drop_last())
    }
}

/// `Path::extension` of a file name: the text after its last `.`, when
/// that dot is not the name's first character.
pub open spec fn extension(name: Seq<char>) -> Option<Seq<char>> {
    if last_dot(name) > 0 {
        Some(name.subrange(last_dot(name) + 1, name.len() as int))
    } else {
        None
    }
}

/// The extension of a path's file name, as `extension` states it.
pub fn path_extension<'a>(p: &'a str) -> (r: Option<&'a str>)
    ensures
        crate::text::opt_view(r) == match file_name(p@) {
            Some(n) => extension(n),
            None => None,
        },
{
    let name = match path_file_name(p) {
        Some(n) => n,
        None => {
            return None;
        },
    };
    let cs = chars_of(name);
    let mut k: usize = cs.len();
    proof {
        assert(name@.subrange(0, k as int) =~= name@);
    }
    while k > 0
        invariant
            k <= cs.len(),
            cs@ == name@,
            file_name(p@) == Some(name@),
            last_dot(name@) == last_dot(name@.subrange(0, k as int)),
        decreases k,
    {
        let ghost pre = name@.subrange(0, k as int);
        if cs[k - 1] == '.' {
            proof {
                assert(pre.last() == '.');
                assert(last_dot(name@) == k - 1);
            }
            if k - 1 == 0 {
                return None;
            }
            return Some(name.substring_char(k, cs.len()));
        }
        assert(pre.drop_last() =~= name@.subrange(0, k - 1));
        k = k - 1;
    }
    None
}

} // verus!
