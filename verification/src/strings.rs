//! Small verified helpers over `&str` and `String`, used by the
//! classification and path-resolution logic.

use vstd::prelude::*;
use vstd::string::*;

verus! {

/// Does `s` start with the prefix `p`?
pub open spec fn has_prefix(s: Seq<char>, p: Seq<char>) -> bool {
    p.len() <= s.len() && s.subrange(0, p.len() as int) == p
}

/// Does `s` end with the suffix `p`?
pub open spec fn has_suffix(s: Seq<char>, p: Seq<char>) -> bool {
    p.len() <= s.len() && s.subrange(s.len() - p.len(), s.len() as int) == p
}

/// Character-for-character equality of two string slices.
pub fn str_eq(a: &str, b: &str) -> (r: bool)
    ensures
        r == (a@ == b@),
{
    let sa: String = a.to_owned();
    let sb: String = b.to_owned();
    sa == sb
}

/// Does `s` start with the prefix `p`, checked at character level?
pub fn starts_with(s: &str, p: &str) -> (r: bool)
    ensures
        r == has_prefix(s@, p@),
{
    let n = s.unicode_len();
    let m = p.unicode_len();
    if m > n {
        false
    } else {
        let head = s.substring_char(0, m);
        str_eq(head, p)
    }
}

/// A path segment that counts as a component: non-empty (duplicate and
/// trailing separators contribute nothing) and not the current-directory
/// marker `.`, which paths carry without naming anything.
pub open spec fn keep_component(c: Seq<char>) -> bool {
    c.len() > 0 && c != "."@
}

/// Helper for `path_components`: the components of `p[i..]`, with `cur`
/// the segment collected so far and `acc` the components already found.
pub open spec fn components_from(
    p: Seq<char>,
    i: int,
    cur: Seq<char>,
    acc: Seq<Seq<char>>,
) -> Seq<Seq<char>>
    decreases p.len() - i,
{
    if i < 0 || i >= p.len() {
        if keep_component(cur) {
            acc.push(cur)
        } else {
            acc
        }
    } else if p[i] == '/' {
        components_from(
            p,
            i + 1,
            Seq::empty(),
            if keep_component(cur) {
                acc.push(cur)
            } else {
                acc
            },
        )
    } else {
        components_from(p, i + 1, cur.push(p[i]), acc)
    }
}

/// The components of a path: the segments between `/` separators, empty
/// segments and `.` markers dropped, in order.
pub open spec fn path_components(p: Seq<char>) -> Seq<Seq<char>> {
    components_from(p, 0, Seq::empty(), Seq::empty())
}

/// The file-name component of a path, in the standard sense: the last
/// component, ignoring a trailing separator; none when the path has no
/// component at all (empty, `/`, `.`) or ends in the parent-directory
/// marker `..`.
pub open spec fn file_name_opt(p: Seq<char>) -> Option<Seq<char>> {
    let cs = path_components(p);
    if cs.len() == 0 {
        None
    } else if cs.last() == ".."@ {
        None
    } else {
        Some(cs.last())
    }
}

/// The file-name component of `s`, as a fresh string, or `None` when the
/// path has none.
pub fn file_name(s: &str) -> (r: Option<String>)
    ensures
        match r {
            Some(name) => file_name_opt(s@) == Some(name@),
            None => file_name_opt(s@) is None,
        },
{
    let n = s.unicode_len();
    let mut seg_start: usize = 0;
    let mut last: Option<String> = None;
    let ghost mut accv: Seq<Seq<char>> = Seq::empty();
    let mut i: usize = 0;
    proof {
        assert(s@.subrange(0, 0) =~= Seq::<char>::empty());
    }
    while i < n
        invariant
            n == s@.len(),
            seg_start <= i <= n,
            components_from(s@, i as int, s@.subrange(seg_start as int, i as int), accv)
                == path_components(s@),
            accv.len() == 0 ==> last is None,
            accv.len() > 0 ==> (last matches Some(l) && l@ == accv.last()),
        decreases n - i,
    {
        let c = s.get_char(i);
        if c == '/' {
            if i > seg_start {
                let seg = s.substring_char(seg_start, i);
                if !str_eq(seg, ".") {
                    last = Some(seg.to_owned());
                    proof {
                        accv = accv.push(seg@);
                    }
                }
            }
            proof {
                assert(s@.subrange(i + 1, i + 1) =~= Seq::<char>::empty());
            }
            seg_start = i + 1;
        } else {
            proof {
                assert(s@.subrange(seg_start as int, i + 1) =~= s@.subrange(
                    seg_start as int,
                    i as int,
                ).push(s@[i as int]));
            }
        }
        i += 1;
    }
    if n > seg_start {
        let seg = s.substring_char(seg_start, n);
        if !str_eq(seg, ".") {
            last = Some(seg.to_owned());
            proof {
                accv = accv.push(seg@);
            }
        }
    }
    proof {
        assert(accv == path_components(s@));
    }
    match last {
        None => None,
        Some(l) => {
            if str_eq(l.as_str(), "..") {
                None
            } else {
                Some(l)
            }
        },
    }
}

/// Is the view of `x` an element of the views of `v`?
pub fn contains_string(v: &Vec<String>, x: &String) -> (r: bool)
    ensures
        r == v@.map_values(|s: String| s@).contains(x@),
{
    let ghost mapped = v@.map_values(|s: String| s@);
    let n = v.len();
    let mut j: usize = 0;
    while j < n
        invariant
            n == v@.len(),
            mapped == v@.map_values(|s: String| s@),
            j <= n,
            forall|k: int| 0 <= k < j ==> mapped[k] != x@,
        decreases n - j,
    {
        if v[j] == *x {
            proof {
                assert(mapped[j as int] == x@);
            }
            return true;
        }
        j += 1;
    }
    proof {
        assert(!mapped.contains(x@));
    }
    false
}

/// Does `s` end with the suffix `p`, checked at character level?
pub fn ends_with(s: &str, p: &str) -> (r: bool)
    ensures
        r == has_suffix(s@, p@),
{
    let n = s.unicode_len();
    let m = p.unicode_len();
    if m > n {
        false
    } else {
        let tail = s.substring_char(n - m, n);
        str_eq(tail, p)
    }
}

} // verus!
