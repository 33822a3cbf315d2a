//! Ascending order of names, as an ordered set of strings keeps them.

use crate::promql::plan::strs_view;
use vstd::prelude::*;

verus! {

/// Whether `a` comes before `b`: the first differing character decides,
/// and a proper prefix comes first. On UTF-8 text this is the byte order
/// that `String` compares by.
pub open spec fn lex_lt(a: Seq<char>, b: Seq<char>) -> bool
    decreases a.len(),
{
    if a.len() == 0 {
        b.len() > 0
    } else if b.len() == 0 {
        false
    } else if a[0] != b[0] {
        (a[0] as u32) < (b[0] as u32)
    } else {
        lex_lt(a.subrange(1, a.len() as int), b.subrange(1, b.len() as int))
    }
}

/// The number of leading names of `s` that come before `x`.
pub open spec fn insert_pos(s: Seq<Seq<char>>, x: Seq<char>) -> nat
    decreases s.len(),
{
    if s.len() == 0 || !lex_lt(s[0], x) {
        0
    } else {
        1 + insert_pos(s.subrange(1, s.len() as int), x)
    }
}

/// `s` with `x` put in its place, unless it is already there.
pub open spec fn sorted_insert(s: Seq<Seq<char>>, x: Seq<char>) -> Seq<Seq<char>> {
    let i = insert_pos(s, x) as int;
    if i < s.len() && s[i] == x {
        s
    } else {
        s.insert(i, x)
    }
}

/// The distinct names of `s` in ascending order, built by inserting them
/// one by one.
pub open spec fn sorted_names(s: Seq<Seq<char>>) -> Seq<Seq<char>>
    decreases s.len(),
{
    if s.len() == 0 {
        Seq::empty()
    } else {
        sorted_insert(sorted_names(s.drop_last()), s.last())
    }
}

/// Whether `a` comes before `b`.
pub fn str_lt(a: &str, b: &str) -> (r: bool)
    ensures
        r == lex_lt(a@, b@),
{
    let n = a.unicode_len();
    let m = b.unicode_len();
    let mut i: usize = 0;
    assert(a@.subrange(0, n as int) =~= a@);
    assert(b@.subrange(0, m as int) =~= b@);
    while i < n && i < m
        invariant
            i <= n,
            i <= m,
            n == a@.len(),
            m == b@.len(),
            lex_lt(a@, b@) == lex_lt(a@.subrange(i as int, n as int), b@.subrange(i as int, m as int)),
        decreases n - i,
    {
        let x = a.get_char(i);
        let y = b.get_char(i);
        let ghost sa = a@.subrange(i as int, n as int);
        let ghost sb = b@.subrange(i as int, m as int);
        assert(sa[0] == x && sb[0] == y);
        if x != y {
            return (x as u32) < (y as u32);
        }
        assert(sa.subrange(1, sa.len() as int) =~= a@.subrange(i + 1, n as int));
        assert(sb.subrange(1, sb.len() as int) =~= b@.subrange(i + 1, m as int));
        i = i + 1;
    }
    i == n && i < m
}

/// Puts `x` in its place among the ascending names of `v`.
pub fn insert_sorted(v: &mut Vec<String>, x: String)
    ensures
        strs_view(final(v)@) == sorted_insert(strs_view(old(v)@), x@),
{
    let ghost sv = strs_view(v@);
    let n = v.len();
    let mut i: usize = 0;
    assert(sv.subrange(0, sv.len() as int) =~= sv);
    while i < n && str_lt(v[i].as_str(), x.as_str())
        invariant
            i <= n,
            n == v@.len(),
            sv == strs_view(v@),
            insert_pos(sv, x@) == i + insert_pos(sv.subrange(i as int, n as int), x@),
        decreases n - i,
    {
        let ghost t = sv.subrange(i as int, n as int);
        assert(t[0] == sv[i as int]);
        assert(t.subrange(1, t.len() as int) =~= sv.subrange(i + 1, n as int));
        i = i + 1;
    }
    proof {
        if i < n {
            let t = sv.subrange(i as int, n as int);
            assert(t[0] == sv[i as int]);
        }
    }
    if i < n && v[i] == x {
        return;
    }
    v.insert(i, x);
    assert(strs_view(v@) =~= sv.insert(i as int, x@));
}

/// The distinct names of `v` in ascending order.
pub fn sort_names(v: &Vec<String>) -> (r: Vec<String>)
    ensures
        strs_view(r@) == sorted_names(strs_view(v@)),
{
    let ghost sv = strs_view(v@);
    let mut out: Vec<String> = Vec::new();
    let mut i: usize = 0;
    while i < v.len()
        invariant
            i <= v@.len(),
            sv == strs_view(v@),
            strs_view(out@) == sorted_names(sv.subrange(0, i as int)),
        decreases v@.len() - i,
    {
        assert(sv.subrange(0, i + 1).drop_last() =~= sv.subrange(0, i as int));
        assert(sv.subrange(0, i + 1).last() == v@[i as int]@);
        insert_sorted(&mut out, v[i].clone());
        i = i + 1;
    }
    assert(sv.subrange(0, i as int) =~= sv);
    out
}

} // verus!
