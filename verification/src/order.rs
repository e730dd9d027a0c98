//! The order of strings (by character codes, as `str`'s `Ord` orders
//! them) and sorting of string lists.
use vstd::prelude::*;
use crate::text::chars_of;
use crate::types::views;

verus! {

broadcast use vstd::seq_lib::group_seq_properties;

/// `a` comes strictly before `b`: at the first position where they
/// differ `a` has the smaller character, or `a` is a proper prefix of `b`.
pub open spec fn seq_lt(a: Seq<char>, b: Seq<char>) -> bool
    decreases a.len(),
{
    if a.len() == 0 {
        b.len() > 0
    } else if b.len() == 0 {
        false
    } else if a[0] != b[0] {
        (a[0] as int) < (b[0] as int)
    } else {
        seq_lt(a.skip(1), b.skip(1))
    }
}

/// `seq_lt` is irreflexive.
pub proof fn lemma_lt_irreflexive(a: Seq<char>)
    ensures
        !seq_lt(a, a),
    decreases a.len(),
{
    if a.len() > 0 {
        lemma_lt_irreflexive(a.skip(1));
    }
}

/// `seq_lt` is transitive.
pub proof fn lemma_lt_transitive(a: Seq<char>, b: Seq<char>, c: Seq<char>)
    requires
        seq_lt(a, b),
        seq_lt(b, c),
    ensures
        seq_lt(a, c),
    decreases a.len(),
{
    if a.len() > 0 && b.len() > 0 && c.len() > 0 {
        if a[0] == b[0] && b[0] == c[0] {
            lemma_lt_transitive(a.skip(1), b.skip(1), c.skip(1));
        }
    }
}

/// `seq_lt` is total on distinct sequences.
pub proof fn lemma_lt_total(a: Seq<char>, b: Seq<char>)
    ensures
        a == b || seq_lt(a, b) || seq_lt(b, a),
    decreases a.len(),
{
    if a.len() > 0 && b.len() > 0 {
        if a[0] == b[0] {
            lemma_lt_total(a.skip(1), b.skip(1));
            if a.skip(1) == b.skip(1) {
                assert(a =~= seq![a[0]] + a.skip(1));
                assert(b =~= seq![b[0]] + b.skip(1));
            }
        } else {
        }
    } else if a.len() == 0 && b.len() == 0 {
        assert(a =~= b);
    }
}

/// `seq_lt` is asymmetric.
pub proof fn lemma_lt_asymmetric(a: Seq<char>, b: Seq<char>)
    ensures
        !(seq_lt(a, b) && seq_lt(b, a)),
{
    if seq_lt(a, b) && seq_lt(b, a) {
        lemma_lt_transitive(a, b, a);
        lemma_lt_irreflexive(a);
    }
}

/// `seq_lt` is the lexicographic order by character codes, as `str`'s
/// `Ord` orders strings: `a` comes before `b` exactly when `a` is a
/// proper prefix of `b`, or when at the first position where they differ
/// `a` has the smaller character.
pub proof fn law_lt_is_lexicographic(a: Seq<char>, b: Seq<char>)
    ensures
        seq_lt(a, b) <==> ((a.len() < b.len() && b.take(a.len() as int) == a) || exists|k: int|
            0 <= k < a.len() && k < b.len() && a.take(k) == b.take(k) && (a[k] as int) < (
            b[k] as int)),
    decreases a.len(),
{
    if a.len() == 0 {
        assert(b.take(0) =~= a);
    } else if b.len() == 0 {
    } else if a[0] != b[0] {
        if a.len() < b.len() && b.take(a.len() as int) == a {
            assert(b.take(a.len() as int)[0] == b[0]);
        }
        if exists|k: int|
            0 <= k < a.len() && k < b.len() && a.take(k) == b.take(k) && (a[k] as int) < (
            b[k] as int) {
            let k = choose|k: int|
                0 <= k < a.len() && k < b.len() && a.take(k) == b.take(k) && (a[k] as int) < (
                b[k] as int);
            if k > 0 {
                assert(a.take(k)[0] == b.take(k)[0]);
            }
        }
        if (a[0] as int) < (b[0] as int) {
            assert(a.take(0) =~= b.take(0));
        }
    } else {
        let a1 = a.skip(1);
        let b1 = b.skip(1);
        law_lt_is_lexicographic(a1, b1);
        // the prefix case carries over
        if a.len() < b.len() && b.take(a.len() as int) == a {
            assert(b1.take(a1.len() as int) =~= a1) by {
                assert forall|t: int| 0 <= t < a1.len() implies b1.take(a1.len() as int)[t] == a1[t] by {
                    assert(b.take(a.len() as int)[t + 1] == a[t + 1]);
                }
            }
        }
        if a1.len() < b1.len() && b1.take(a1.len() as int) == a1 {
            assert(b.take(a.len() as int) =~= a) by {
                assert forall|t: int| 0 <= t < a.len() implies b.take(a.len() as int)[t] == a[t] by {
                    if t > 0 {
                        assert(b1.take(a1.len() as int)[t - 1] == a1[t - 1]);
                    }
                }
            }
        }
        // the first difference carries over, one position on
        if exists|k: int|
            0 <= k < a1.len() && k < b1.len() && a1.take(k) == b1.take(k) && (a1[k] as int) < (
            b1[k] as int) {
            let k = choose|k: int|
                0 <= k < a1.len() && k < b1.len() && a1.take(k) == b1.take(k) && (a1[k] as int) < (
                b1[k] as int);
            assert(a.take(k + 1) =~= b.take(k + 1)) by {
                assert forall|t: int| 0 <= t < k + 1 implies #[trigger] a.take(k + 1)[t] == b.take(k + 1)[t] by {
                    if t > 0 {
                        assert(a1.take(k)[t - 1] == b1.take(k)[t - 1]);
                    }
                }
            }
            assert(a[k + 1] == a1[k]);
        }
        if exists|k: int|
            0 <= k < a.len() && k < b.len() && a.take(k) == b.take(k) && (a[k] as int) < (
            b[k] as int) {
            let k = choose|k: int|
                0 <= k < a.len() && k < b.len() && a.take(k) == b.take(k) && (a[k] as int) < (
                b[k] as int);
            assert(k > 0);
            assert(a1.take(k - 1) =~= b1.take(k - 1)) by {
                assert forall|t: int| 0 <= t < k - 1 implies #[trigger] a1.take(k - 1)[t] == b1.take(k - 1)[t] by {
                    assert(a.take(k)[t + 1] == b.take(k)[t + 1]);
                }
            }
            assert(a1[k - 1] == a[k]);
        }
    }
}

/// A proper prefix comes first: `a` before `a` followed by anything,
/// and never after it.
pub proof fn law_prefix_comes_first(a: Seq<char>, rest: Seq<char>)
    requires
        rest.len() > 0,
    ensures
        seq_lt(a, a + rest),
        !seq_lt(a + rest, a),
{
    law_lt_is_lexicographic(a, a + rest);
    assert((a + rest).take(a.len() as int) =~= a);
    lemma_lt_asymmetric(a, a + rest);
}

/// Whether `a` comes strictly before `b`.
pub fn chars_lt(a: &[char], b: &[char]) -> (r: bool)
    ensures
        r == seq_lt(a@, b@),
{
    let n = a.len();
    let m = b.len();
    let mut i: usize = 0;
    loop
        invariant
            n == a@.len(),
            m == b@.len(),
            i <= n,
            i <= m,
            seq_lt(a@, b@) == seq_lt(a@.skip(i as int), b@.skip(i as int)),
        decreases n - i,
    {
        let ghost sa = a@.skip(i as int);
        let ghost sb = b@.skip(i as int);
        if i == n {
            return i < m;
        }
        if i == m {
            return false;
        }
        assert(sa[0] == a@[i as int]);
        assert(sb[0] == b@[i as int]);
        if a[i] != b[i] {
            return a[i] < b[i];
        }
        assert(sa.skip(1) =~= a@.skip(i + 1));
        assert(sb.skip(1) =~= b@.skip(i + 1));
        i = i + 1;
    }
}

/// Whether string `a` comes strictly before string `b`.
pub fn str_lt(a: &str, b: &str) -> (r: bool)
    ensures
        r == seq_lt(a@, b@),
{
    let ca = chars_of(a);
    let cb = chars_of(b);
    chars_lt(ca.as_slice(), cb.as_slice())
}

/// Each element comes strictly before the next ones.
pub open spec fn strictly_sorted(s: Seq<Seq<char>>) -> bool {
    forall|i: int, j: int| 0 <= i < j < s.len() ==> seq_lt(#[trigger] s[i], #[trigger] s[j])
}

/// The elements of a set of strings in increasing order.
pub open spec fn sorted_of(s: Set<Seq<char>>) -> Seq<Seq<char>> {
    choose|t: Seq<Seq<char>>| strictly_sorted(t) && t.to_set() == s
}

/// A strictly sorted sequence is determined by its elements.
pub proof fn lemma_sorted_unique(a: Seq<Seq<char>>, b: Seq<Seq<char>>)
    requires
        strictly_sorted(a),
        strictly_sorted(b),
        a.to_set() == b.to_set(),
    ensures
        a == b,
    decreases a.len(),
{
    if a.len() == 0 {
        if b.len() > 0 {
            assert(b.to_set().contains(b[0]));
        }
        assert(a =~= b);
    } else if b.len() == 0 {
        assert(a.to_set().contains(a[0]));
    } else {
        assert(a.to_set().contains(a[0]));
        assert(b.to_set().contains(b[0]));
        let j = choose|j: int| 0 <= j < b.len() && b[j] == a[0];
        let i = choose|i: int| 0 <= i < a.len() && a[i] == b[0];
        if j > 0 {
            assert(seq_lt(b[0], b[j]));
            if i > 0 {
                assert(seq_lt(a[0], a[i]));
                lemma_lt_asymmetric(a[0], b[0]);
            } else {
                lemma_lt_irreflexive(a[0]);
            }
        }
        assert(a[0] == b[0]);
        let a1 = a.skip(1);
        let b1 = b.skip(1);
        assert forall|y: Seq<char>| a1.to_set().contains(y) <==> b1.to_set().contains(y) by {
            if a1.to_set().contains(y) {
                let k = choose|k: int| 0 <= k < a1.len() && a1[k] == y;
                assert(a[k + 1] == y);
                assert(seq_lt(a[0], y));
                lemma_lt_irreflexive(y);
                assert(b.to_set().contains(y));
                let q = choose|q: int| 0 <= q < b.len() && b[q] == y;
                assert(q != 0);
                assert(b1[q - 1] == y);
            }
            if b1.to_set().contains(y) {
                let k = choose|k: int| 0 <= k < b1.len() && b1[k] == y;
                assert(b[k + 1] == y);
                assert(seq_lt(b[0], y));
                lemma_lt_irreflexive(y);
                assert(a.to_set().contains(y));
                let q = choose|q: int| 0 <= q < a.len() && a[q] == y;
                assert(q != 0);
                assert(a1[q - 1] == y);
            }
        }
        assert(a1.to_set() =~= b1.to_set());
        lemma_sorted_unique(a1, b1);
        assert(a =~= seq![a[0]] + a1);
        assert(b =~= seq![b[0]] + b1);
    }
}

/// An element that is not in a strictly sorted sequence has a place
/// where inserting it keeps the sequence strictly sorted.
proof fn lemma_insert_in_order(t: Seq<Seq<char>>, x: Seq<char>) -> (p: int)
    requires
        strictly_sorted(t),
        !t.contains(x),
    ensures
        0 <= p <= t.len(),
        strictly_sorted(t.insert(p, x)),
    decreases t.len(),
{
    if t.len() == 0 {
        assert(t.insert(0, x) =~= seq![x]);
        0
    } else {
        let n = t.len() - 1;
        let last = t[n];
        assert(last != x) by {
            if last == x {
                assert(t.contains(x));
            }
        }
        lemma_lt_total(last, x);
        if seq_lt(last, x) {
            let w = t.insert(t.len() as int, x);
            assert forall|i: int, j: int| 0 <= i < j < w.len() implies seq_lt(#[trigger] w[i], #[trigger] w[j]) by {
                if j == t.len() {
                    if i < n {
                        lemma_lt_transitive(t[i], last, x);
                    }
                } else {
                    assert(w[i] == t[i] && w[j] == t[j]);
                }
            }
            t.len() as int
        } else {
            let d = t.drop_last();
            assert(!d.contains(x)) by {
                if d.contains(x) {
                    let k = choose|k: int| 0 <= k < d.len() && d[k] == x;
                    assert(t[k] == x);
                }
            }
            let p = lemma_insert_in_order(d, x);
            let u = d.insert(p, x);
            let w = t.insert(p, x);
            assert(w =~= u.push(last));
            assert forall|i: int, j: int| 0 <= i < j < w.len() implies seq_lt(#[trigger] w[i], #[trigger] w[j]) by {
                if j == w.len() - 1 {
                    if u[i] == x {
                    } else if i < p {
                        assert(u[i] == t[i]);
                    } else {
                        assert(u[i] == t[i - 1]);
                    }
                } else {
                    assert(w[i] == u[i] && w[j] == u[j]);
                }
            }
            p
        }
    }
}

/// Every finite set of strings has its elements in increasing order.
pub proof fn lemma_sorted_of(s: Set<Seq<char>>)
    requires
        s.finite(),
    ensures
        strictly_sorted(sorted_of(s)),
        sorted_of(s).to_set() == s,
    decreases s.len(),
{
    broadcast use vstd::set::group_set_axioms;
    if s.len() == 0 {
        let w = Seq::<Seq<char>>::empty();
        assert(s =~= Set::<Seq<char>>::empty()) by {
            assert forall|y: Seq<char>| !s.contains(y) by {
                if s.contains(y) {
                    assert(s.len() != 0);
                }
            }
        }
        assert(w.to_set() =~= s);
        assert(strictly_sorted(w) && w.to_set() == s);
    } else {
        let x = s.choose();
        let r = s.remove(x);
        lemma_sorted_of(r);
        let t = sorted_of(r);
        assert(!t.contains(x)) by {
            if t.contains(x) {
                assert(t.to_set().contains(x));
            }
        }
        let p = lemma_insert_in_order(t, x);
        let w = t.insert(p, x);
        assert forall|y: Seq<char>| w.contains(y) <==> s.contains(y) by {
            if w.contains(y) {
                let k = choose|k: int| 0 <= k < w.len() && w[k] == y;
                if k < p {
                    assert(t[k] == y);
                    assert(t.to_set().contains(y));
                } else if k > p {
                    assert(t[k - 1] == y);
                    assert(t.to_set().contains(y));
                }
            }
            if s.contains(y) {
                if y == x {
                    assert(w[p] == y);
                } else {
                    assert(r.contains(y));
                    assert(t.to_set().contains(y));
                    let k = choose|k: int| 0 <= k < t.len() && t[k] == y;
                    if k < p {
                        assert(w[k] == y);
                    } else {
                        assert(w[k + 1] == y);
                    }
                }
            }
        }
        assert(w.to_set() =~= s);
        assert(strictly_sorted(w) && w.to_set() == s);
    }
}

/// The strings in increasing order, each once (what sorting followed by
/// removing consecutive duplicates yields).
pub fn sorted_unique(v: &Vec<String>) -> (r: Vec<String>)
    ensures
        strictly_sorted(views(r@)),
        views(r@).to_set() == views(v@).to_set(),
        views(r@) == sorted_of(views(v@).to_set()),
{
    let mut r: Vec<String> = Vec::new();
    let n = v.len();
    let ghost vv = views(v@);
    assert(views(r@).to_set() =~= vv.take(0).to_set());
    for i in 0..n
        invariant
            n == v@.len(),
            vv == views(v@),
            strictly_sorted(views(r@)),
            views(r@).to_set() == vv.take(i as int).to_set(),
    {
        let x = &v[i];
        let ghost rv = views(r@);
        // first position whose element is not before x
        let m = r.len();
        let mut p: usize = 0;
        while p < m && str_lt(r[p].as_str(), x.as_str())
            invariant
                m == r@.len(),
                rv == views(r@),
                p <= m,
                forall|k: int| 0 <= k < p ==> seq_lt(#[trigger] rv[k], x@),
            decreases m - p,
        {
            p = p + 1;
        }
        proof {
            assert(vv.take(i + 1) =~= vv.take(i as int).push(x@));
        }
        if p < m && crate::text::str_eq(r[p].as_str(), x.as_str()) {
            proof {
                assert(rv.to_set().contains(x@)) by {
                    assert(rv[p as int] == x@);
                }
                assert(vv.take(i + 1).to_set() =~= vv.take(i as int).to_set().insert(x@));
            }
        } else {
            proof {
                if p < m {
                    assert(!seq_lt(rv[p as int], x@));
                    lemma_lt_total(rv[p as int], x@);
                    assert(seq_lt(x@, rv[p as int]));
                }
                assert forall|k: int| p <= k < m implies seq_lt(x@, #[trigger] rv[k]) by {
                    if k > p {
                        lemma_lt_transitive(x@, rv[p as int], rv[k]);
                    }
                }
            }
            r.insert(p, x.clone());
            proof {
                let nv = views(r@);
                assert(nv =~= rv.insert(p as int, x@));
                assert forall|a: int, b: int| 0 <= a < b < nv.len() implies seq_lt(
                    #[trigger] nv[a],
                    #[trigger] nv[b],
                ) by {
                    if a < p && b < p {
                    } else if a < p && b == p {
                    } else if a < p && b > p {
                        assert(nv[b] == rv[b - 1]);
                    } else if a == p {
                        assert(nv[b] == rv[b - 1]);
                    } else {
                        assert(nv[a] == rv[a - 1]);
                        assert(nv[b] == rv[b - 1]);
                    }
                }
                assert(nv.to_set() =~= rv.to_set().insert(x@)) by {
                    assert forall|y: Seq<char>| nv.contains(y) <==> rv.contains(y) || y == x@ by {
                        if nv.contains(y) {
                            let k = choose|k: int| 0 <= k < nv.len() && nv[k] == y;
                            if k < p {
                                assert(rv[k] == y);
                            } else if k > p {
                                assert(rv[k - 1] == y);
                            }
                        }
                        if rv.contains(y) {
                            let k = choose|k: int| 0 <= k < rv.len() && rv[k] == y;
                            if k < p {
                                assert(nv[k] == y);
                            } else {
                                assert(nv[k + 1] == y);
                            }
                        }
                        if y == x@ {
                            assert(nv[p as int] == y);
                        }
                    }
                }
                assert(vv.take(i + 1).to_set() =~= vv.take(i as int).to_set().insert(x@));
            }
        }
    }
    assert(vv.take(n as int) =~= vv);
    proof {
        let t = sorted_of(vv.to_set());
        assert(strictly_sorted(t) && t.to_set() == vv.to_set());
        lemma_sorted_unique(views(r@), t);
    }
    r
}

} // verus!
