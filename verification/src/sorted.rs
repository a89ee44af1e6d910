//! Sorted sets of strings: the order in which an ordered set of strings
//! yields them (lexicographic by code point, which for UTF-8 is the byte
//! order that `str`'s `Ord` uses), and insertion that keeps a vector sorted
//! and free of duplicates.
use vstd::prelude::*;

use crate::text::{chars_of, str_views};

verus! {

/// Strict lexicographic order on character sequences.
pub open spec fn lex_lt(a: Seq<char>, b: Seq<char>) -> bool
    decreases a.len(),
{
    if a.len() == 0 {
        b.len() > 0
    } else if b.len() == 0 {
        false
    } else if a[0] < b[0] {
        true
    } else if a[0] == b[0] {
        lex_lt(a.skip(1), b.skip(1))
    } else {
        false
    }
}

/// Strictly increasing, hence free of duplicates.
pub open spec fn strictly_sorted(v: Seq<Seq<char>>) -> bool {
    forall|i: int, j: int| 0 <= i < j < v.len() ==> lex_lt(#[trigger] v[i], #[trigger] v[j])
}

/// `v` lists the members of `s` in increasing order, each once.
pub open spec fn sorted_set_of(v: Seq<Seq<char>>, s: Set<Seq<char>>) -> bool {
    strictly_sorted(v) && v.to_set() == s
}

/// The order is irreflexive.
pub proof fn lemma_lex_irreflexive(a: Seq<char>)
    ensures
        !lex_lt(a, a),
    decreases a.len(),
{
    if a.len() > 0 {
        lemma_lex_irreflexive(a.skip(1));
    }
}

/// The order is total.
pub proof fn lemma_lex_total(a: Seq<char>, b: Seq<char>)
    ensures
        lex_lt(a, b) || lex_lt(b, a) || a == b,
    decreases a.len(),
{
    if a.len() > 0 && b.len() > 0 && a[0] == b[0] {
        lemma_lex_total(a.skip(1), b.skip(1));
        if a.skip(1) == b.skip(1) {
            assert(a =~= seq![a[0]] + a.skip(1));
            assert(b =~= seq![b[0]] + b.skip(1));
        }
    } else if a.len() == 0 && b.len() == 0 {
        assert(a =~= b);
    }
}

/// The order is transitive.
pub proof fn lemma_lex_trans(a: Seq<char>, b: Seq<char>, c: Seq<char>)
    requires
        lex_lt(a, b),
        lex_lt(b, c),
    ensures
        lex_lt(a, c),
    decreases a.len(),
{
    if a.len() > 0 && b.len() > 0 && c.len() > 0 && a[0] == b[0] && b[0] == c[0] {
        lemma_lex_trans(a.skip(1), b.skip(1), c.skip(1));
    }
}

/// Compares two character sequences.
pub fn lex_lt_exec(a: &[char], b: &[char]) -> (r: bool)
    ensures
        r == lex_lt(a@, b@),
{
    let mut i: usize = 0;
    assert(a@.skip(0) =~= a@ && b@.skip(0) =~= b@);
    while i < a.len() && i < b.len() && a[i] == b[i]
        invariant
            i <= a@.len(),
            i <= b@.len(),
            lex_lt(a@, b@) == lex_lt(a@.skip(i as int), b@.skip(i as int)),
        decreases a@.len() - i,
    {
        assert(a@.skip(i as int).skip(1) =~= a@.skip(i + 1));
        assert(b@.skip(i as int).skip(1) =~= b@.skip(i + 1));
        i = i + 1;
    }
    if i == a.len() {
        i < b.len()
    } else if i == b.len() {
        false
    } else {
        a[i] < b[i]
    }
}

/// Compares two strings.
pub fn str_lt(a: &str, b: &str) -> (r: bool)
    ensures
        r == lex_lt(a@, b@),
{
    let ac = chars_of(a);
    let bc = chars_of(b);
    lex_lt_exec(ac.as_slice(), bc.as_slice())
}

/// Inserts `s` into the sorted set `v` (no effect when already present).
pub fn insert_sorted(v: &mut Vec<String>, s: String)
    requires
        strictly_sorted(str_views(old(v)@)),
    ensures
        sorted_set_of(str_views(final(v)@), str_views(old(v)@).to_set().insert(s@)),
{
    let ghost old_v = str_views(v@);
    let mut i: usize = 0;
    while i < v.len() && str_lt(v[i].as_str(), s.as_str())
        invariant
            i <= v@.len(),
            old_v == str_views(v@),
            forall|j: int| 0 <= j < i ==> lex_lt(#[trigger] old_v[j], s@),
        decreases v@.len() - i,
    {
        i = i + 1;
    }
    if i < v.len() && crate::text::str_eq(v[i].as_str(), s.as_str()) {
        assert(old_v[i as int] == s@);
        assert(old_v.to_set().insert(s@) =~= old_v.to_set());
        return;
    }
    let ghost p = i as int;
    proof {
        if i < v@.len() {
            lemma_lex_total(old_v[p], s@);
        }
    }
    v.insert(i, s);
    let ghost nv = str_views(v@);
    assert(nv =~= old_v.insert(p, s@));
    assert forall|a: int, b: int| 0 <= a < b < nv.len() implies lex_lt(#[trigger] nv[a], #[trigger] nv[b]) by {
        if b < p {
            assert(nv[a] == old_v[a] && nv[b] == old_v[b]);
        } else if a > p {
            assert(nv[a] == old_v[a - 1] && nv[b] == old_v[b - 1]);
        } else if a == p {
            assert(nv[b] == old_v[b - 1]);
            if b - 1 > p {
                lemma_lex_trans(s@, old_v[p], old_v[b - 1]);
            }
        } else {
            assert(nv[a] == old_v[a]);
            if b == p {
            } else {
                assert(nv[b] == old_v[b - 1]);
                if b - 1 > p {
                    lemma_lex_trans(s@, old_v[p], old_v[b - 1]);
                }
                lemma_lex_trans(old_v[a], s@, old_v[b - 1]);
            }
        }
    }
    assert(nv.to_set() =~= old_v.to_set().insert(s@)) by {
        assert forall|x: Seq<char>| nv.to_set().contains(x) <==> old_v.to_set().insert(s@).contains(x) by {
            if nv.to_set().contains(x) {
                let k = choose|k: int| 0 <= k < nv.len() && nv[k] == x;
                if k < p {
                    assert(old_v[k] == x);
                } else if k > p {
                    assert(old_v[k - 1] == x);
                }
            }
            if old_v.to_set().contains(x) {
                let k = choose|k: int| 0 <= k < old_v.len() && old_v[k] == x;
                if k < p {
                    assert(nv[k] == x);
                } else {
                    assert(nv[k + 1] == x);
                }
            }
            if x == s@ {
                assert(nv[p] == x);
            }
        }
    }
}

/// Inserts every string of `items` into the sorted set `v`.
pub fn insert_all_sorted(v: &mut Vec<String>, items: &Vec<String>)
    requires
        strictly_sorted(str_views(old(v)@)),
    ensures
        sorted_set_of(
            str_views(final(v)@),
            str_views(old(v)@).to_set().union(str_views(items@).to_set()),
        ),
{
    let ghost v0 = str_views(v@).to_set();
    let ghost iv = str_views(items@);
    let mut i: usize = 0;
    assert(v0.union(iv.take(0).to_set()) =~= v0);
    while i < items.len()
        invariant
            i <= items@.len(),
            iv == str_views(items@),
            sorted_set_of(str_views(v@), v0.union(iv.take(i as int).to_set())),
        decreases items@.len() - i,
    {
        let ghost before = str_views(v@).to_set();
        insert_sorted(v, items[i].clone());
        assert(iv.take(i + 1).to_set() =~= iv.take(i as int).to_set().insert(iv[i as int])) by {
            assert(iv.take(i + 1) =~= iv.take(i as int).push(iv[i as int]));
            iv.take(i as int).lemma_push_to_set_commute(iv[i as int]);
        }
        assert(v0.union(iv.take(i + 1).to_set()) =~= before.insert(iv[i as int]));
        i = i + 1;
    }
    assert(iv.take(items@.len() as int) =~= iv);
}


/// A sorted set's vector lists a finite set of as many members.
pub proof fn lemma_sorted_set_len(v: Seq<Seq<char>>, s: Set<Seq<char>>)
    requires
        sorted_set_of(v, s),
    ensures
        s.finite(),
        s.len() == v.len(),
{
    assert(v.no_duplicates()) by {
        assert forall|i: int, j: int| 0 <= i < v.len() && 0 <= j < v.len() && i != j implies v[i]
            != v[j] by {
            if i < j {
                assert(lex_lt(v[i], v[j]));
            } else {
                assert(lex_lt(v[j], v[i]));
            }
            lemma_lex_irreflexive(v[i]);
        }
    }
    v.unique_seq_to_set();
    v.lemma_cardinality_of_set();
    vstd::seq_lib::seq_to_set_is_finite(v);
}

/// The sorted set of the given strings.
pub fn sorted_of(items: &Vec<String>) -> (out: Vec<String>)
    ensures
        sorted_set_of(str_views(out@), str_views(items@).to_set()),
{
    let mut out: Vec<String> = Vec::new();
    assert(str_views(out@) =~= Seq::<Seq<char>>::empty());
    insert_all_sorted(&mut out, &items);
    assert(str_views(Seq::<String>::empty()).to_set().union(str_views(items@).to_set()) =~= str_views(
        items@,
    ).to_set());
    out
}

/// Whether the vector holds a string equal to `s`.
pub fn member(v: &Vec<String>, s: &str) -> (r: bool)
    ensures
        r == str_views(v@).to_set().contains(s@),
{
    let r = crate::text::any_eq(v, s);
    proof {
        if str_views(v@).contains(s@) {
            assert(str_views(v@).to_set().contains(s@));
        }
        if str_views(v@).to_set().contains(s@) {
            assert(str_views(v@).contains(s@));
        }
    }
    r
}

/// Membership in `s` equals `keep`.
pub open spec fn member_is(s: Set<Seq<char>>, keep: bool) -> spec_fn(Seq<char>) -> bool {
    |x: Seq<char>| s.contains(x) == keep
}

/// The members of the sorted set `a` that are (`keep == true`) or are not
/// (`keep == false`) in `b`, still sorted.
pub fn filter_by_membership(a: &Vec<String>, b: &Vec<String>, keep: bool) -> (out: Vec<String>)
    requires
        strictly_sorted(str_views(a@)),
    ensures
        keep ==> sorted_set_of(
            str_views(out@),
            str_views(a@).to_set().intersect(str_views(b@).to_set()),
        ),
        !keep ==> sorted_set_of(
            str_views(out@),
            str_views(a@).to_set().difference(str_views(b@).to_set()),
        ),
{
    let ghost av = str_views(a@);
    let ghost bs = str_views(b@).to_set();
    let ghost pred = member_is(bs, keep);
    let mut out: Vec<String> = Vec::new();
    let mut i: usize = 0;
    assert(av.take(0).filter(pred) =~= Seq::<Seq<char>>::empty()) by {
        reveal(Seq::filter);
    }
    assert(str_views(out@) =~= Seq::<Seq<char>>::empty());
    while i < a.len()
        invariant
            i <= a@.len(),
            av == str_views(a@),
            bs == str_views(b@).to_set(),
            pred == member_is(bs, keep),
            strictly_sorted(av),
            strictly_sorted(str_views(out@)),
            str_views(out@) == av.take(i as int).filter(pred),
            i < av.len() ==> forall|k: int|
                0 <= k < out@.len() ==> lex_lt(#[trigger] str_views(out@)[k], av[i as int]),
        decreases a@.len() - i,
    {
        let m = member(b, a[i].as_str());
        let ghost before = str_views(out@);
        assert(av.take(i + 1) =~= av.take(i as int).push(av[i as int]));
        proof {
            av.take(i as int).lemma_filter_push(av[i as int], pred);
        }
        if m == keep {
            out.push(a[i].clone());
            assert(str_views(out@) =~= before.push(av[i as int]));
        }
        proof {
            let now = str_views(out@);
            assert forall|p: int, q: int| 0 <= p < q < now.len() implies lex_lt(
                #[trigger] now[p],
                #[trigger] now[q],
            ) by {
                if q == before.len() {
                    assert(now[p] == before[p]);
                } else {
                    assert(now[p] == before[p] && now[q] == before[q]);
                }
            }
            if i + 1 < av.len() {
                assert(lex_lt(av[i as int], av[i + 1]));
                assert forall|k: int| 0 <= k < now.len() implies lex_lt(#[trigger] now[k], av[i + 1]) by {
                    if k < before.len() {
                        assert(now[k] == before[k]);
                        lemma_lex_trans(before[k], av[i as int], av[i + 1]);
                    }
                }
            }
        }
        i = i + 1;
    }
    assert(av.take(a@.len() as int) =~= av);
    proof {
        let f = av.filter(pred);
        let target = if keep { av.to_set().intersect(bs) } else { av.to_set().difference(bs) };
        assert forall|x: Seq<char>| f.to_set().contains(x) <==> target.contains(x) by {
            if f.to_set().contains(x) {
                assert(f.contains(x));
                av.lemma_filter_contains_rev(pred, x);
                let k = choose|k: int| 0 <= k < f.len() && f[k] == x;
                av.lemma_filter_pred(pred, k);
            }
            if target.contains(x) {
                assert(av.contains(x));
                let k = choose|k: int| 0 <= k < av.len() && av[k] == x;
                av.lemma_filter_contains(pred, k);
            }
        }
        assert(f.to_set() =~= target);
    }
    out
}


/// The members of a concatenation are the members of its parts.
pub proof fn lemma_concat_to_set(a: Seq<Seq<char>>, b: Seq<Seq<char>>)
    ensures
        (a + b).to_set() == a.to_set().union(b.to_set()),
{
    assert forall|x: Seq<char>| (a + b).to_set().contains(x) <==> a.to_set().union(b.to_set()).contains(x) by {
        if (a + b).to_set().contains(x) {
            let k = choose|k: int| 0 <= k < (a + b).len() && (a + b)[k] == x;
            if k < a.len() {
                assert(a[k] == x);
            } else {
                assert(b[k - a.len()] == x);
            }
        }
        if a.to_set().contains(x) {
            let k = choose|k: int| 0 <= k < a.len() && a[k] == x;
            assert((a + b)[k] == x);
        }
        if b.to_set().contains(x) {
            let k = choose|k: int| 0 <= k < b.len() && b[k] == x;
            assert((a + b)[a.len() + k] == x);
        }
    }
    assert((a + b).to_set() =~= a.to_set().union(b.to_set()));
}

} // verus!
