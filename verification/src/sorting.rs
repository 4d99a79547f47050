//! Stable sorting with a proved specification.
//!
//! The comparators used for ranking entries, routes and stops are
//! total preorders (ties are allowed), so the sort is specified as a
//! stable insertion sort: an element is inserted after every element
//! that may come before it, which keeps equal elements in input order.

use vstd::prelude::*;
use vstd::relations::sorted_by;

verus! {

/// `leq(a, b)` reads "a may come before b": total and transitive,
/// but ties between distinct elements are allowed.
pub open spec fn total_preorder<T>(leq: spec_fn(T, T) -> bool) -> bool {
    &&& forall|a: T, b: T| #[trigger] leq(a, b) || #[trigger] leq(b, a)
    &&& forall|a: T, b: T, c: T| #[trigger] leq(a, b) && #[trigger] leq(b, c) ==> leq(a, c)
}

/// Stable insertion of `x` into a sorted sequence: `x` lands after
/// every element that may come before it.
pub open spec fn insert_sorted_by<T>(s: Seq<T>, x: T, leq: spec_fn(T, T) -> bool) -> Seq<T>
    decreases s.len(),
{
    if s.len() == 0 {
        seq![x]
    } else if leq(s.last(), x) {
        s.push(x)
    } else {
        insert_sorted_by(s.drop_last(), x, leq).push(s.last())
    }
}

/// Stable insertion sort of a sequence.
pub open spec fn sort_by_spec<T>(s: Seq<T>, leq: spec_fn(T, T) -> bool) -> Seq<T>
    decreases s.len(),
{
    if s.len() == 0 {
        Seq::empty()
    } else {
        insert_sorted_by(sort_by_spec(s.drop_last(), leq), s.last(), leq)
    }
}

/// Inserting into a sorted sequence keeps it sorted, adds exactly the
/// new element, and moves nothing in or out.
pub proof fn lemma_insert_sorted_by<T>(s: Seq<T>, x: T, leq: spec_fn(T, T) -> bool)
    requires
        total_preorder(leq),
        sorted_by(s, leq),
    ensures
        sorted_by(insert_sorted_by(s, x, leq), leq),
        insert_sorted_by(s, x, leq).len() == s.len() + 1,
        insert_sorted_by(s, x, leq).to_multiset() == s.to_multiset().insert(x),
        forall|i: int| 0 <= i < insert_sorted_by(s, x, leq).len() ==> (#[trigger] insert_sorted_by(
            s,
            x,
            leq,
        )[i] == x || s.contains(insert_sorted_by(s, x, leq)[i])),
    decreases s.len(),
{
    broadcast use vstd::seq_lib::group_to_multiset_ensures;

    let t = insert_sorted_by(s, x, leq);
    if s.len() == 0 {
        assert(t =~= seq![x]);
        assert(seq![x].to_multiset() =~= s.to_multiset().insert(x)) by {
            assert(seq![x] =~= Seq::<T>::empty().push(x));
            assert(s =~= Seq::<T>::empty());
        }
    } else if leq(s.last(), x) {
        assert(t == s.push(x));
        assert forall|i: int, j: int| 0 <= i < j < t.len() implies leq(t[i], t[j]) by {
            if j < s.len() {
                assert(leq(s[i], s[j]));
            } else {
                // Everything in `s` may come before `x`, through the last element.
                if i < s.len() - 1 {
                    assert(leq(s[i], s.last()));
                }
                assert(leq(t[i], x));
            }
        }
    } else {
        let s0 = s.drop_last();
        let y = s.last();
        assert(sorted_by(s0, leq)) by {
            assert(forall|i: int, j: int|
                0 <= i < j < s0.len() ==> leq(#[trigger] s0[i], #[trigger] s0[j]) == leq(
                    s[i],
                    s[j],
                ));
        }
        lemma_insert_sorted_by(s0, x, leq);
        let t0 = insert_sorted_by(s0, x, leq);
        assert(t == t0.push(y));
        // `x` may come before `y`, and so may every element of `s0`.
        assert(leq(x, y));
        assert forall|i: int, j: int| 0 <= i < j < t.len() implies leq(t[i], t[j]) by {
            if j < t0.len() {
                assert(leq(t0[i], t0[j]));
            } else {
                assert(t[j] == y);
                if t0[i] == x {
                    assert(leq(x, y));
                } else {
                    let k = choose|k: int| 0 <= k < s0.len() && s0[k] == t0[i];
                    assert(s[k] == s0[k]);
                    assert(leq(s[k], s.last()));
                }
            }
        }
        assert(t.to_multiset() =~= s.to_multiset().insert(x)) by {
            assert(t0.push(y).to_multiset() =~= t0.to_multiset().insert(y));
            assert(s0.push(y) =~= s);
            assert(s0.push(y).to_multiset() =~= s0.to_multiset().insert(y));
            assert(t0.to_multiset() =~= s0.to_multiset().insert(x));
            assert(s0.to_multiset().insert(x).insert(y) =~= s0.to_multiset().insert(y).insert(x));
        }
        assert forall|i: int| 0 <= i < t.len() implies (t[i] == x || s.contains(t[i])) by {
            if i < t0.len() {
                if t0[i] != x {
                    let k = choose|k: int| 0 <= k < s0.len() && s0[k] == t0[i];
                    assert(s[k] == t[i]);
                }
            } else {
                assert(t[i] == s.last());
                assert(s[s.len() - 1] == s.last());
            }
        }
    }
}

/// The sorted sequence is a sorted permutation of the input.
pub proof fn lemma_sort_by_spec<T>(s: Seq<T>, leq: spec_fn(T, T) -> bool)
    requires
        total_preorder(leq),
    ensures
        sorted_by(sort_by_spec(s, leq), leq),
        sort_by_spec(s, leq).len() == s.len(),
        sort_by_spec(s, leq).to_multiset() == s.to_multiset(),
        forall|i: int| 0 <= i < s.len() ==> s.contains(#[trigger] sort_by_spec(s, leq)[i]),
    decreases s.len(),
{
    broadcast use vstd::seq_lib::group_to_multiset_ensures;

    if s.len() == 0 {
    } else {
        let s0 = s.drop_last();
        lemma_sort_by_spec(s0, leq);
        lemma_insert_sorted_by(sort_by_spec(s0, leq), s.last(), leq);
        assert(s0.push(s.last()) =~= s);
        assert(s0.push(s.last()).to_multiset() =~= s0.to_multiset().insert(s.last()));
        assert forall|i: int| 0 <= i < s.len() implies s.contains(
            #[trigger] sort_by_spec(s, leq)[i],
        ) by {
            let t0 = sort_by_spec(s0, leq);
            let e = sort_by_spec(s, leq)[i];
            if e != s.last() {
                assert(t0.contains(e) || e == s.last());
                if t0.contains(e) {
                    let k = choose|k: int| 0 <= k < t0.len() && t0[k] == e;
                    assert(s0.contains(t0[k]));
                    let m = choose|m: int| 0 <= m < s0.len() && s0[m] == e;
                    assert(s[m] == e);
                }
            } else {
                assert(s[s.len() - 1] == s.last());
            }
        }
    }
}

/// Where the back-to-front scan stops is where the stable insertion lands.
pub proof fn lemma_insert_sorted_position<T>(s: Seq<T>, x: T, leq: spec_fn(T, T) -> bool, j: int)
    requires
        sorted_by(s, leq),
        0 <= j <= s.len(),
        forall|k: int| j <= k < s.len() ==> !leq(#[trigger] s[k], x),
        j > 0 ==> leq(s[j - 1], x),
    ensures
        insert_sorted_by(s, x, leq) == s.insert(j, x),
    decreases s.len(),
{
    if s.len() == 0 {
        assert(insert_sorted_by(s, x, leq) =~= s.insert(0, x));
    } else if leq(s.last(), x) {
        assert(j == s.len());
        assert(s.push(x) =~= s.insert(j, x));
    } else {
        assert(j < s.len());
        let s0 = s.drop_last();
        assert(sorted_by(s0, leq)) by {
            assert(forall|i: int, k: int|
                0 <= i < k < s0.len() ==> leq(#[trigger] s0[i], #[trigger] s0[k]) == leq(
                    s[i],
                    s[k],
                ));
        }
        lemma_insert_sorted_position(s0, x, leq, j);
        assert(insert_sorted_by(s0, x, leq).push(s.last()) =~= s.insert(j, x));
    }
}

/// Sort a vector with an executable comparator that decides `leq`.
///
/// The result is exactly the stable insertion sort of the input.
pub fn insertion_sort<T, F: Fn(&T, &T) -> bool>(
    v: Vec<T>,
    cmp: F,
    Ghost(leq): Ghost<spec_fn(T, T) -> bool>,
    Ghost(valid): Ghost<spec_fn(T) -> bool>,
) -> (r: Vec<T>)
    requires
        total_preorder(leq),
        forall|i: int| 0 <= i < v@.len() ==> valid(#[trigger] v@[i]),
        forall|a: &T, b: &T| valid(*a) && valid(*b) ==> #[trigger] cmp.requires((a, b)),
        forall|a: &T, b: &T, c: bool| #[trigger] cmp.ensures((a, b), c) ==> c == leq(*a, *b),
    ensures
        r@ == sort_by_spec(v@, leq),
{
    let ghost orig = v@;
    let mut rest = v;
    let mut res: Vec<T> = Vec::new();
    proof {
        assert(orig.take(0) =~= Seq::<T>::empty());
        assert(orig.skip(0) =~= orig);
    }
    while rest.len() > 0
        invariant
            total_preorder(leq),
            forall|i: int| 0 <= i < orig.len() ==> valid(#[trigger] orig[i]),
            forall|a: &T, b: &T| valid(*a) && valid(*b) ==> #[trigger] cmp.requires((a, b)),
            forall|a: &T, b: &T, c: bool| #[trigger] cmp.ensures((a, b), c) ==> c == leq(*a, *b),
            forall|k: int| 0 <= k < res@.len() ==> valid(#[trigger] res@[k]),
            rest@.len() <= orig.len(),
            rest@ == orig.skip(orig.len() - rest@.len()),
            res@ == sort_by_spec(orig.take(orig.len() - rest@.len()), leq),
            sorted_by(res@, leq),
        decreases rest@.len(),
    {
        let ghost i = orig.len() - rest@.len();
        let ghost pre_rest = rest@;
        let x = rest.remove(0);
        proof {
            assert(pre_rest[0] == orig[i]);
            assert(x == orig[i]);
            assert(valid(x));
            assert(rest@ =~= orig.skip(i + 1));
        }
        let mut j: usize = res.len();
        let ghost pre_res = res@;
        loop
            invariant
                res@ == pre_res,
                j <= res@.len(),
                total_preorder(leq),
                sorted_by(res@, leq),
                valid(x),
                forall|k: int| 0 <= k < res@.len() ==> valid(#[trigger] res@[k]),
                forall|a: &T, b: &T| valid(*a) && valid(*b) ==> #[trigger] cmp.requires((a, b)),
                forall|a: &T, b: &T, c: bool| #[trigger] cmp.ensures((a, b), c) ==> c == leq(
                    *a,
                    *b,
                ),
                forall|k: int| j <= k < res@.len() ==> !leq(#[trigger] res@[k], x),
            ensures
                res@ == pre_res,
                j <= res@.len(),
                forall|k: int| j <= k < res@.len() ==> !leq(#[trigger] res@[k], x),
                j > 0 ==> leq(res@[j - 1], x),
            decreases j,
        {
            if j == 0 {
                break ;
            }
            let may_precede = cmp(&res[j - 1], &x);
            if may_precede {
                break ;
            }
            j = j - 1;
        }
        proof {
            lemma_insert_sorted_position(res@, x, leq, j as int);
            lemma_insert_sorted_by(res@, x, leq);
            crate::seqs::lemma_take_step(orig, i);
        }
        let ghost res_before = res@;
        res.insert(j, x);
        proof {
            assert forall|k: int| 0 <= k < res@.len() implies valid(#[trigger] res@[k]) by {
                assert(res@ == insert_sorted_by(res_before, x, leq));
                assert(res@[k] == x || res_before.contains(res@[k]));
            }
        }
    }
    proof {
        crate::seqs::lemma_take_all(orig);
    }
    res
}

} // verus!
