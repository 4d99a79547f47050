//! Small helpers for reasoning about prefixes and folds of sequences.

use vstd::prelude::*;

verus! {

/// Sum of a sequence of prices.
pub open spec fn sum_of(s: Seq<u64>) -> int
    decreases s.len(),
{
    if s.len() == 0 {
        0
    } else {
        sum_of(s.drop_last()) + s.last()
    }
}

/// Largest element of a non-empty sequence.
pub open spec fn max_of(s: Seq<u64>) -> u64
    recommends
        s.len() > 0,
    decreases s.len(),
{
    if s.len() <= 1 {
        s[0]
    } else {
        let m = max_of(s.drop_last());
        if s.last() > m {
            s.last()
        } else {
            m
        }
    }
}

/// Smallest element of a non-empty sequence.
pub open spec fn min_of(s: Seq<u64>) -> u64
    recommends
        s.len() > 0,
    decreases s.len(),
{
    if s.len() <= 1 {
        s[0]
    } else {
        let m = min_of(s.drop_last());
        if s.last() < m {
            s.last()
        } else {
            m
        }
    }
}

/// Extending a prefix by one element: `take(i + 1)` is `take(i)` plus `s[i]`.
pub proof fn lemma_take_step<T>(s: Seq<T>, i: int)
    requires
        0 <= i < s.len(),
    ensures
        s.take(i + 1).drop_last() == s.take(i),
        s.take(i + 1).last() == s[i],
        s.take(i + 1) == s.take(i).push(s[i]),
{
    assert(s.take(i + 1).drop_last() =~= s.take(i));
    assert(s.take(i + 1) =~= s.take(i).push(s[i]));
}

/// The whole sequence is its own full prefix.
pub proof fn lemma_take_all<T>(s: Seq<T>)
    ensures
        s.take(s.len() as int) == s,
{
    assert(s.take(s.len() as int) =~= s);
}

/// A sum of elements bounded by `cap` is at most `len * cap`.
pub proof fn lemma_sum_bounded(s: Seq<u64>, cap: u64)
    requires
        forall|i: int| 0 <= i < s.len() ==> s[i] <= cap,
    ensures
        0 <= sum_of(s),
        sum_of(s) <= s.len() * cap,
    decreases s.len(),
{
    if s.len() == 0 {
    } else {
        lemma_sum_bounded(s.drop_last(), cap);
        assert(s.last() <= cap);
        assert((s.len() - 1) * cap + cap == s.len() * cap) by (nonlinear_arith);
    }
}

/// The largest element of a bounded non-empty sequence is bounded and occurs in it.
pub proof fn lemma_max_of_in(s: Seq<u64>)
    requires
        s.len() > 0,
    ensures
        s.contains(max_of(s)),
        forall|i: int| 0 <= i < s.len() ==> s[i] <= max_of(s),
    decreases s.len(),
{
    if s.len() <= 1 {
        assert(s[0] == max_of(s));
    } else {
        lemma_max_of_in(s.drop_last());
        let m = max_of(s.drop_last());
        if s.last() > m {
            assert(s[s.len() - 1] == max_of(s));
        } else {
            let j = choose|j: int| 0 <= j < s.drop_last().len() && s.drop_last()[j] == m;
            assert(s[j] == m);
        }
        assert(forall|i: int| 0 <= i < s.len() - 1 ==> s[i] == s.drop_last()[i]);
    }
}

/// The smallest element of a non-empty sequence occurs in it and is a lower bound.
pub proof fn lemma_min_of_in(s: Seq<u64>)
    requires
        s.len() > 0,
    ensures
        s.contains(min_of(s)),
        forall|i: int| 0 <= i < s.len() ==> min_of(s) <= s[i],
    decreases s.len(),
{
    if s.len() <= 1 {
        assert(s[0] == min_of(s));
    } else {
        lemma_min_of_in(s.drop_last());
        let m = min_of(s.drop_last());
        if s.last() < m {
            assert(s[s.len() - 1] == min_of(s));
        } else {
            let j = choose|j: int| 0 <= j < s.drop_last().len() && s.drop_last()[j] == m;
            assert(s[j] == m);
        }
        assert(forall|i: int| 0 <= i < s.len() - 1 ==> s[i] == s.drop_last()[i]);
    }
}

/// Sum of a vector whose elements are bounded by `cap`, exact.
pub fn vec_sum_capped(v: &Vec<u64>, cap: u64) -> (r: u64)
    requires
        forall|i: int| 0 <= i < v@.len() ==> v@[i] <= cap,
        v@.len() * cap <= u64::MAX,
    ensures
        r == sum_of(v@),
{
    let n: usize = v.len();
    let mut r: u64 = 0;
    proof {
        assert(v@.take(0) =~= Seq::<u64>::empty());
    }
    for i in 0..n
        invariant
            n == v@.len(),
            forall|j: int| 0 <= j < v@.len() ==> v@[j] <= cap,
            v@.len() * cap <= u64::MAX,
            r == sum_of(v@.take(i as int)),
            r <= i * cap,
    {
        proof {
            lemma_take_step(v@, i as int);
            assert(i * cap + cap == (i + 1) * cap) by (nonlinear_arith);
            assert((i + 1) * cap <= v@.len() * cap) by (nonlinear_arith)
                requires
                    i + 1 <= v@.len(),
                    cap >= 0,
            ;
        }
        r = r + v[i];
    }
    proof {
        lemma_take_all(v@);
    }
    r
}

/// Largest element of a non-empty vector, exact.
pub fn vec_max(v: &Vec<u64>) -> (r: u64)
    requires
        v@.len() > 0,
    ensures
        r == max_of(v@),
{
    let n: usize = v.len();
    let mut r: u64 = v[0];
    proof {
        assert(v@.take(1) =~= seq![v@[0]]);
    }
    for i in 1..n
        invariant
            n == v@.len(),
            1 <= i <= n,
            r == max_of(v@.take(i as int)),
    {
        proof {
            lemma_take_step(v@, i as int);
        }
        if v[i] > r {
            r = v[i];
        }
    }
    proof {
        lemma_take_all(v@);
    }
    r
}

/// Smallest element of a non-empty vector, exact.
pub fn vec_min(v: &Vec<u64>) -> (r: u64)
    requires
        v@.len() > 0,
    ensures
        r == min_of(v@),
{
    let n: usize = v.len();
    let mut r: u64 = v[0];
    proof {
        assert(v@.take(1) =~= seq![v@[0]]);
    }
    for i in 1..n
        invariant
            n == v@.len(),
            1 <= i <= n,
            r == min_of(v@.take(i as int)),
    {
        proof {
            lemma_take_step(v@, i as int);
        }
        if v[i] < r {
            r = v[i];
        }
    }
    proof {
        lemma_take_all(v@);
    }
    r
}

/// An exact copy of a vector of numbers.
pub fn copy_u64_vec(v: &Vec<u64>) -> (r: Vec<u64>)
    ensures
        r@ == v@,
{
    let n: usize = v.len();
    let mut r: Vec<u64> = Vec::new();
    proof {
        assert(v@.take(0) =~= Seq::<u64>::empty());
    }
    for i in 0..n
        invariant
            n == v@.len(),
            r@ == v@.take(i as int),
    {
        r.push(v[i]);
        proof {
            assert(v@.take(i as int).push(v@[i as int]) =~= v@.take(i + 1));
        }
    }
    proof {
        lemma_take_all(v@);
    }
    r
}

} // verus!
