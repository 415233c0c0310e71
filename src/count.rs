use vstd::prelude::*;

verus! {

/// How many of `0, 1, ..., n - 1` satisfy `p`.
pub open spec fn count_where(n: nat, p: spec_fn(int) -> bool) -> nat
    decreases n,
{
    if n == 0 {
        0
    } else {
        count_where((n - 1) as nat, p) + if p(n - 1) { 1nat } else { 0nat }
    }
}

pub proof fn lemma_count_where_ext(n: nat, p: spec_fn(int) -> bool, q: spec_fn(int) -> bool)
    requires
        forall|k: int| 0 <= k < n ==> #[trigger] p(k) == q(k),
    ensures
        count_where(n, p) == count_where(n, q),
    decreases n,
{
    if n > 0 {
        lemma_count_where_ext((n - 1) as nat, p, q);
    }
}

/// A predicate that is the disjoint union of two others counts as their sum.
pub proof fn lemma_count_where_split(
    n: nat,
    p: spec_fn(int) -> bool,
    q: spec_fn(int) -> bool,
    r: spec_fn(int) -> bool,
)
    requires
        forall|k: int| 0 <= k < n ==> (#[trigger] p(k) <==> (q(k) || r(k))),
        forall|k: int| 0 <= k < n ==> !(#[trigger] q(k) && r(k)),
    ensures
        count_where(n, p) == count_where(n, q) + count_where(n, r),
    decreases n,
{
    if n > 0 {
        lemma_count_where_split((n - 1) as nat, p, q, r);
    }
}

/// Exactly one number below `n` equals `x`.
pub proof fn lemma_count_where_single(n: nat, x: int)
    requires
        0 <= x < n,
    ensures
        count_where(n, |k: int| k == x) == 1,
    decreases n,
{
    if x < n - 1 {
        lemma_count_where_single((n - 1) as nat, x);
    } else {
        lemma_count_where_none((n - 1) as nat, x);
    }
}

proof fn lemma_count_where_none(n: nat, x: int)
    requires
        n <= x,
    ensures
        count_where(n, |k: int| k == x) == 0,
    decreases n,
{
    if n > 0 {
        lemma_count_where_none((n - 1) as nat, x);
    }
}

/// A sequence of distinct numbers below `n` holds as many numbers below `n` as its length.
pub proof fn lemma_count_members(n: nat, s: Seq<usize>)
    requires
        n <= usize::MAX,
        s.no_duplicates(),
        forall|i: int| 0 <= i < s.len() ==> (s[i] as int) < n,
    ensures
        count_where(n, |k: int| s.contains(k as usize)) == s.len(),
    decreases s.len(),
{
    if s.len() == 0 {
        lemma_count_where_ext(n, |k: int| s.contains(k as usize), |k: int| false);
        lemma_count_where_split(n, |k: int| false, |k: int| false, |k: int| false);
    } else {
        let s0 = s.drop_last();
        let x = s.last();
        assert forall|i: int, j: int| 0 <= i < s0.len() && 0 <= j < s0.len() && i != j implies s0[i]
            != s0[j] by {
            assert(s0[i] == s[i] && s0[j] == s[j]);
        }
        assert forall|i: int| 0 <= i < s0.len() implies (s0[i] as int) < n by {
            assert(s0[i] == s[i]);
        }
        lemma_count_members(n, s0);
        assert(!s0.contains(x)) by {
            if s0.contains(x) {
                let i = choose|i: int| 0 <= i < s0.len() && s0[i] == x;
                assert(s[i] == s[s.len() - 1]);
            }
        }
        assert forall|k: int| 0 <= k < n implies (#[trigger] s.contains(k as usize) <==> (s0.contains(
            k as usize,
        ) || k == x as int)) by {
            if s.contains(k as usize) {
                let i = choose|i: int| 0 <= i < s.len() && s[i] == k as usize;
                if i < s.len() - 1 {
                    assert(s0[i] == s[i]);
                }
            }
            if s0.contains(k as usize) {
                let i = choose|i: int| 0 <= i < s0.len() && s0[i] == k as usize;
                assert(s[i] == s0[i]);
            }
            if k == x as int {
                assert(s[s.len() - 1] == x);
            }
        }
        lemma_count_where_split(
            n,
            |k: int| s.contains(k as usize),
            |k: int| s0.contains(k as usize),
            |k: int| k == x as int,
        );
        lemma_count_where_single(n, x as int);
    }
}

} // verus!
