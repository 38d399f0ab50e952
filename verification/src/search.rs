//! The first and the last position at which something holds.

use vstd::prelude::*;

verus! {

/// The least number below `n` for which `p` holds, or `n` where there is none.
pub open spec fn first_below(n: nat, p: spec_fn(int) -> bool) -> int
    decreases n,
{
    if n == 0 {
        0
    } else {
        let k = first_below((n - 1) as nat, p);
        if k < n - 1 || p(n - 1) {
            k
        } else {
            n as int
        }
    }
}

/// The greatest number below `n` for which `p` holds, or -1 where there is none.
pub open spec fn last_below(n: nat, p: spec_fn(int) -> bool) -> int
    decreases n,
{
    if n == 0 {
        -1
    } else if p(n - 1) {
        n - 1
    } else {
        last_below((n - 1) as nat, p)
    }
}

/// What `first_below` finds, and that nothing before it would do.
pub proof fn lemma_first_below(n: nat, p: spec_fn(int) -> bool)
    ensures
        0 <= first_below(n, p) <= n,
        first_below(n, p) < n ==> p(first_below(n, p)),
        forall|i: int| 0 <= i < first_below(n, p) ==> !#[trigger] p(i),
    decreases n,
{
    if n > 0 {
        lemma_first_below((n - 1) as nat, p);
    }
}

/// A number that satisfies `p`, with none before it, is what `first_below` finds.
pub proof fn lemma_first_below_is(n: nat, p: spec_fn(int) -> bool, k: int)
    requires
        0 <= k <= n,
        k < n ==> p(k),
        forall|i: int| 0 <= i < k ==> !#[trigger] p(i),
    ensures
        first_below(n, p) == k,
{
    lemma_first_below(n, p);
    let f = first_below(n, p);
    if f < k {
        assert(p(f));
    }
    if k < f {
        assert(p(k));
    }
}

/// What `last_below` finds, and that nothing after it would do.
pub proof fn lemma_last_below(n: nat, p: spec_fn(int) -> bool)
    ensures
        -1 <= last_below(n, p) < n,
        last_below(n, p) >= 0 ==> p(last_below(n, p)),
        forall|i: int| last_below(n, p) < i < n ==> !#[trigger] p(i),
    decreases n,
{
    if n > 0 {
        lemma_last_below((n - 1) as nat, p);
    }
}

/// A number that satisfies `p`, with none after it, is what `last_below` finds.
pub proof fn lemma_last_below_is(n: nat, p: spec_fn(int) -> bool, k: int)
    requires
        -1 <= k < n,
        k >= 0 ==> p(k),
        forall|i: int| k < i < n ==> !#[trigger] p(i),
    ensures
        last_below(n, p) == k,
{
    lemma_last_below(n, p);
    let f = last_below(n, p);
    if f > k {
        assert(p(f));
    }
    if k > f {
        assert(p(k));
    }
}

} // verus!
