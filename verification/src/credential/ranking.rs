//! Counting over index ranges, used to state rank-based choices exactly.

use vstd::prelude::*;

verus! {

/// Number of indices in `[0, n)` that satisfy `p`.
pub open spec fn count_where(p: spec_fn(int) -> bool, n: int) -> nat
    decreases n,
{
    if n <= 0 {
        0
    } else {
        count_where(p, n - 1) + if p(n - 1) {
            1nat
        } else {
            0nat
        }
    }
}

pub proof fn lemma_count_ext(p: spec_fn(int) -> bool, q: spec_fn(int) -> bool, n: int)
    requires
        forall|j: int| 0 <= j < n ==> #[trigger] p(j) == q(j),
    ensures
        count_where(p, n) == count_where(q, n),
    decreases n,
{
    if n > 0 {
        lemma_count_ext(p, q, n - 1);
    }
}

pub proof fn lemma_count_zero(p: spec_fn(int) -> bool, n: int)
    requires
        forall|j: int| 0 <= j < n ==> !#[trigger] p(j),
    ensures
        count_where(p, n) == 0,
    decreases n,
{
    if n > 0 {
        lemma_count_zero(p, n - 1);
    }
}

pub proof fn lemma_count_positive(p: spec_fn(int) -> bool, n: int, c: int)
    requires
        0 <= c < n,
        p(c),
    ensures
        count_where(p, n) >= 1,
    decreases n,
{
    if c < n - 1 {
        lemma_count_positive(p, n - 1, c);
    }
}

pub proof fn lemma_count_witness(p: spec_fn(int) -> bool, n: int)
    requires
        count_where(p, n) > 0,
    ensures
        exists|j: int| 0 <= j < n && #[trigger] p(j),
    decreases n,
{
    if n > 0 && !p(n - 1) {
        lemma_count_witness(p, n - 1);
    }
}

pub proof fn lemma_count_add_one(p: spec_fn(int) -> bool, q: spec_fn(int) -> bool, c: int, n: int)
    requires
        0 <= c < n,
        !q(c),
        forall|j: int| 0 <= j < n ==> #[trigger] p(j) == (q(j) || j == c),
    ensures
        count_where(p, n) == count_where(q, n) + 1,
    decreases n,
{
    if n - 1 == c {
        lemma_count_ext(p, q, n - 1);
    } else {
        lemma_count_add_one(p, q, c, n - 1);
    }
}

} // verus!
