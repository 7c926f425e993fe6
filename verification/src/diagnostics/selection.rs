//! Which scheduling candidates one account selection trace describes.

use vstd::prelude::*;

use crate::credential::selection::AccountCandidate;

verus! {

/// A selection trace event describes at most this many candidates, so that
/// one event stays near 4 KiB.
pub const MAX_TRACED_CANDIDATES: usize = 6;

/// The positions below `n` whose account id differs from `selected_id`, in
/// order.
pub open spec fn unselected_positions(
    candidates: Seq<AccountCandidate>,
    selected_id: Option<Seq<char>>,
    n: int,
) -> Seq<usize>
    decreases n,
{
    if n <= 0 {
        Seq::empty()
    } else {
        let rest = unselected_positions(candidates, selected_id, n - 1);
        if selected_id == Some(candidates[n - 1].account.spec_id()@) {
            rest
        } else {
            rest.push((n - 1) as usize)
        }
    }
}

/// The selected candidate first, then every other candidate whose account
/// differs from it, in order; at most [`MAX_TRACED_CANDIDATES`] of them.
pub open spec fn traced_positions(candidates: Seq<AccountCandidate>, selected: Option<usize>) -> Seq<usize> {
    let head = match selected {
        Some(s) => seq![s],
        None => Seq::empty(),
    };
    let selected_id = match selected {
        Some(s) => Some(candidates[s as int].account.spec_id()@),
        None => None,
    };
    let all = head + unselected_positions(candidates, selected_id, candidates.len() as int);
    if all.len() <= MAX_TRACED_CANDIDATES {
        all
    } else {
        all.take(MAX_TRACED_CANDIDATES as int)
    }
}

proof fn lemma_unselected_positions_bounded(
    candidates: Seq<AccountCandidate>,
    selected_id: Option<Seq<char>>,
    n: int,
)
    requires
        0 <= n,
    ensures
        unselected_positions(candidates, selected_id, n).len() <= n,
        forall|k: int|
            0 <= k < unselected_positions(candidates, selected_id, n).len() ==> #[trigger] unselected_positions(
                candidates,
                selected_id,
                n,
            )[k] < n,
    decreases n,
{
    if n > 0 {
        lemma_unselected_positions_bounded(candidates, selected_id, n - 1);
    }
}

/// The positions, in `candidates`, of the candidates that a selection trace
/// describes: the selected one first, then the others whose account differs
/// from it, in their order, and no more than [`MAX_TRACED_CANDIDATES`].
pub fn traced_candidate_positions(candidates: &[AccountCandidate], selected: Option<usize>) -> (r: Vec<usize>)
    requires
        selected matches Some(s) ==> s < candidates@.len(),
    ensures
        r@ == traced_positions(candidates@, selected),
        r@.len() <= MAX_TRACED_CANDIDATES,
        forall|k: int| 0 <= k < r@.len() ==> #[trigger] r@[k] < candidates@.len(),
{
    let ghost head: Seq<usize> = match selected {
        Some(s) => seq![s],
        None => Seq::empty(),
    };
    let ghost selected_id: Option<Seq<char>> = match selected {
        Some(s) => Some(candidates@[s as int].account.spec_id()@),
        None => None,
    };
    let mut r: Vec<usize> = Vec::new();
    if let Some(s) = selected {
        r.push(s);
    }
    let mut i: usize = 0;
    while i < candidates.len()
        invariant
            i <= candidates@.len(),
            selected matches Some(s) ==> s < candidates@.len(),
            selected_id == (match selected {
                Some(s) => Some(candidates@[s as int].account.spec_id()@),
                None => None::<Seq<char>>,
            }),
            head == (match selected {
                Some(s) => seq![s],
                None => Seq::<usize>::empty(),
            }),
            r@.len() <= MAX_TRACED_CANDIDATES,
            ({
                let all = head + unselected_positions(candidates@, selected_id, i as int);
                if all.len() <= MAX_TRACED_CANDIDATES {
                    r@ == all
                } else {
                    r@ == all.take(MAX_TRACED_CANDIDATES as int)
                }
            }),
        decreases candidates@.len() - i,
    {
        let ghost before = head + unselected_positions(candidates@, selected_id, i as int);
        let keep = match selected {
            Some(s) => !candidates[i].account.id().same_as(candidates[s].account.id()),
            None => true,
        };
        proof {
            assert(unselected_positions(candidates@, selected_id, i + 1) == if keep {
                unselected_positions(candidates@, selected_id, i as int).push(i)
            } else {
                unselected_positions(candidates@, selected_id, i as int)
            });
        }
        if keep && r.len() < MAX_TRACED_CANDIDATES {
            r.push(i);
        }
        proof {
            let after = head + unselected_positions(candidates@, selected_id, i + 1);
            if keep {
                assert(after =~= before.push(i));
                if before.len() > MAX_TRACED_CANDIDATES {
                    assert(after.take(MAX_TRACED_CANDIDATES as int) =~= before.take(MAX_TRACED_CANDIDATES as int));
                } else if before.len() == MAX_TRACED_CANDIDATES {
                    assert(after.take(MAX_TRACED_CANDIDATES as int) =~= before);
                }
            } else {
                assert(after =~= before);
            }
        }
        i = i + 1;
    }
    proof {
        lemma_unselected_positions_bounded(candidates@, selected_id, candidates@.len() as int);
        let all = head + unselected_positions(candidates@, selected_id, candidates@.len() as int);
        assert forall|k: int| 0 <= k < r@.len() implies #[trigger] r@[k] < candidates@.len() by {
            assert(r@[k] == all[k]);
            if k >= head.len() {
                assert(all[k] == unselected_positions(candidates@, selected_id, candidates@.len() as int)[k - head.len()]);
            }
        }
    }
    r
}

} // verus!
