//! Request-level routing and account scheduling decisions that a policy
//! plan may take; the core keeps the target, eligibility and lease checks.

use vstd::prelude::*;

use crate::credential::ids::ProviderAccountId;
use crate::credential::selection::{
    builtin_selection, first_with_id, is_eligible, policy_preferred, spec_blocker, AccountCandidate,
    AccountSelection, AccountSelectionContext, AccountSelector, RotationStrategy,
};
use crate::engine::UpstreamSendState;
use crate::error::ProviderErrorKind;
use crate::identity::{ProviderKind, PublicModelId};
use crate::time::{TimeSpan, UnixTime};

verus! {

/// The outcome of a model routing policy: not handled, a route, or a refusal.
#[derive(Debug, Clone, PartialEq, Eq)]
pub enum ModelRouteDecision {
    Unhandled,
    Route { provider: Option<ProviderKind>, model: Option<PublicModelId> },
    Reject,
}

/// The facts of one candidate an account scheduling policy sees; no
/// credential or account profile is among them.
#[derive(Debug, Clone, PartialEq, Eq)]
pub struct AccountScheduleCandidate {
    account_id: ProviderAccountId,
    weight: u16,
    in_flight: u32,
    maximum_concurrency: u32,
    last_started_at: Option<UnixTime>,
    quota_reset_at: Option<UnixTime>,
    quota_remaining_rank: Option<u64>,
    failure_rate_basis_points: Option<u16>,
    first_output_latency_ms: Option<u64>,
}

impl AccountScheduleCandidate {
    pub closed spec fn spec_account_id(&self) -> ProviderAccountId {
        self.account_id
    }

    pub closed spec fn spec_weight(&self) -> u16 {
        self.weight
    }

    pub closed spec fn spec_in_flight(&self) -> u32 {
        self.in_flight
    }

    pub closed spec fn spec_maximum_concurrency(&self) -> u32 {
        self.maximum_concurrency
    }

    pub closed spec fn spec_last_started_at(&self) -> Option<UnixTime> {
        self.last_started_at
    }

    pub closed spec fn spec_quota_reset_at(&self) -> Option<UnixTime> {
        self.quota_reset_at
    }

    pub closed spec fn spec_quota_remaining_rank(&self) -> Option<u64> {
        self.quota_remaining_rank
    }

    pub closed spec fn spec_failure_rate_basis_points(&self) -> Option<u16> {
        self.failure_rate_basis_points
    }

    pub closed spec fn spec_first_output_latency_ms(&self) -> Option<u64> {
        self.first_output_latency_ms
    }

    pub fn account_id(&self) -> (r: &ProviderAccountId)
        ensures
            *r == self.spec_account_id(),
    {
        &self.account_id
    }

    pub fn weight(&self) -> (r: u16)
        ensures
            r == self.spec_weight(),
    {
        self.weight
    }

    pub fn in_flight(&self) -> (r: u32)
        ensures
            r == self.spec_in_flight(),
    {
        self.in_flight
    }

    pub fn maximum_concurrency(&self) -> (r: u32)
        ensures
            r == self.spec_maximum_concurrency(),
    {
        self.maximum_concurrency
    }

    pub fn last_started_at(&self) -> (r: Option<UnixTime>)
        ensures
            r == self.spec_last_started_at(),
    {
        self.last_started_at
    }

    pub fn quota_reset_at(&self) -> (r: Option<UnixTime>)
        ensures
            r == self.spec_quota_reset_at(),
    {
        self.quota_reset_at
    }

    pub fn quota_remaining_rank(&self) -> (r: Option<u64>)
        ensures
            r == self.spec_quota_remaining_rank(),
    {
        self.quota_remaining_rank
    }

    pub fn failure_rate_basis_points(&self) -> (r: Option<u16>)
        ensures
            r == self.spec_failure_rate_basis_points(),
    {
        self.failure_rate_basis_points
    }

    pub fn first_output_latency_ms(&self) -> (r: Option<u64>)
        ensures
            r == self.spec_first_output_latency_ms(),
    {
        self.first_output_latency_ms
    }
}

/// `s` shows the policy exactly the schedulable facts of `c`, its
/// concurrency being its own limit or the selection's default.
pub open spec fn projects(s: AccountScheduleCandidate, c: AccountCandidate, default_concurrency: u32) -> bool {
    &&& s.spec_account_id() == c.account.spec_id()
    &&& s.spec_weight() == c.account.spec_weight().spec_get()
    &&& s.spec_in_flight() == c.signals.in_flight
    &&& s.spec_maximum_concurrency() == c.account.spec_effective_concurrency(default_concurrency)
    &&& s.spec_last_started_at() == c.signals.last_started_at
    &&& s.spec_quota_reset_at() == c.signals.quota_reset_at
    &&& s.spec_quota_remaining_rank() == c.signals.quota_remaining_rank
    &&& s.spec_failure_rate_basis_points() == c.signals.failure_rate_basis_points
    &&& s.spec_first_output_latency_ms() == c.signals.first_output_latency_ms
}

/// The positions of the eligible candidates among the first `n`, in order.
pub open spec fn eligible_positions(cs: Seq<AccountCandidate>, ctx: AccountSelectionContext, n: int) -> Seq<int>
    decreases n,
{
    if n <= 0 {
        Seq::empty()
    } else if is_eligible(cs, ctx, n - 1) {
        eligible_positions(cs, ctx, n - 1).push(n - 1)
    } else {
        eligible_positions(cs, ctx, n - 1)
    }
}

/// The outcome of an account scheduling policy: pick an account, leave
/// the choice to the built-in order, or refuse.
#[derive(Debug, Clone, PartialEq, Eq)]
pub enum AccountScheduleDecision {
    Pick(ProviderAccountId),
    Delegate,
    Reject,
}

/// What a retry policy decides; it may only narrow the host's decision.
#[derive(Debug, Clone, Copy, PartialEq, Eq, Structural)]
pub enum RetryDecision {
    Delegate,
    Stop,
    Retry,
}

/// The safe failure facts the coordinator computes for a retry policy: no
/// credential, raw error or request body.
#[derive(Debug, Clone)]
pub struct RetryFacts {
    /// The attempt that failed, counting from one.
    pub attempt_index: u32,
    pub provider: ProviderKind,
    pub model: Option<String>,
    pub error_kind: ProviderErrorKind,
    pub upstream_status: Option<u16>,
    pub send_state: UpstreamSendState,
    pub remaining_routing_attempts: u32,
    pub remaining_deadline: TimeSpan,
    pub retry_allowed: bool,
}

/// A failed policy call; it carries no plugin message.
#[derive(Debug, Clone, Copy, PartialEq, Eq, Structural)]
pub struct RequestPolicyFault;

/// How an account scheduling policy failed: an explicit refusal, a fault,
/// or a choice that went stale while waiting.
#[derive(Debug, Clone, Copy, PartialEq, Eq, Structural)]
pub enum AccountPolicyError {
    Rejected,
    Fault,
    StaleCandidate,
}

/// A policy plan generation was already registered.
#[derive(Debug, Clone, Copy, PartialEq, Eq, Structural)]
pub struct RequestPolicyRegistrationError;

/// Whether one of `offered` names `id`.
pub open spec fn offered_contains(offered: Seq<AccountScheduleCandidate>, id: Seq<char>) -> bool {
    exists|i: int| 0 <= i < offered.len() && (#[trigger] offered[i]).spec_account_id()@ == id
}

impl AccountSelector {
    /// The eligible candidates as a scheduling policy sees them, in order.
    pub fn schedule_candidates(&self, candidates: &[AccountCandidate], context: &AccountSelectionContext) -> (r: Vec<AccountScheduleCandidate>)
        ensures
            r@.len() == eligible_positions(candidates@, *context, candidates@.len() as int).len(),
            forall|k: int| 0 <= k < r@.len() ==> projects(#[trigger] r@[k],
                candidates@[eligible_positions(candidates@, *context, candidates@.len() as int)[k]],
                context.policy.spec_max_concurrent()),
    {
        let default_concurrency = context.policy.max_concurrent_per_account();
        let mut out: Vec<AccountScheduleCandidate> = Vec::new();
        let mut i: usize = 0;
        while i < candidates.len()
            invariant
                i <= candidates@.len(),
                default_concurrency == context.policy.spec_max_concurrent(),
                default_concurrency > 0,
                out@.len() == eligible_positions(candidates@, *context, i as int).len(),
                forall|k: int| 0 <= k < out@.len() ==> projects(#[trigger] out@[k],
                    candidates@[eligible_positions(candidates@, *context, i as int)[k]], default_concurrency),
            decreases candidates@.len() - i,
        {
            let c = &candidates[i];
            let ghost before = eligible_positions(candidates@, *context, i as int);
            if self.scheduling_blocker(c, context).is_none() {
                let projected = AccountScheduleCandidate {
                    account_id: c.account.id().duplicate(),
                    weight: c.account.weight().get(),
                    in_flight: c.signals.in_flight,
                    maximum_concurrency: c.account.effective_concurrency(default_concurrency),
                    last_started_at: c.signals.last_started_at,
                    quota_reset_at: c.signals.quota_reset_at,
                    quota_remaining_rank: c.signals.quota_remaining_rank,
                    failure_rate_basis_points: c.signals.failure_rate_basis_points,
                    first_output_latency_ms: c.signals.first_output_latency_ms,
                };
                out.push(projected);
                proof {
                    assert(eligible_positions(candidates@, *context, i as int + 1) == before.push(i as int));
                    assert forall|k: int| 0 <= k < out@.len() implies projects(#[trigger] out@[k],
                        candidates@[eligible_positions(candidates@, *context, i as int + 1)[k]], default_concurrency) by {
                        if k < before.len() {
                            assert(eligible_positions(candidates@, *context, i as int + 1)[k] == before[k]);
                        }
                    }
                }
            } else {
                assert(eligible_positions(candidates@, *context, i as int + 1) == before);
            }
            i = i + 1;
        }
        out
    }

    /// Applies a scheduling policy's decision, re-checking eligibility at
    /// `current` (the time the policy answered): a refusal is `Rejected`; a
    /// pick outside the offered candidates is a `Fault`; a delegation uses the
    /// built-in selection; a choice no longer eligible is `StaleCandidate`.
    pub fn apply_schedule_decision<'a>(
        &self,
        decision: &AccountScheduleDecision,
        offered: &[AccountScheduleCandidate],
        candidates: &'a [AccountCandidate],
        current: &AccountSelectionContext,
        smart_keys: &[u64],
    ) -> (r: Result<AccountSelection<'a>, AccountPolicyError>)
        requires
            current.policy.spec_strategy() == RotationStrategy::Smart ==> smart_keys@.len() == candidates@.len(),
        ensures
            match *decision {
                AccountScheduleDecision::Reject => r == Err::<AccountSelection<'a>, AccountPolicyError>(AccountPolicyError::Rejected),
                AccountScheduleDecision::Delegate => {
                    &&& (exists|i: int| 0 <= i < candidates@.len() && is_eligible(candidates@, *current, i))
                        ==> (r matches Ok(sel) && builtin_selection(candidates@, *current, smart_keys@, sel))
                    &&& (forall|i: int| 0 <= i < candidates@.len() ==> !is_eligible(candidates@, *current, i))
                        ==> r == Err::<AccountSelection<'a>, AccountPolicyError>(AccountPolicyError::StaleCandidate)
                },
                AccountScheduleDecision::Pick(id) => if !offered_contains(offered@, id@) {
                    r == Err::<AccountSelection<'a>, AccountPolicyError>(AccountPolicyError::Fault)
                } else {
                    match first_with_id(candidates@, id@, candidates@.len() as int) {
                        Some(k) => if spec_blocker(candidates@[k], *current) is None {
                            r matches Ok(sel) && sel.spec_index() == k && sel.spec_candidate() == candidates@[k]
                                && sel.spec_preferred() == policy_preferred(candidates@, *current, id@)
                        } else {
                            r == Err::<AccountSelection<'a>, AccountPolicyError>(AccountPolicyError::StaleCandidate)
                        },
                        None => r == Err::<AccountSelection<'a>, AccountPolicyError>(AccountPolicyError::StaleCandidate),
                    }
                },
            },
    {
        match decision {
            AccountScheduleDecision::Reject => Err(AccountPolicyError::Rejected),
            AccountScheduleDecision::Delegate => match self.select(candidates, current, smart_keys) {
                Some(sel) => Ok(sel),
                None => Err(AccountPolicyError::StaleCandidate),
            },
            AccountScheduleDecision::Pick(id) => {
                let mut known = false;
                let mut i: usize = 0;
                while i < offered.len()
                    invariant
                        i <= offered@.len(),
                        known == exists|j: int| 0 <= j < i && (#[trigger] offered@[j]).spec_account_id()@ == id@,
                    decreases offered@.len() - i,
                {
                    if offered[i].account_id().same_as(id) {
                        known = true;
                    }
                    i = i + 1;
                }
                if !known {
                    return Err(AccountPolicyError::Fault);
                }
                match self.select_policy_candidate(candidates, current, id) {
                    Some(sel) => Ok(sel),
                    None => Err(AccountPolicyError::StaleCandidate),
                }
            },
        }
    }
}


/// The first step of a policy account selection: no eligible candidate
/// ends it without asking the policy; otherwise the policy is asked once,
/// with the eligible candidates projected in order.
pub enum AccountPolicyStart {
    NoCandidate,
    Ask(Vec<AccountScheduleCandidate>),
}

impl AccountSelector {
    /// Starts a policy account selection over `candidates`.
    pub fn begin_policy_selection(&self, candidates: &[AccountCandidate], context: &AccountSelectionContext) -> (r:
        AccountPolicyStart)
        ensures
            (eligible_positions(candidates@, *context, candidates@.len() as int).len() == 0) <==> r is NoCandidate,
            r matches AccountPolicyStart::Ask(offered) ==> {
                &&& offered@.len() == eligible_positions(candidates@, *context, candidates@.len() as int).len()
                &&& forall|k: int| 0 <= k < offered@.len() ==> projects(#[trigger] offered@[k],
                    candidates@[eligible_positions(candidates@, *context, candidates@.len() as int)[k]],
                    context.policy.spec_max_concurrent())
            },
    {
        let offered = self.schedule_candidates(candidates, context);
        if offered.len() == 0 {
            AccountPolicyStart::NoCandidate
        } else {
            AccountPolicyStart::Ask(offered)
        }
    }

    /// Ends a policy account selection with the policy's one answer, taken
    /// at `current`: a failed call is a `Fault`; a decision is applied as
    /// [`AccountSelector::apply_schedule_decision`] says.
    pub fn finish_policy_selection<'a>(
        &self,
        answer: Result<AccountScheduleDecision, RequestPolicyFault>,
        offered: &[AccountScheduleCandidate],
        candidates: &'a [AccountCandidate],
        current: &AccountSelectionContext,
        smart_keys: &[u64],
    ) -> (r: Result<Option<AccountSelection<'a>>, AccountPolicyError>)
        requires
            current.policy.spec_strategy() == RotationStrategy::Smart ==> smart_keys@.len() == candidates@.len(),
        ensures
            answer is Err ==> r == Err::<Option<AccountSelection<'a>>, AccountPolicyError>(AccountPolicyError::Fault),
            answer matches Ok(decision) ==> match r {
                Ok(Some(sel)) => decided(decision, offered@, candidates@, *current, smart_keys@, Ok(sel)),
                Ok(None) => false,
                Err(e) => decided(decision, offered@, candidates@, *current, smart_keys@, Err(e)),
            },
    {
        match answer {
            Err(_) => Err(AccountPolicyError::Fault),
            Ok(decision) => match self.apply_schedule_decision(&decision, offered, candidates, current, smart_keys) {
                Ok(sel) => Ok(Some(sel)),
                Err(e) => Err(e),
            },
        }
    }
}

/// `r` is what applying `decision` gives, as
/// [`AccountSelector::apply_schedule_decision`] states it.
pub open spec fn decided<'a>(
    decision: AccountScheduleDecision,
    offered: Seq<AccountScheduleCandidate>,
    candidates: Seq<AccountCandidate>,
    current: AccountSelectionContext,
    smart_keys: Seq<u64>,
    r: Result<AccountSelection<'a>, AccountPolicyError>,
) -> bool {
    match decision {
        AccountScheduleDecision::Reject => r == Err::<AccountSelection<'a>, AccountPolicyError>(AccountPolicyError::Rejected),
        AccountScheduleDecision::Delegate => {
            &&& (exists|i: int| 0 <= i < candidates.len() && is_eligible(candidates, current, i)) ==> (r matches Ok(sel)
                && builtin_selection(candidates, current, smart_keys, sel))
            &&& (forall|i: int| 0 <= i < candidates.len() ==> !is_eligible(candidates, current, i)) ==> r
                == Err::<AccountSelection<'a>, AccountPolicyError>(AccountPolicyError::StaleCandidate)
        },
        AccountScheduleDecision::Pick(id) => if !offered_contains(offered, id@) {
            r == Err::<AccountSelection<'a>, AccountPolicyError>(AccountPolicyError::Fault)
        } else {
            match first_with_id(candidates, id@, candidates.len() as int) {
                Some(k) => if spec_blocker(candidates[k], current) is None {
                    r matches Ok(sel) && sel.spec_index() == k && sel.spec_candidate() == candidates[k]
                        && sel.spec_preferred() == policy_preferred(candidates, current, id@)
                } else {
                    r == Err::<AccountSelection<'a>, AccountPolicyError>(AccountPolicyError::StaleCandidate)
                },
                None => r == Err::<AccountSelection<'a>, AccountPolicyError>(AccountPolicyError::StaleCandidate),
            }
        },
    }
}

} // verus!
