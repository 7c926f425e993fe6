//! The decisions of the request coordinator, the one owner of account
//! retries, the send barrier and the downstream commit barrier: which account
//! the next attempt must use, whether and how a failed stream is retried, and
//! what a request that could not open an attempt reports.

use vstd::prelude::*;

use crate::accounting::{empty_usage, merged_usage, CostEstimate, CostEstimateStatus, CostSource, Usage};
use crate::credential::ids::ProviderAccountId;
use crate::engine::{
    observe_event_timing, observed_timings, provider_proved_replay_safe, replay_proved_safe, spec_escalate_send_state,
    AttemptTrigger, CommitRequirement, ContinuationAttempt, EngineError, ExecutionOutcome, ModelRequestTimings,
    UpstreamSendState,
};
use crate::error::{GatewayError, GatewayErrorKind, ProviderError, ProviderErrorKind};
use crate::event::GatewayEvent;
use vstd::string::{StrSliceExecFns, StringExecFns};
use crate::engine::continuation::ContinuationBinding;
use crate::identity::ProviderKind;

verus! {

// ---------------------------------------------------------------------------
// The next attempt
// ---------------------------------------------------------------------------

/// How a request chooses accounts: scheduled, optionally restricted to one
/// required account, or a diagnostic request on a fixed account.
#[derive(Debug, Clone, PartialEq, Eq)]
pub enum AttemptAccountSelection {
    Scheduled(Option<ProviderAccountId>),
    Diagnostic(ProviderAccountId),
}

/// The next attempt: its one-based index, why it starts, the account it must
/// use, and whether that account already went through credential recovery.
#[derive(Debug, Clone, PartialEq, Eq)]
pub struct NextAttempt {
    pub index: u32,
    pub trigger: AttemptTrigger,
    pub pinned_account: Option<ProviderAccountId>,
    pub credential_recovery_attempted: bool,
}

/// The account the next attempt is pinned to: a diagnostic request's fixed
/// account; otherwise a pending recovery pin, else the required account.
pub open spec fn pinned_account_of(
    selection: AttemptAccountSelection,
    recovery_account: Option<ProviderAccountId>,
) -> Option<ProviderAccountId> {
    match selection {
        AttemptAccountSelection::Diagnostic(account) => Some(account),
        AttemptAccountSelection::Scheduled(required) => match recovery_account {
            Some(account) => Some(account),
            None => required,
        },
    }
}

/// `account` is among `accounts`.
pub open spec fn account_listed(accounts: Seq<ProviderAccountId>, account: ProviderAccountId) -> bool {
    exists|i: int| 0 <= i < accounts.len() && (#[trigger] accounts[i])@ == account@
}

fn account_in(accounts: &[ProviderAccountId], account: &ProviderAccountId) -> (r: bool)
    ensures
        r == account_listed(accounts@, *account),
{
    let mut i: usize = 0;
    while i < accounts.len()
        invariant
            i <= accounts@.len(),
            forall|j: int| 0 <= j < i ==> (#[trigger] accounts@[j])@ != account@,
        decreases accounts@.len() - i,
    {
        if accounts[i].same_as(account) {
            return true;
        }
        i = i + 1;
    }
    false
}

/// Plans the next attempt of a request that made `attempts` of at most
/// `max_attempts`. With the budget spent the routing plan is exhausted.
/// Otherwise a pending recovery pin is consumed (a diagnostic request keeps
/// it), the first attempt is the initial one and later ones are account
/// retries, and the pinned account is looked up among the accounts that
/// already went through credential recovery.
pub fn next_attempt(
    attempts: u32,
    max_attempts: u32,
    selection: &AttemptAccountSelection,
    recovery_account: &mut Option<ProviderAccountId>,
    recovered_accounts: &[ProviderAccountId],
) -> (r: Result<NextAttempt, EngineError>)
    ensures
        attempts >= max_attempts ==> r is Err && r->Err_0 is EmptyRoutingPlan && *final(recovery_account) == *old(
            recovery_account,
        ),
        attempts < max_attempts ==> (r matches Ok(n) && {
            &&& n.index == attempts + 1
            &&& n.trigger == (if attempts == 0 { AttemptTrigger::Initial } else { AttemptTrigger::AccountRetry })
            &&& n.pinned_account == pinned_account_of(*selection, *old(recovery_account))
            &&& n.credential_recovery_attempted == (match n.pinned_account {
                Some(a) => account_listed(recovered_accounts@, a),
                None => false,
            })
            &&& *final(recovery_account) == (if selection is Diagnostic {
                *old(recovery_account)
            } else {
                None::<ProviderAccountId>
            })
        }),
{
    if attempts >= max_attempts {
        return Err(EngineError::EmptyRoutingPlan);
    }
    let pinned_account = match selection {
        AttemptAccountSelection::Diagnostic(account) => Some(account.duplicate()),
        AttemptAccountSelection::Scheduled(required) => match recovery_account.take() {
            Some(account) => Some(account),
            None => match required {
                Some(account) => Some(account.duplicate()),
                None => None,
            },
        },
    };
    let credential_recovery_attempted = match &pinned_account {
        Some(account) => account_in(recovered_accounts, account),
        None => false,
    };
    let trigger = if attempts == 0 {
        AttemptTrigger::Initial
    } else {
        AttemptTrigger::AccountRetry
    };
    Ok(NextAttempt { index: attempts + 1, trigger, pinned_account, credential_recovery_attempted })
}

// ---------------------------------------------------------------------------
// A failed attempt stream
// ---------------------------------------------------------------------------

/// What the coordinator knows of the request when an attempt's stream fails.
#[derive(Debug, Clone, Copy, PartialEq, Eq, Structural)]
pub struct StreamFailureContext {
    /// The request is restricted to one account.
    pub account_required: bool,
    /// How the failed attempt handled a previous response.
    pub continuation: ContinuationAttempt,
    /// The downstream response was already committed.
    pub downstream_committed: bool,
    /// A client delivery is still in flight.
    pub delivery_pending: bool,
    /// Attempts made so far, the failed one included.
    pub attempts: u32,
    /// The routing plan's attempt budget.
    pub max_attempts: u32,
    /// The operation is idempotent.
    pub idempotent: bool,
    /// The operation carries session state for the failed attempt's provider.
    pub provider_session_state: bool,
    /// The failed attempt's account has not gone through credential recovery yet.
    pub account_recovery_available: bool,
    /// The failed attempt was already observed sending its payload.
    pub send_observed: bool,
}

/// What happens after an attempt's stream fails.
#[derive(Debug, Clone, Copy, PartialEq, Eq, Structural)]
pub struct StreamFailureDecision {
    /// The failed attempt's own send state, which drives the retry gates.
    pub attempt_send_state: UpstreamSendState,
    /// The request continues with another attempt; otherwise it fails.
    pub retry: bool,
    /// How the next attempt handles the previous response.
    pub continuation: ContinuationAttempt,
    /// The next attempt is pinned to the failed account for a credential
    /// recovery replay, and that account is marked as recovered.
    pub recover_same_account: bool,
    /// The failed account is excluded from later selection.
    pub exclude_account: bool,
    /// The failure is an account rate limit or quota exhaustion, to report
    /// when no account remains.
    pub records_exhaustion: bool,
}

/// The failed attempt's own send state: sent once it was observed sending,
/// else what the provider error reports.
pub open spec fn attempt_send_state_of(send_observed: bool, reported: UpstreamSendState) -> UpstreamSendState {
    if send_observed {
        UpstreamSendState::Sent
    } else {
        reported
    }
}

/// The gates every retry passes: nothing was committed or is being delivered
/// downstream, the payload did not reach the upstream ambiguously, and the
/// attempt budget is not spent.
pub open spec fn retry_open(c: StreamFailureContext, send: UpstreamSendState) -> bool {
    &&& !c.downstream_committed
    &&& !c.delivery_pending
    &&& send != UpstreamSendState::Ambiguous
    &&& c.attempts < c.max_attempts
}

/// A continuation retry: the request continues a previous response on no
/// required account, the provider proved a replay safe, and the operation
/// carries session state for the provider.
pub open spec fn continuation_retry(c: StreamFailureContext, send: UpstreamSendState, replay_safe: bool) -> bool {
    &&& !c.account_required
    &&& c.continuation != ContinuationAttempt::NoContinuation
    &&& retry_open(c, send)
    &&& replay_safe
    &&& c.provider_session_state
}

/// The continuation step after a failed continuation attempt: a native
/// continuation the provider rejected replays on the owner, any other replays
/// on any account.
pub open spec fn next_continuation(current: ContinuationAttempt, continuation_failed: bool) -> ContinuationAttempt {
    match current {
        ContinuationAttempt::Native => if continuation_failed {
            ContinuationAttempt::ReplayOwner
        } else {
            ContinuationAttempt::ReplayAny
        },
        ContinuationAttempt::ReplayOwner => ContinuationAttempt::ReplayAny,
        ContinuationAttempt::ReplayAny => ContinuationAttempt::ReplayAny,
        ContinuationAttempt::NoContinuation => ContinuationAttempt::NoContinuation,
    }
}

/// An ordinary retry on another account: no required account, no previous
/// response, and the operation is idempotent or the provider proved a replay
/// safe.
pub open spec fn ordinary_retry(c: StreamFailureContext, send: UpstreamSendState, replay_safe: bool) -> bool {
    &&& !c.account_required
    &&& c.continuation == ContinuationAttempt::NoContinuation
    &&& retry_open(c, send)
    &&& (c.idempotent || replay_safe)
}

/// A same-account retry: the provider finished credential recovery, asks for
/// a replay on the same account and proved it safe, and the account was not
/// recovered before.
pub open spec fn same_account_retry(
    c: StreamFailureContext,
    send: UpstreamSendState,
    replay_safe: bool,
    asks_same_account: bool,
) -> bool {
    &&& asks_same_account
    &&& replay_safe
    &&& retry_open(c, send)
    &&& c.account_recovery_available
}

/// The decision on a failed attempt stream.
pub open spec fn stream_failure_decision(c: StreamFailureContext, e: ProviderError) -> StreamFailureDecision {
    let send = attempt_send_state_of(c.send_observed, e.spec_send_state());
    let safe = replay_proved_safe(e.spec_send_state(), e.spec_replay_safe());
    let cont = continuation_retry(c, send, safe);
    let same = same_account_retry(c, send, safe, e.spec_retry_same_account());
    let ordinary = ordinary_retry(c, send, safe);
    let next = if cont {
        next_continuation(c.continuation, e.spec_continuation_failure() is Some)
    } else {
        c.continuation
    };
    StreamFailureDecision {
        attempt_send_state: send,
        retry: cont || same || ordinary,
        continuation: next,
        recover_same_account: same,
        exclude_account: (cont && next == ContinuationAttempt::ReplayAny) || (ordinary && !same && !cont),
        records_exhaustion: e.spec_kind() == ProviderErrorKind::RateLimited || e.spec_kind()
            == ProviderErrorKind::QuotaExhausted,
    }
}

/// Decides what follows a failed attempt stream: a continuation retry moves
/// the continuation one step on, a credential recovery replays once on the
/// same account, an ordinary retry moves to another account, and anything
/// else fails the request.
pub fn decide_stream_failure(context: StreamFailureContext, error: &ProviderError) -> (r: StreamFailureDecision)
    ensures
        r == stream_failure_decision(context, *error),
{
    let send = if context.send_observed {
        UpstreamSendState::Sent
    } else {
        error.send_state()
    };
    let safe = provider_proved_replay_safe(error);
    let open = !context.downstream_committed && !context.delivery_pending && send != UpstreamSendState::Ambiguous
        && context.attempts < context.max_attempts;
    let cont = !context.account_required && context.continuation != ContinuationAttempt::NoContinuation && open
        && safe && context.provider_session_state;
    let same = error.retries_same_account() && safe && open && context.account_recovery_available;
    let ordinary = !context.account_required && context.continuation == ContinuationAttempt::NoContinuation
        && open && (context.idempotent || safe);
    let next = if cont {
        match context.continuation {
            ContinuationAttempt::Native => if error.continuation_failure().is_some() {
                ContinuationAttempt::ReplayOwner
            } else {
                ContinuationAttempt::ReplayAny
            },
            ContinuationAttempt::ReplayOwner => ContinuationAttempt::ReplayAny,
            ContinuationAttempt::ReplayAny => ContinuationAttempt::ReplayAny,
            ContinuationAttempt::NoContinuation => ContinuationAttempt::NoContinuation,
        }
    } else {
        context.continuation
    };
    let kind = error.kind();
    StreamFailureDecision {
        attempt_send_state: send,
        retry: cont || same || ordinary,
        continuation: next,
        recover_same_account: same,
        exclude_account: (cont && next == ContinuationAttempt::ReplayAny) || (ordinary && !same && !cont),
        records_exhaustion: kind == ProviderErrorKind::RateLimited || kind == ProviderErrorKind::QuotaExhausted,
    }
}

/// The order of continuation steps: native, then replay on the owner, then
/// replay on any account.
pub open spec fn continuation_rank(c: ContinuationAttempt) -> int {
    match c {
        ContinuationAttempt::NoContinuation => 0,
        ContinuationAttempt::Native => 1,
        ContinuationAttempt::ReplayOwner => 2,
        ContinuationAttempt::ReplayAny => 3,
    }
}

/// The retry barriers: a failed stream is never retried once the response
/// was committed downstream, while a delivery is pending, when the payload
/// may have reached the upstream ambiguously, or with the attempt budget
/// spent; a request restricted to one account only ever retries that
/// account; a request without a previous response keeps none.
pub proof fn lemma_stream_retry_barriers(c: StreamFailureContext, e: ProviderError)
    ensures
        ({
            let d = stream_failure_decision(c, e);
            &&& (c.downstream_committed || c.delivery_pending || c.attempts >= c.max_attempts) ==> !d.retry
            &&& d.attempt_send_state == UpstreamSendState::Ambiguous ==> !d.retry
            &&& d.retry && c.account_required ==> d.recover_same_account && !d.exclude_account
            &&& c.continuation == ContinuationAttempt::NoContinuation ==> d.continuation
                == ContinuationAttempt::NoContinuation
            &&& d.recover_same_account ==> d.retry
            &&& d.exclude_account ==> d.retry
        }),
{
}

/// Continuation retries only move forward, from the native continuation to
/// a replay on the owner and then to a replay on any account, and a failed
/// stream never leaves a continuation behind.
pub proof fn lemma_continuation_moves_forward(c: StreamFailureContext, e: ProviderError)
    ensures
        continuation_rank(stream_failure_decision(c, e).continuation) >= continuation_rank(c.continuation),
        c.continuation != ContinuationAttempt::NoContinuation ==> stream_failure_decision(c, e).continuation
            != ContinuationAttempt::NoContinuation,
{
}

// ---------------------------------------------------------------------------
// An attempt that did not open
// ---------------------------------------------------------------------------

/// What a request reports when its provider could not open an attempt.
#[derive(Debug, Clone, Copy, PartialEq, Eq, Structural)]
pub struct OpeningFailureDecision {
    /// The request fails with the account exhaustion an earlier attempt ran
    /// into, instead of the error itself.
    pub reports_exhaustion: bool,
    /// The failure counts against the provider's health.
    pub counts_against_provider: bool,
}

/// When no account was eligible after an earlier attempt ran into an
/// account's rate limit or quota, the request reports that exhaustion and
/// blames no provider. Otherwise it reports the error, which counts against
/// the provider unless the provider only said, before sending anything, that
/// it is unavailable or has no eligible account.
pub fn decide_opening_failure(error: &ProviderError, exhaustion_known: bool) -> (r: OpeningFailureDecision)
    ensures
        r.reports_exhaustion == (error.spec_kind() == ProviderErrorKind::NoEligibleAccount && exhaustion_known),
        r.counts_against_provider == (!r.reports_exhaustion && !((error.spec_kind() == ProviderErrorKind::Unavailable
            || error.spec_kind() == ProviderErrorKind::NoEligibleAccount) && error.spec_send_state()
            == UpstreamSendState::NotSent)),
{
    let kind = error.kind();
    if kind == ProviderErrorKind::NoEligibleAccount && exhaustion_known {
        return OpeningFailureDecision { reports_exhaustion: true, counts_against_provider: false };
    }
    let quiet = (kind == ProviderErrorKind::Unavailable || kind == ProviderErrorKind::NoEligibleAccount)
        && error.send_state() == UpstreamSendState::NotSent;
    OpeningFailureDecision { reports_exhaustion: false, counts_against_provider: !quiet }
}

// ---------------------------------------------------------------------------
// The accounting of the current result
// ---------------------------------------------------------------------------

/// What the coordinator accumulates of the current upstream result until it
/// is committed or discarded.
#[derive(Debug, Clone, PartialEq, Eq)]
pub struct ResponseAccounting {
    pub usage: Usage,
    pub cost: CostEstimate,
    pub timings: ModelRequestTimings,
}

/// The timings of a discarded attempt: everything it observed is cleared,
/// only the request latency stays.
pub open spec fn discarded_timings(t: ModelRequestTimings) -> ModelRequestTimings {
    ModelRequestTimings {
        transport_decision_wait_ms: None,
        connect_ms: None,
        headers_ms: None,
        first_event_ms: None,
        first_reasoning_ms: None,
        first_text_ms: None,
        first_token_ms: None,
        provider_processing_ms: None,
        latency_ms: t.latency_ms,
    }
}

impl ResponseAccounting {
    /// Nothing observed yet: no usage, no cost, no timings.
    pub fn new() -> (r: ResponseAccounting)
        ensures
            r.usage == empty_usage(),
            r.cost.spec_source() == CostSource::Unavailable,
            r.cost.spec_status() == CostEstimateStatus::Unknown,
            r.cost.spec_total() is None,
            r.timings == discarded_timings(r.timings) && r.timings.latency_ms is None,
    {
        let timings = ModelRequestTimings {
            transport_decision_wait_ms: None,
            connect_ms: None,
            headers_ms: None,
            first_event_ms: None,
            first_reasoning_ms: None,
            first_text_ms: None,
            first_token_ms: None,
            provider_processing_ms: None,
            latency_ms: None,
        };
        ResponseAccounting { usage: Usage::new(), cost: CostEstimate::unavailable(), timings }
    }

    /// Accounts one canonical event observed `elapsed_ms` into the request:
    /// its first-occurrence timings, usage merged field by field, and cost. A
    /// provider-reported cost always wins; a calculated cost never replaces a
    /// provider-reported one.
    pub fn observe_event(&mut self, event: &GatewayEvent, elapsed_ms: u64)
        ensures
            final(self).timings == observed_timings(old(self).timings, *event, elapsed_ms),
            final(self).usage == (match *event {
                GatewayEvent::Usage(u) => merged_usage(old(self).usage, u),
                _ => old(self).usage,
            }),
            match *event {
                GatewayEvent::ProviderCost(c) => {
                    &&& final(self).cost.spec_source() == CostSource::ProviderReported
                    &&& final(self).cost.spec_status() == CostEstimateStatus::Known
                    &&& final(self).cost.spec_total() == Some(c.spec_total())
                },
                GatewayEvent::CalculatedCost(c) => if old(self).cost.spec_source() == CostSource::ProviderReported {
                    final(self).cost == old(self).cost
                } else {
                    &&& final(self).cost.spec_source() == CostSource::Calculated
                    &&& final(self).cost.spec_status() == CostEstimateStatus::Known
                    &&& final(self).cost.spec_total() == Some(c.spec_total())
                },
                _ => final(self).cost == old(self).cost,
            },
    {
        observe_event_timing(&mut self.timings, event, elapsed_ms);
        match event {
            GatewayEvent::Usage(observed) => {
                self.usage.merge(observed);
            },
            GatewayEvent::CalculatedCost(observed) => {
                if self.cost.source() != CostSource::ProviderReported {
                    self.cost = observed.into_estimate();
                }
            },
            GatewayEvent::ProviderCost(observed) => {
                self.cost = observed.into_estimate();
            },
            _ => {},
        }
    }

    /// Forgets what a discarded attempt contributed: usage, cost and every
    /// observed timing but the request latency.
    pub fn discard_attempt(&mut self)
        ensures
            final(self).usage == empty_usage(),
            final(self).cost.spec_source() == CostSource::Unavailable,
            final(self).cost.spec_status() == CostEstimateStatus::Unknown,
            final(self).cost.spec_total() is None,
            final(self).timings == discarded_timings(old(self).timings),
    {
        self.usage = Usage::new();
        self.cost = CostEstimate::unavailable();
        self.timings.transport_decision_wait_ms = None;
        self.timings.connect_ms = None;
        self.timings.headers_ms = None;
        self.timings.first_event_ms = None;
        self.timings.first_reasoning_ms = None;
        self.timings.first_text_ms = None;
        self.timings.first_token_ms = None;
        self.timings.provider_processing_ms = None;
    }
}

// ---------------------------------------------------------------------------
// How a failed or interrupted request ends
// ---------------------------------------------------------------------------

/// The outcome of a request its provider failed: cancelled when the provider
/// reports a cancellation, incomplete once the response was committed
/// downstream, failed otherwise.
pub fn provider_failure_outcome(error: &ProviderError, downstream_committed: bool) -> (r: ExecutionOutcome)
    ensures
        r == (if error.spec_kind() == ProviderErrorKind::Cancelled {
            ExecutionOutcome::Cancelled
        } else if downstream_committed {
            ExecutionOutcome::Incomplete
        } else {
            ExecutionOutcome::Failed
        }),
{
    if error.kind() == ProviderErrorKind::Cancelled {
        ExecutionOutcome::Cancelled
    } else if downstream_committed {
        ExecutionOutcome::Incomplete
    } else {
        ExecutionOutcome::Failed
    }
}

/// How an interrupted request is written back.
pub struct InterruptionFinalization {
    pub outcome: ExecutionOutcome,
    pub error: GatewayError,
    /// The request's send state, never below what it reached before.
    pub send_state: UpstreamSendState,
    /// The send state is written before the row is finalized; a request that
    /// made no attempt has none to write.
    pub marks_send_state: bool,
}

/// The send state an interruption observes: nothing was sent before the
/// first attempt; the payload was sent once the response was committed or
/// the attempt was seen sending; anything else may have reached the upstream.
pub open spec fn interrupted_send_state(attempts: u32, downstream_committed: bool, send_observed: bool) -> UpstreamSendState {
    if attempts == 0 {
        UpstreamSendState::NotSent
    } else if downstream_committed || send_observed {
        UpstreamSendState::Sent
    } else {
        UpstreamSendState::Ambiguous
    }
}

/// How a request interrupted by `reason` ends: a cancellation is cancelled; a
/// deadline that passed after the downstream commit leaves the response
/// incomplete, before it the request failed with a timeout; any other reason
/// is an internal failure. The send state is raised from `watermark`.
pub fn interruption_finalization(
    reason: &EngineError,
    attempts: u32,
    downstream_committed: bool,
    send_observed: bool,
    watermark: UpstreamSendState,
) -> (r: InterruptionFinalization)
    ensures
        r.outcome == (match *reason {
            EngineError::Cancelled => ExecutionOutcome::Cancelled,
            EngineError::Deadline => if downstream_committed {
                ExecutionOutcome::Incomplete
            } else {
                ExecutionOutcome::Failed
            },
            _ => ExecutionOutcome::Failed,
        }),
        r.error.spec_kind() == (match *reason {
            EngineError::Cancelled => GatewayErrorKind::Cancelled,
            EngineError::Deadline => GatewayErrorKind::Timeout,
            _ => GatewayErrorKind::Internal,
        }),
        r.error.spec_message() == (match *reason {
            EngineError::Cancelled => "request was cancelled"@,
            EngineError::Deadline => "request deadline elapsed"@,
            _ => "request execution failed"@,
        }),
        r.error.spec_diagnostic() is None,
        r.error.spec_client_visible_upstream_error() is None,
        r.send_state == spec_escalate_send_state(
            watermark,
            interrupted_send_state(attempts, downstream_committed, send_observed),
        ),
        r.marks_send_state == (attempts > 0),
{
    let (outcome, error) = match reason {
        EngineError::Cancelled => (
            ExecutionOutcome::Cancelled,
            GatewayError::new(GatewayErrorKind::Cancelled, "request was cancelled"),
        ),
        EngineError::Deadline => (
            if downstream_committed {
                ExecutionOutcome::Incomplete
            } else {
                ExecutionOutcome::Failed
            },
            GatewayError::new(GatewayErrorKind::Timeout, "request deadline elapsed"),
        ),
        _ => (ExecutionOutcome::Failed, GatewayError::new(GatewayErrorKind::Internal, "request execution failed")),
    };
    let observed = if attempts == 0 {
        UpstreamSendState::NotSent
    } else if downstream_committed || send_observed {
        UpstreamSendState::Sent
    } else {
        UpstreamSendState::Ambiguous
    };
    let send_state = crate::engine::escalate_send_state(watermark, observed);
    InterruptionFinalization { outcome, error, send_state, marks_send_state: attempts > 0 }
}

// ---------------------------------------------------------------------------
// The downstream commit barrier
// ---------------------------------------------------------------------------

/// Where one execution session stands towards its client: a pulled event
/// waits for its commit, the response was committed downstream with the
/// status the client got, the upstream finished, the request was finalized.
#[derive(Debug, Clone, Copy, PartialEq, Eq, Structural)]
pub struct DeliveryState {
    pub delivery_pending: bool,
    pub downstream_committed: bool,
    pub client_status_code: Option<u16>,
    pub upstream_complete: bool,
    pub finalized: bool,
}

/// A client event is handed out: once committed it goes straight through,
/// before that it waits for its commit.
pub open spec fn delivered(s: DeliveryState) -> (DeliveryState, CommitRequirement) {
    if s.downstream_committed {
        (s, CommitRequirement::AlreadyCommitted)
    } else {
        (DeliveryState { delivery_pending: true, ..s }, CommitRequirement::CommitBeforeDelivery)
    }
}

/// The upstream stream ended; the request succeeds now when its response is
/// already committed.
pub open spec fn upstream_ended(s: DeliveryState) -> (DeliveryState, bool) {
    (DeliveryState { upstream_complete: true, ..s }, s.downstream_committed)
}

/// A commit is possible while a delivery is pending, before any commit, and
/// before the request was finalized.
pub open spec fn can_commit(s: DeliveryState) -> bool {
    s.delivery_pending && !s.downstream_committed && !s.finalized
}

/// The downstream commit was persisted; the request succeeds now when the
/// upstream already finished.
pub open spec fn committed(s: DeliveryState, client_status_code: Option<u16>) -> (DeliveryState, bool) {
    (
        DeliveryState { delivery_pending: false, downstream_committed: true, client_status_code, ..s },
        s.upstream_complete,
    )
}

impl DeliveryState {
    /// Nothing pulled, committed, finished or finalized yet.
    pub fn new() -> (r: DeliveryState)
        ensures
            r == (DeliveryState {
                delivery_pending: false,
                downstream_committed: false,
                client_status_code: None,
                upstream_complete: false,
                finalized: false,
            }),
    {
        DeliveryState {
            delivery_pending: false,
            downstream_committed: false,
            client_status_code: None,
            upstream_complete: false,
            finalized: false,
        }
    }

    /// Before the next event is pulled: an uncommitted delivery must be
    /// committed first; a finalized session has no more events (`true`).
    pub fn next_event_gate(&self) -> (r: Result<bool, EngineError>)
        ensures
            self.delivery_pending ==> r is Err && r->Err_0 is DownstreamCommitRequired,
            !self.delivery_pending ==> r == Ok::<bool, EngineError>(self.finalized),
    {
        if self.delivery_pending {
            return Err(EngineError::DownstreamCommitRequired);
        }
        Ok(self.finalized)
    }

    /// Hands out one client event.
    pub fn deliver(&mut self) -> (r: CommitRequirement)
        ensures
            (*final(self), r) == delivered(*old(self)),
    {
        if self.downstream_committed {
            CommitRequirement::AlreadyCommitted
        } else {
            self.delivery_pending = true;
            CommitRequirement::CommitBeforeDelivery
        }
    }

    /// Records the end of the upstream stream; `true` when the request
    /// succeeds now.
    pub fn end_upstream(&mut self) -> (r: bool)
        ensures
            (*final(self), r) == upstream_ended(*old(self)),
    {
        self.upstream_complete = true;
        self.downstream_committed
    }

    /// Before a complete result is collected without a downstream commit:
    /// nothing may be committed or pending; a finalized session collects
    /// nothing (`true`).
    pub fn collect_gate(&self) -> (r: Result<bool, EngineError>)
        ensures
            (self.downstream_committed || self.delivery_pending) ==> r is Err && r->Err_0 is InvalidDeliveryState,
            !(self.downstream_committed || self.delivery_pending) ==> r == Ok::<bool, EngineError>(self.finalized),
    {
        if self.downstream_committed || self.delivery_pending {
            return Err(EngineError::InvalidDeliveryState);
        }
        Ok(self.finalized)
    }

    /// A collected result of `events` events waits for its commit; an empty
    /// result cannot be delivered.
    pub fn collected(&mut self, events: usize) -> (r: Result<(), EngineError>)
        ensures
            events == 0 ==> r is Err && r->Err_0 is InvalidDeliveryState && *final(self) == *old(self),
            events > 0 ==> r is Ok && *final(self) == (DeliveryState { delivery_pending: true, ..*old(self) }),
    {
        if events == 0 {
            return Err(EngineError::InvalidDeliveryState);
        }
        self.delivery_pending = true;
        Ok(())
    }

    /// Before the commit is persisted.
    pub fn commit_gate(&self) -> (r: Result<(), EngineError>)
        ensures
            can_commit(*self) ==> r is Ok,
            !can_commit(*self) ==> r is Err && r->Err_0 is InvalidDeliveryState,
    {
        if !self.delivery_pending || self.downstream_committed || self.finalized {
            return Err(EngineError::InvalidDeliveryState);
        }
        Ok(())
    }

    /// Records the persisted commit; `true` when the request succeeds now.
    pub fn commit(&mut self, client_status_code: Option<u16>) -> (r: bool)
        requires
            can_commit(*old(self)),
        ensures
            (*final(self), r) == committed(*old(self), client_status_code),
    {
        self.downstream_committed = true;
        self.client_status_code = client_status_code;
        self.delivery_pending = false;
        self.upstream_complete
    }

    /// Records the status of an error response written before the first
    /// byte; a status is recorded once.
    pub fn record_client_status(&mut self, client_status_code: u16) -> (r: Result<(), EngineError>)
        ensures
            old(self).client_status_code is Some ==> r is Err && r->Err_0 is InvalidDeliveryState
                && *final(self) == *old(self),
            old(self).client_status_code is None ==> r is Ok && *final(self) == (DeliveryState {
                client_status_code: Some(client_status_code),
                ..*old(self)
            }),
    {
        if self.client_status_code.is_some() {
            return Err(EngineError::InvalidDeliveryState);
        }
        self.client_status_code = Some(client_status_code);
        Ok(())
    }

    /// A discarded attempt's end no longer counts.
    pub fn discard_attempt(&mut self)
        ensures
            *final(self) == (DeliveryState { upstream_complete: false, ..*old(self) }),
    {
        self.upstream_complete = false;
    }

    /// Cancels the session: a finalized one stays as it is (`false`); any
    /// other drops its pending delivery and must be finalized as cancelled.
    pub fn cancel(&mut self) -> (r: bool)
        ensures
            r == !old(self).finalized,
            old(self).finalized ==> *final(self) == *old(self),
            !old(self).finalized ==> *final(self) == (DeliveryState { delivery_pending: false, ..*old(self) }),
    {
        if self.finalized {
            return false;
        }
        self.delivery_pending = false;
        true
    }
}

/// The commit barrier: an event handed out before the commit blocks the
/// session until that commit, which happens once; after it events go
/// straight through.
pub proof fn lemma_commit_barrier(s: DeliveryState, client_status_code: Option<u16>)
    ensures
        !s.downstream_committed ==> delivered(s).1 == CommitRequirement::CommitBeforeDelivery
            && delivered(s).0.delivery_pending,
        !s.downstream_committed && !s.finalized ==> can_commit(delivered(s).0),
        can_commit(s) ==> !can_commit(committed(s, client_status_code).0),
        can_commit(s) ==> delivered(committed(s, client_status_code).0).1 == CommitRequirement::AlreadyCommitted,
{
}

/// A pending delivery reaches the client and the upstream finishes, in
/// either order: the request succeeds exactly once, at the second of the
/// two.
pub proof fn lemma_success_once(s: DeliveryState, client_status_code: Option<u16>)
    requires
        can_commit(s),
        !s.upstream_complete,
    ensures
        ({
            let (a, end_first) = upstream_ended(s);
            let (_, commit_second) = committed(a, client_status_code);
            !end_first && commit_second
        }),
        ({
            let (b, commit_first) = committed(s, client_status_code);
            let (_, end_second) = upstream_ended(b);
            !commit_first && end_second
        }),
{
}


// ---------------------------------------------------------------------------
// An attempt that opened
// ---------------------------------------------------------------------------

/// Why an opened attempt may not go on, and how the request fails.
pub struct OpenedAttemptMismatch {
    pub error: EngineError,
    pub gateway_error: GatewayError,
    /// The mismatch counts as a protocol failure of the provider.
    pub protocol_failure: bool,
}

/// Whether a pinned continuation binding keeps the provider and account
/// used; `None` where the binding has no pin.
pub open spec fn binding_pin_matches(
    continuation: Option<&ContinuationBinding>,
    provider: ProviderKind,
    account: Option<&ProviderAccountId>,
) -> Option<bool> {
    match continuation {
        Some(ContinuationBinding::Pinned(pin)) => Some(
            account matches Some(a) && pin.spec_provider()@ == provider@ && pin.spec_account()@ == a@,
        ),
        _ => None,
    }
}

/// Checks an opened attempt against what the request froze: the provider's
/// metadata must confirm the planned candidate, a pinned account must be the
/// one used, and a native continuation must run on its pinned provider and
/// account. The first check that fails decides; the first one also counts
/// as a protocol failure of the provider.
pub fn check_opened_attempt(
    confirms_candidate: bool,
    pinned_account: Option<&ProviderAccountId>,
    continuation: Option<&ContinuationBinding>,
    continuation_attempt: ContinuationAttempt,
    provider: &ProviderKind,
    account: Option<&ProviderAccountId>,
) -> (r: Result<(), OpenedAttemptMismatch>)
    ensures
        !confirms_candidate ==> (r matches Err(m) && m.error is ProviderMetadataMismatch && m.protocol_failure
            && m.gateway_error.spec_kind() == GatewayErrorKind::Internal && m.gateway_error.spec_message()
            == "provider metadata did not match the frozen candidate"@),
        confirms_candidate && (pinned_account matches Some(p) && !(account matches Some(a) && a@ == p@)) ==> (
        r matches Err(m) && m.error is RequiredAccountMismatch && !m.protocol_failure && m.gateway_error.spec_kind()
            == GatewayErrorKind::Internal && m.gateway_error.spec_message()
            == "provider did not use the required account"@),
        confirms_candidate && !(pinned_account matches Some(p) && !(account matches Some(a) && a@ == p@))
            && continuation_attempt == ContinuationAttempt::Native && binding_pin_matches(
            continuation,
            *provider,
            account,
        ) == Some(false) ==> (r matches Err(m) && m.error is ContinuationPinMismatch && !m.protocol_failure
            && m.gateway_error.spec_kind() == GatewayErrorKind::Internal && m.gateway_error.spec_message()
            == "native continuation binding did not match selected account"@),
        confirms_candidate && !(pinned_account matches Some(p) && !(account matches Some(a) && a@ == p@))
            && !(continuation_attempt == ContinuationAttempt::Native && binding_pin_matches(
            continuation,
            *provider,
            account,
        ) == Some(false)) ==> r is Ok,
{
    if !confirms_candidate {
        return Err(
            OpenedAttemptMismatch {
                error: EngineError::ProviderMetadataMismatch,
                gateway_error: GatewayError::new(
                    GatewayErrorKind::Internal,
                    "provider metadata did not match the frozen candidate",
                ),
                protocol_failure: true,
            },
        );
    }
    if let Some(required) = pinned_account {
        let used = match account {
            Some(a) => a.same_as(required),
            None => false,
        };
        if !used {
            return Err(
                OpenedAttemptMismatch {
                    error: EngineError::RequiredAccountMismatch,
                    gateway_error: GatewayError::new(GatewayErrorKind::Internal, "provider did not use the required account"),
                    protocol_failure: false,
                },
            );
        }
    }
    if continuation_attempt == ContinuationAttempt::Native {
        if let Some(binding) = continuation {
            if let Some(pin) = binding.pinned() {
                let kept = match account {
                    Some(a) => pin.matches(provider, a),
                    None => false,
                };
                if !kept {
                    return Err(
                        OpenedAttemptMismatch {
                            error: EngineError::ContinuationPinMismatch,
                            gateway_error: GatewayError::new(
                                GatewayErrorKind::Internal,
                                "native continuation binding did not match selected account",
                            ),
                            protocol_failure: false,
                        },
                    );
                }
            }
        }
    }
    Ok(())
}

/// The response id a `Started` or `Completed` event carries.
pub open spec fn event_response_id(e: GatewayEvent) -> Option<Seq<char>> {
    match e {
        GatewayEvent::Started(m) => Some(m.spec_response_id()),
        GatewayEvent::Completed(m) => Some(m.spec_response_id()),
        _ => None,
    }
}

/// The response id a `Started` or `Completed` event carries.
pub fn response_id_of(event: &GatewayEvent) -> (r: Option<&str>)
    ensures
        match event_response_id(*event) {
            Some(id) => r matches Some(x) && x@ == id,
            None => r is None,
        },
{
    match event {
        GatewayEvent::Started(m) => Some(m.response_id()),
        GatewayEvent::Completed(m) => Some(m.response_id()),
        _ => None,
    }
}

/// The response id an execution shows its client and the one upstream
/// reported; both are the same once seen.
pub struct ResponseIdentity {
    client_response_id: Option<String>,
    upstream_response_id: Option<String>,
}

/// The view of an optional owned text.
pub open spec fn text_opt(value: Option<String>) -> Option<Seq<char>> {
    match value {
        Some(v) => Some(v@),
        None => None,
    }
}

impl ResponseIdentity {
    pub closed spec fn spec_client(&self) -> Option<Seq<char>> {
        text_opt(self.client_response_id)
    }

    pub closed spec fn spec_upstream(&self) -> Option<Seq<char>> {
        text_opt(self.upstream_response_id)
    }

    /// No response id seen yet.
    pub fn new() -> (r: ResponseIdentity)
        ensures
            r.spec_client() is None,
            r.spec_upstream() is None,
    {
        ResponseIdentity { client_response_id: None, upstream_response_id: None }
    }

    /// Takes the response id of a `Started` or `Completed` event, one that
    /// passed the safe upstream value check: an empty id changes nothing; an
    /// id other than the one already seen is a protocol error of a sent
    /// request and changes nothing; otherwise both ids become it.
    pub fn observe(&mut self, response_id: &str) -> (r: Result<(), ProviderError>)
        ensures
            response_id@.len() == 0 ==> r is Ok && final(self).spec_client() == old(self).spec_client()
                && final(self).spec_upstream() == old(self).spec_upstream(),
            response_id@.len() > 0 && (old(self).spec_upstream() matches Some(x) && x != response_id@) ==> (
            r matches Err(e) && e.spec_kind() == ProviderErrorKind::Protocol && e.spec_send_state()
                == UpstreamSendState::Sent && final(self).spec_client() == old(self).spec_client()
                && final(self).spec_upstream() == old(self).spec_upstream()),
            response_id@.len() > 0 && !(old(self).spec_upstream() matches Some(x) && x != response_id@) ==> (
            r is Ok && final(self).spec_client() == Some(response_id@) && final(self).spec_upstream() == Some(
                response_id@,
            )),
    {
        if response_id.unicode_len() == 0 {
            return Ok(());
        }
        let mismatch = match &self.upstream_response_id {
            Some(expected) => !crate::text::str_equal(expected.as_str(), response_id),
            None => false,
        };
        if mismatch {
            return Err(ProviderError::new(ProviderErrorKind::Protocol, UpstreamSendState::Sent));
        }
        self.client_response_id = Some(String::from_str(response_id));
        self.upstream_response_id = Some(String::from_str(response_id));
        Ok(())
    }
}

} // verus!
