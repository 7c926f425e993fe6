use gateway_core::engine::admission::{on_admission_refused, AdmissionRefusal, ClientAdmissionRejection};
use gateway_core::accounting::{CalculatedCost, CostEstimateStatus, CostSource, ProviderReportedCost, Usage};
use gateway_core::credential::ids::ProviderAccountId;
use gateway_core::engine::continuation::{ContinuationBinding, NativeContinuationPin, PreviousResponseId};
use gateway_core::identity::ProviderKind;
use gateway_core::policy::ClientApiKeyId;
use gateway_core::engine::coordinator::{
    check_opened_attempt,
    decide_opening_failure, decide_stream_failure, interruption_finalization, next_attempt, provider_failure_outcome,
    AttemptAccountSelection, DeliveryState, NextAttempt, ResponseAccounting, StreamFailureContext,
};
use gateway_core::engine::{
    AttemptTrigger, CommitRequirement, ContinuationAttempt, EngineError, ExecutionOutcome, UpstreamSendState,
};
use gateway_core::error::{ContinuationFailure, GatewayErrorKind, ProviderError, ProviderErrorKind};
use gateway_core::event::{GatewayEvent, TextDelta};

fn id(text: &str) -> ProviderAccountId {
    ProviderAccountId::new(text.to_string()).unwrap()
}

fn planned(result: Result<NextAttempt, EngineError>) -> NextAttempt {
    match result {
        Ok(attempt) => attempt,
        Err(_) => panic!("the attempt budget was spent"),
    }
}

fn context() -> StreamFailureContext {
    StreamFailureContext {
        account_required: false,
        continuation: ContinuationAttempt::NoContinuation,
        downstream_committed: false,
        delivery_pending: false,
        attempts: 1,
        max_attempts: 3,
        idempotent: false,
        provider_session_state: false,
        account_recovery_available: true,
        send_observed: false,
    }
}

#[test]
fn first_attempt_is_initial_and_later_ones_are_account_retries() {
    let mut recovery = None;
    let first = planned(next_attempt(0, 2, &AttemptAccountSelection::Scheduled(None), &mut recovery, &[]));
    assert_eq!(first.index, 1);
    assert_eq!(first.trigger, AttemptTrigger::Initial);
    assert_eq!(first.pinned_account, None);
    assert!(!first.credential_recovery_attempted);
    let second = planned(next_attempt(1, 2, &AttemptAccountSelection::Scheduled(None), &mut recovery, &[]));
    assert_eq!(second.index, 2);
    assert_eq!(second.trigger, AttemptTrigger::AccountRetry);
    assert!(matches!(
        next_attempt(2, 2, &AttemptAccountSelection::Scheduled(None), &mut recovery, &[]),
        Err(EngineError::EmptyRoutingPlan)
    ));
}

#[test]
fn recovery_pin_is_consumed_once_and_required_account_returns() {
    let selection = AttemptAccountSelection::Scheduled(Some(id("acct_required")));
    let mut recovery = Some(id("acct_recovered"));
    let recovered = [id("acct_recovered")];
    let pinned = planned(next_attempt(1, 5, &selection, &mut recovery, &recovered));
    assert_eq!(pinned.pinned_account, Some(id("acct_recovered")));
    assert!(pinned.credential_recovery_attempted);
    assert_eq!(recovery, None);
    let later = planned(next_attempt(2, 5, &selection, &mut recovery, &recovered));
    assert_eq!(later.pinned_account, Some(id("acct_required")));
    assert!(!later.credential_recovery_attempted);
}

#[test]
fn diagnostic_request_keeps_its_account() {
    let selection = AttemptAccountSelection::Diagnostic(id("acct_fixed"));
    let mut recovery = Some(id("acct_other"));
    let attempt = planned(next_attempt(0, 1, &selection, &mut recovery, &[]));
    assert_eq!(attempt.pinned_account, Some(id("acct_fixed")));
    assert_eq!(recovery, Some(id("acct_other")));
}

#[test]
fn unsent_failure_retries_on_another_account() {
    let error = ProviderError::new(ProviderErrorKind::Transport, UpstreamSendState::NotSent);
    let d = decide_stream_failure(context(), &error);
    assert!(d.retry);
    assert!(d.exclude_account);
    assert!(!d.recover_same_account);
    assert_eq!(d.attempt_send_state, UpstreamSendState::NotSent);
    assert_eq!(d.continuation, ContinuationAttempt::NoContinuation);
    assert!(!d.records_exhaustion);
}

#[test]
fn observed_send_makes_the_attempt_sent() {
    let error = ProviderError::new(ProviderErrorKind::Transport, UpstreamSendState::NotSent);
    let d = decide_stream_failure(StreamFailureContext { send_observed: true, ..context() }, &error);
    assert_eq!(d.attempt_send_state, UpstreamSendState::Sent);
    // The provider still proved the payload unsent, so the replay is safe.
    assert!(d.retry);
    let sent = ProviderError::new(ProviderErrorKind::Transport, UpstreamSendState::Sent);
    let d = decide_stream_failure(context(), &sent);
    assert!(!d.retry);
    assert!(!d.exclude_account);
    let idempotent = decide_stream_failure(StreamFailureContext { idempotent: true, ..context() }, &sent);
    assert!(idempotent.retry);
}

#[test]
fn ambiguous_commit_pending_and_budget_block_retries() {
    let ambiguous = ProviderError::new(ProviderErrorKind::Timeout, UpstreamSendState::Ambiguous);
    assert!(!decide_stream_failure(StreamFailureContext { idempotent: true, ..context() }, &ambiguous).retry);
    let unsent = ProviderError::new(ProviderErrorKind::Transport, UpstreamSendState::NotSent);
    assert!(!decide_stream_failure(StreamFailureContext { downstream_committed: true, ..context() }, &unsent).retry);
    assert!(!decide_stream_failure(StreamFailureContext { delivery_pending: true, ..context() }, &unsent).retry);
    assert!(!decide_stream_failure(StreamFailureContext { attempts: 3, ..context() }, &unsent).retry);
    assert!(!decide_stream_failure(StreamFailureContext { account_required: true, ..context() }, &unsent).retry);
}

#[test]
fn credential_recovery_replays_once_on_the_same_account() {
    let error = ProviderError::new(ProviderErrorKind::Unauthorized, UpstreamSendState::NotSent).with_same_account_retry();
    let d = decide_stream_failure(StreamFailureContext { account_required: true, ..context() }, &error);
    assert!(d.retry);
    assert!(d.recover_same_account);
    assert!(!d.exclude_account);
    let again =
        decide_stream_failure(StreamFailureContext { account_required: true, account_recovery_available: false, ..context() }, &error);
    assert!(!again.retry);
}

#[test]
fn continuation_retries_step_forward() {
    let native = StreamFailureContext {
        continuation: ContinuationAttempt::Native,
        provider_session_state: true,
        ..context()
    };
    let rejected = ProviderError::new(ProviderErrorKind::InvalidRequest, UpstreamSendState::NotSent)
        .with_continuation_failure(ContinuationFailure::HistoryUnavailable);
    let d = decide_stream_failure(native, &rejected);
    assert!(d.retry);
    assert_eq!(d.continuation, ContinuationAttempt::ReplayOwner);
    assert!(!d.exclude_account);
    let plain = ProviderError::new(ProviderErrorKind::Transport, UpstreamSendState::NotSent);
    let d = decide_stream_failure(native, &plain);
    assert_eq!(d.continuation, ContinuationAttempt::ReplayAny);
    assert!(d.exclude_account);
    let owner = StreamFailureContext { continuation: ContinuationAttempt::ReplayOwner, ..native };
    assert_eq!(decide_stream_failure(owner, &rejected).continuation, ContinuationAttempt::ReplayAny);
    let without_state = StreamFailureContext { provider_session_state: false, ..native };
    let d = decide_stream_failure(without_state, &plain);
    assert!(!d.retry);
    assert_eq!(d.continuation, ContinuationAttempt::Native);
}

#[test]
fn rate_limits_are_remembered_as_exhaustion() {
    let limited = ProviderError::new(ProviderErrorKind::RateLimited, UpstreamSendState::Sent);
    assert!(decide_stream_failure(context(), &limited).records_exhaustion);
    let quota = ProviderError::new(ProviderErrorKind::QuotaExhausted, UpstreamSendState::Sent);
    assert!(decide_stream_failure(context(), &quota).records_exhaustion);
}

#[test]
fn opening_failures_report_exhaustion_and_spare_quiet_providers() {
    let none = ProviderError::new(ProviderErrorKind::NoEligibleAccount, UpstreamSendState::NotSent);
    let d = decide_opening_failure(&none, true);
    assert!(d.reports_exhaustion);
    assert!(!d.counts_against_provider);
    let d = decide_opening_failure(&none, false);
    assert!(!d.reports_exhaustion);
    assert!(!d.counts_against_provider);
    let unavailable = ProviderError::new(ProviderErrorKind::Unavailable, UpstreamSendState::NotSent);
    assert!(!decide_opening_failure(&unavailable, true).counts_against_provider);
    let sent = ProviderError::new(ProviderErrorKind::Unavailable, UpstreamSendState::Sent);
    assert!(decide_opening_failure(&sent, false).counts_against_provider);
    let auth = ProviderError::new(ProviderErrorKind::Unauthorized, UpstreamSendState::NotSent);
    assert!(decide_opening_failure(&auth, true).counts_against_provider);
}

fn usage(input: Option<u64>, output: Option<u64>) -> Usage {
    let mut u = Usage::new();
    u.input_tokens = input;
    u.output_tokens = output;
    u
}

#[test]
fn accounting_merges_usage_and_keeps_reported_cost() {
    let mut accounting = ResponseAccounting::new();
    assert_eq!(accounting.cost.source(), CostSource::Unavailable);
    accounting.observe_event(&GatewayEvent::Usage(usage(Some(10), None)), 5);
    accounting.observe_event(&GatewayEvent::Usage(usage(None, Some(7))), 6);
    assert_eq!(accounting.usage.input_tokens, Some(10));
    assert_eq!(accounting.usage.output_tokens, Some(7));
    assert_eq!(accounting.timings.first_event_ms, Some(5));

    let calculated = CalculatedCost::from_usd_ticks(300).unwrap();
    accounting.observe_event(&GatewayEvent::CalculatedCost(calculated), 7);
    assert_eq!(accounting.cost.source(), CostSource::Calculated);
    assert_eq!(accounting.cost.total(), Some(calculated.total()));

    let reported = ProviderReportedCost::from_usd_ticks(500).unwrap();
    accounting.observe_event(&GatewayEvent::ProviderCost(reported), 8);
    assert_eq!(accounting.cost.source(), CostSource::ProviderReported);
    assert_eq!(accounting.cost.status(), CostEstimateStatus::Known);

    accounting.observe_event(&GatewayEvent::CalculatedCost(calculated), 9);
    assert_eq!(accounting.cost.source(), CostSource::ProviderReported);
    assert_eq!(accounting.cost.total(), Some(reported.total()));
}

#[test]
fn discarded_attempt_leaves_only_latency() {
    let mut accounting = ResponseAccounting::new();
    accounting.observe_event(&GatewayEvent::TextDelta(TextDelta { content_index: 0, text: "hi".to_string() }), 12);
    accounting.observe_event(&GatewayEvent::Usage(usage(Some(3), Some(4))), 13);
    accounting.timings.latency_ms = Some(40);
    assert_eq!(accounting.timings.first_text_ms, Some(12));
    accounting.discard_attempt();
    assert_eq!(accounting.usage, Usage::new());
    assert_eq!(accounting.cost.source(), CostSource::Unavailable);
    assert_eq!(accounting.timings.first_text_ms, None);
    assert_eq!(accounting.timings.first_event_ms, None);
    assert_eq!(accounting.timings.latency_ms, Some(40));
}

#[test]
fn provider_failures_end_cancelled_incomplete_or_failed() {
    let cancelled = ProviderError::new(ProviderErrorKind::Cancelled, UpstreamSendState::Sent);
    assert_eq!(provider_failure_outcome(&cancelled, true), ExecutionOutcome::Cancelled);
    let transport = ProviderError::new(ProviderErrorKind::Transport, UpstreamSendState::Sent);
    assert_eq!(provider_failure_outcome(&transport, true), ExecutionOutcome::Incomplete);
    assert_eq!(provider_failure_outcome(&transport, false), ExecutionOutcome::Failed);
}

#[test]
fn interruptions_end_by_reason_and_raise_the_send_state() {
    let cancelled = interruption_finalization(&EngineError::Cancelled, 0, false, false, UpstreamSendState::NotSent);
    assert_eq!(cancelled.outcome, ExecutionOutcome::Cancelled);
    assert_eq!(cancelled.error.kind(), GatewayErrorKind::Cancelled);
    assert_eq!(cancelled.error.safe_message(), "request was cancelled");
    assert_eq!(cancelled.send_state, UpstreamSendState::NotSent);
    assert!(!cancelled.marks_send_state);

    let late = interruption_finalization(&EngineError::Deadline, 2, true, false, UpstreamSendState::NotSent);
    assert_eq!(late.outcome, ExecutionOutcome::Incomplete);
    assert_eq!(late.error.kind(), GatewayErrorKind::Timeout);
    assert_eq!(late.send_state, UpstreamSendState::Sent);
    assert!(late.marks_send_state);

    let early = interruption_finalization(&EngineError::Deadline, 1, false, false, UpstreamSendState::NotSent);
    assert_eq!(early.outcome, ExecutionOutcome::Failed);
    assert_eq!(early.send_state, UpstreamSendState::Ambiguous);

    let kept = interruption_finalization(&EngineError::Deadline, 1, false, false, UpstreamSendState::Sent);
    assert_eq!(kept.send_state, UpstreamSendState::Sent);

    let other = interruption_finalization(&EngineError::EmptyRoutingPlan, 1, false, true, UpstreamSendState::NotSent);
    assert_eq!(other.outcome, ExecutionOutcome::Failed);
    assert_eq!(other.error.kind(), GatewayErrorKind::Internal);
    assert_eq!(other.error.safe_message(), "request execution failed");
    assert_eq!(other.send_state, UpstreamSendState::Sent);
}

#[test]
fn first_event_waits_for_the_commit() {
    let mut state = DeliveryState::new();
    assert!(matches!(state.next_event_gate(), Ok(false)));
    assert_eq!(state.deliver(), CommitRequirement::CommitBeforeDelivery);
    assert!(matches!(state.next_event_gate(), Err(EngineError::DownstreamCommitRequired)));
    assert!(state.commit_gate().is_ok());
    assert!(!state.commit(Some(200)));
    assert_eq!(state.client_status_code, Some(200));
    assert!(matches!(state.commit_gate(), Err(EngineError::InvalidDeliveryState)));
    assert!(matches!(state.next_event_gate(), Ok(false)));
    assert_eq!(state.deliver(), CommitRequirement::AlreadyCommitted);
    assert!(state.end_upstream());
}

#[test]
fn upstream_end_before_commit_succeeds_at_the_commit() {
    let mut state = DeliveryState::new();
    assert!(matches!(state.collect_gate(), Ok(false)));
    assert!(matches!(state.collected(0), Err(EngineError::InvalidDeliveryState)));
    assert!(!state.end_upstream());
    assert!(state.collected(2).is_ok());
    assert!(matches!(state.collect_gate(), Err(EngineError::InvalidDeliveryState)));
    assert!(state.commit(None));
    state.finalized = true;
    assert!(matches!(state.next_event_gate(), Ok(true)));
}

#[test]
fn client_status_is_recorded_once_and_cancel_drops_pending_delivery() {
    let mut state = DeliveryState::new();
    assert!(state.record_client_status(502).is_ok());
    assert!(matches!(state.record_client_status(500), Err(EngineError::InvalidDeliveryState)));
    assert_eq!(state.client_status_code, Some(502));
    state.deliver();
    assert!(state.cancel());
    assert!(!state.delivery_pending);
    state.finalized = true;
    assert!(!state.cancel());
    let mut discarded = DeliveryState::new();
    discarded.end_upstream();
    discarded.discard_attempt();
    assert!(!discarded.upstream_complete);
}

#[test]
fn refused_admissions_fail_or_wait() {
    match on_admission_refused(ClientAdmissionRejection::RateLimited, 10, false, true) {
        AdmissionRefusal::Reject(error) => {
            assert_eq!(error.kind(), GatewayErrorKind::RateLimited);
            assert_eq!(error.safe_message(), "request exceeds client API key limits");
        }
        AdmissionRefusal::Wait { .. } => panic!("a rate limit never waits"),
    }
    assert!(matches!(
        on_admission_refused(ClientAdmissionRejection::ConcurrencyLimited, 0, false, true),
        AdmissionRefusal::Reject(_)
    ));
    assert!(matches!(
        on_admission_refused(ClientAdmissionRejection::ConcurrencyLimited, 3, false, true),
        AdmissionRefusal::Wait { charge_budget: true }
    ));
    assert!(matches!(
        on_admission_refused(ClientAdmissionRejection::ConcurrencyLimited, 3, true, true),
        AdmissionRefusal::Wait { charge_budget: false }
    ));
    assert!(matches!(
        on_admission_refused(ClientAdmissionRejection::ConcurrencyLimited, 3, false, false),
        AdmissionRefusal::Wait { charge_budget: false }
    ));
}

fn pinned_binding(provider: &str, account: &str) -> ContinuationBinding {
    ContinuationBinding::Pinned(NativeContinuationPin::new(
        PreviousResponseId::new("resp_1".to_string()),
        PreviousResponseId::new("resp_up".to_string()),
        ClientApiKeyId::new("key_1".to_string()).unwrap(),
        ProviderKind::new(provider.to_string()),
        id(account),
    ))
}

#[test]
fn opened_attempts_must_match_what_the_request_froze() {
    let openai = ProviderKind::new("openai".to_string());
    let a = id("acct_a");
    let b = id("acct_b");
    let native = ContinuationAttempt::Native;
    let m = check_opened_attempt(false, None, None, native, &openai, Some(&a)).err().unwrap();
    assert!(matches!(m.error, EngineError::ProviderMetadataMismatch));
    assert!(m.protocol_failure);
    assert_eq!(m.gateway_error.safe_message(), "provider metadata did not match the frozen candidate");
    let m = check_opened_attempt(true, Some(&b), None, native, &openai, Some(&a)).err().unwrap();
    assert!(matches!(m.error, EngineError::RequiredAccountMismatch));
    assert!(!m.protocol_failure);
    assert!(check_opened_attempt(true, Some(&a), None, native, &openai, Some(&a)).is_ok());
    let pin = pinned_binding("openai", "acct_a");
    assert!(check_opened_attempt(true, None, Some(&pin), native, &openai, Some(&a)).is_ok());
    let m = check_opened_attempt(true, None, Some(&pin), native, &openai, Some(&b)).err().unwrap();
    assert!(matches!(m.error, EngineError::ContinuationPinMismatch));
    assert_eq!(m.gateway_error.safe_message(), "native continuation binding did not match selected account");
    assert!(check_opened_attempt(true, None, Some(&pin), ContinuationAttempt::ReplayAny, &openai, Some(&b)).is_ok());
    let external = ContinuationBinding::External(PreviousResponseId::new("resp_x".to_string()));
    assert!(check_opened_attempt(true, None, Some(&external), native, &openai, None).is_ok());
}
