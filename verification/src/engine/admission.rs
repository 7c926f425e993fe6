//! Client key admission, release and start-up recovery facts.

use vstd::prelude::*;

use crate::engine::ModelRequestId;
use crate::error::{GatewayError, GatewayErrorKind};
use crate::policy::{ClientApiKeyId, RateLimits};
use crate::time::{TimeSpan, UnixTime, NANOS_PER_SEC};

verus! {

/// One admission request of a key.
#[derive(Debug, Clone, PartialEq, Eq)]
pub struct ClientAdmissionRequest {
    pub model_request_id: ModelRequestId,
    pub client_api_key_id: ClientApiKeyId,
    pub lease_ttl: TimeSpan,
    pub limits: RateLimits,
}

/// Why an admission was refused.
#[derive(Debug, Clone, Copy, PartialEq, Eq, Structural)]
pub enum ClientAdmissionRejection {
    RateLimited,
    ConcurrencyLimited,
}

/// The outcome of an admission.
#[derive(Debug, Clone, Copy, PartialEq, Eq, Structural)]
pub enum ClientAdmissionDecision {
    Granted,
    Rejected(ClientAdmissionRejection),
}

/// A request admitted within the rate window.
#[derive(Debug, Clone, PartialEq, Eq)]
pub struct RecentAdmissionFact {
    pub model_request_id: ModelRequestId,
    pub started_at: UnixTime,
}

/// A request still holding a concurrency slot.
#[derive(Debug, Clone, PartialEq, Eq)]
pub struct RunningAdmissionFact {
    pub model_request_id: ModelRequestId,
    pub expires_at: UnixTime,
}

/// The admission state of one key rebuilt from durable facts.
#[derive(Debug, Clone, PartialEq, Eq)]
pub struct ClientAdmissionRecovery {
    pub client_api_key_id: ClientApiKeyId,
    pub recent_requests: Vec<RecentAdmissionFact>,
    pub running_requests: Vec<RunningAdmissionFact>,
}

/// How many facts of one key were restored.
#[derive(Debug, Clone, Copy, PartialEq, Eq, Structural)]
pub struct ClientAdmissionRestoreResult {
    pub restored_recent_requests: u64,
    pub restored_running_requests: u64,
}

impl Default for ClientAdmissionRestoreResult {
    fn default() -> (r: ClientAdmissionRestoreResult)
        ensures
            r.restored_recent_requests == 0 && r.restored_running_requests == 0,
    {
        ClientAdmissionRestoreResult { restored_recent_requests: 0, restored_running_requests: 0 }
    }
}

/// The admission store is unavailable.
#[derive(Debug, Clone, Copy, PartialEq, Eq, Structural)]
pub struct ClientAdmissionError;

/// What start-up recovery settled and restored before the listener opened.
#[derive(Debug, Clone, Copy, PartialEq, Eq, Structural)]
pub struct ClientAdmissionStartupRecoveryReport {
    pub expired_model_requests: u64,
    pub restored_clients: u64,
    pub restored_recent_requests: u64,
    pub restored_running_requests: u64,
}

impl Default for ClientAdmissionStartupRecoveryReport {
    fn default() -> (r: ClientAdmissionStartupRecoveryReport)
        ensures
            r.expired_model_requests == 0 && r.restored_clients == 0,
            r.restored_recent_requests == 0 && r.restored_running_requests == 0,
    {
        ClientAdmissionStartupRecoveryReport {
            expired_model_requests: 0,
            restored_clients: 0,
            restored_recent_requests: 0,
            restored_running_requests: 0,
        }
    }
}

/// How far back admission facts are reloaded at start-up, in seconds.
pub const ADMISSION_RECOVERY_WINDOW_SECS: u64 = 61;

/// The start of the admission facts reloaded at start-up: one rate window
/// and a second before `now`; refused when that precedes the epoch.
pub fn admission_recovery_since(now: UnixTime) -> (r: Result<UnixTime, ClientAdmissionError>)
    ensures
        now.nanos >= ADMISSION_RECOVERY_WINDOW_SECS * NANOS_PER_SEC ==> r == Ok::<UnixTime, ClientAdmissionError>(
            UnixTime { nanos: (now.nanos - ADMISSION_RECOVERY_WINDOW_SECS * NANOS_PER_SEC) as u128 },
        ),
        now.nanos < ADMISSION_RECOVERY_WINDOW_SECS * NANOS_PER_SEC ==> r == Err::<UnixTime, ClientAdmissionError>(
            ClientAdmissionError,
        ),
{
    match now.checked_sub(TimeSpan::from_secs(ADMISSION_RECOVERY_WINDOW_SECS)) {
        Some(t) => Ok(t),
        None => Err(ClientAdmissionError),
    }
}

impl ClientAdmissionStartupRecoveryReport {
    /// The report once expired requests were settled and the keys to
    /// restore are known, before any key was restored.
    pub fn started(expired_model_requests: u64, restored_clients: usize) -> (r: ClientAdmissionStartupRecoveryReport)
        ensures
            r.expired_model_requests == expired_model_requests,
            r.restored_clients == (if restored_clients > u64::MAX { u64::MAX as int } else { restored_clients as int }),
            r.restored_recent_requests == 0,
            r.restored_running_requests == 0,
    {
        let clients: u64 = if restored_clients as u128 > u64::MAX as u128 { u64::MAX } else { restored_clients as u64 };
        ClientAdmissionStartupRecoveryReport {
            expired_model_requests,
            restored_clients: clients,
            restored_recent_requests: 0,
            restored_running_requests: 0,
        }
    }

    /// Adds what one key restored, saturating the totals.
    pub fn with_restored(self, restored: ClientAdmissionRestoreResult) -> (r: ClientAdmissionStartupRecoveryReport)
        ensures
            r.expired_model_requests == self.expired_model_requests,
            r.restored_clients == self.restored_clients,
            r.restored_recent_requests == self.restored_recent_requests.saturating_add(restored.restored_recent_requests),
            r.restored_running_requests == self.restored_running_requests.saturating_add(restored.restored_running_requests),
    {
        ClientAdmissionStartupRecoveryReport {
            restored_recent_requests: self.restored_recent_requests.saturating_add(restored.restored_recent_requests),
            restored_running_requests: self.restored_running_requests.saturating_add(restored.restored_running_requests),
            ..self
        }
    }
}


/// What a refused admission of a key leads to.
pub enum AdmissionRefusal {
    /// The request fails.
    Reject(GatewayError),
    /// The request waits in the key's queue and then tries again; the first
    /// wait of a request is charged to the client budget first.
    Wait { charge_budget: bool },
}

/// A rate-limit refusal, or any refusal of a key without a wait queue, fails
/// the request as exceeding the key's limits; a concurrency refusal waits for
/// a slot, and only the request's first wait is charged to the budget.
pub fn on_admission_refused(
    reason: ClientAdmissionRejection,
    max_waiting: u32,
    already_waited: bool,
    has_budget: bool,
) -> (r: AdmissionRefusal)
    ensures
        (reason == ClientAdmissionRejection::RateLimited || max_waiting == 0) ==> (r matches AdmissionRefusal::Reject(e)
            && e.spec_kind() == GatewayErrorKind::RateLimited && e.spec_message()
            == "request exceeds client API key limits"@ && e.spec_diagnostic() is None
            && e.spec_client_visible_upstream_error() is None),
        !(reason == ClientAdmissionRejection::RateLimited || max_waiting == 0) ==> r == (AdmissionRefusal::Wait {
            charge_budget: !already_waited && has_budget,
        }),
{
    if reason == ClientAdmissionRejection::RateLimited || max_waiting == 0 {
        return AdmissionRefusal::Reject(
            GatewayError::new(GatewayErrorKind::RateLimited, "request exceeds client API key limits"),
        );
    }
    AdmissionRefusal::Wait { charge_budget: !already_waited && has_budget }
}

} // verus!
