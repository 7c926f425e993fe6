//! Stable error classifications used by the gateway core.

use vstd::prelude::*;

use crate::text::str_equal;
use crate::time::TimeSpan;
use crate::engine::UpstreamSendState;
use crate::event::ProviderResponseHeader;
use crate::upstream::OpaqueUpstreamValue;

verus! {

/// Upstream failure classification, stable across providers.
#[derive(Debug, Clone, Copy, PartialEq, Eq, Structural, Hash)]
#[non_exhaustive]
pub enum ProviderErrorKind {
    /// Request semantics error.
    InvalidRequest,
    /// The previous-response chain must be rebuilt by the client.
    ContinuationRecoveryRequired,
    /// The provider lacks a required capability.
    Unsupported,
    /// Credential authentication failed.
    Unauthorized,
    /// The credential lacks permission.
    PermissionDenied,
    /// The provider rate limited the request.
    RateLimited,
    /// The credential's quota is exhausted.
    QuotaExhausted,
    /// Eligible accounts exist but none has capacity now.
    AccountCapacityUnavailable,
    /// No account can serve this request.
    NoEligibleAccount,
    /// Account storage, lease coordination or local credential data is unavailable.
    ProviderInfrastructureUnavailable,
    /// The request timed out.
    Timeout,
    /// Network or transport failure.
    Transport,
    /// The upstream protocol was violated.
    Protocol,
    /// The provider is unavailable.
    Unavailable,
    /// The request was cancelled.
    Cancelled,
    /// Settled by recovery after the process ended.
    ProcessTerminated,
}

impl ProviderErrorKind {
    /// The stable wire and storage name.
    pub open spec fn spec_name(self) -> Seq<char> {
        match self {
            ProviderErrorKind::InvalidRequest => "invalid_request"@,
            ProviderErrorKind::ContinuationRecoveryRequired => "continuation_recovery_required"@,
            ProviderErrorKind::Unsupported => "unsupported"@,
            ProviderErrorKind::Unauthorized => "unauthorized"@,
            ProviderErrorKind::PermissionDenied => "permission_denied"@,
            ProviderErrorKind::RateLimited => "rate_limited"@,
            ProviderErrorKind::QuotaExhausted => "quota_exhausted"@,
            ProviderErrorKind::AccountCapacityUnavailable => "account_capacity_unavailable"@,
            ProviderErrorKind::NoEligibleAccount => "no_eligible_account"@,
            ProviderErrorKind::ProviderInfrastructureUnavailable => "provider_infrastructure_unavailable"@,
            ProviderErrorKind::Timeout => "timeout"@,
            ProviderErrorKind::Transport => "transport"@,
            ProviderErrorKind::Protocol => "protocol"@,
            ProviderErrorKind::Unavailable => "unavailable"@,
            ProviderErrorKind::Cancelled => "cancelled"@,
            ProviderErrorKind::ProcessTerminated => "process_terminated"@,
        }
    }

    pub fn as_str(self) -> (r: &'static str)
        ensures
            r@ == self.spec_name(),
    {
        match self {
            ProviderErrorKind::InvalidRequest => "invalid_request",
            ProviderErrorKind::ContinuationRecoveryRequired => "continuation_recovery_required",
            ProviderErrorKind::Unsupported => "unsupported",
            ProviderErrorKind::Unauthorized => "unauthorized",
            ProviderErrorKind::PermissionDenied => "permission_denied",
            ProviderErrorKind::RateLimited => "rate_limited",
            ProviderErrorKind::QuotaExhausted => "quota_exhausted",
            ProviderErrorKind::AccountCapacityUnavailable => "account_capacity_unavailable",
            ProviderErrorKind::NoEligibleAccount => "no_eligible_account",
            ProviderErrorKind::ProviderInfrastructureUnavailable => "provider_infrastructure_unavailable",
            ProviderErrorKind::Timeout => "timeout",
            ProviderErrorKind::Transport => "transport",
            ProviderErrorKind::Protocol => "protocol",
            ProviderErrorKind::Unavailable => "unavailable",
            ProviderErrorKind::Cancelled => "cancelled",
            ProviderErrorKind::ProcessTerminated => "process_terminated",
        }
    }
}

/// Gateway error classification, stable for client protocols.
#[derive(Debug, Clone, Copy, PartialEq, Eq, Structural, Hash)]
#[non_exhaustive]
pub enum GatewayErrorKind {
    /// Invalid request.
    InvalidRequest,
    /// Unsupported capability.
    Unsupported,
    /// Downstream authentication failed.
    Unauthorized,
    /// Caller policy refused the request.
    PolicyDenied,
    /// No such public model or route.
    ModelNotFound,
    /// No target is available.
    NoAvailableProvider,
    /// Eligible upstream accounts have no capacity now.
    AccountCapacityUnavailable,
    /// The provider's local account infrastructure is unavailable.
    ProviderInfrastructureUnavailable,
    /// Upstream rate limited.
    RateLimited,
    /// Upstream unavailable.
    UpstreamUnavailable,
    /// A concurrency limit is reached and no wait slot is left.
    ConcurrencyQueueFull,
    /// The wait for a concurrency slot ran past its deadline.
    ConcurrencyQueueTimeout,
    /// Request timed out.
    Timeout,
    /// Request cancelled.
    Cancelled,
    /// Internal persistence or state-machine failure.
    Internal,
}

impl GatewayErrorKind {
    /// The stable wire and storage name.
    pub open spec fn spec_name(self) -> Seq<char> {
        match self {
            GatewayErrorKind::InvalidRequest => "invalid_request"@,
            GatewayErrorKind::Unsupported => "unsupported"@,
            GatewayErrorKind::Unauthorized => "unauthorized"@,
            GatewayErrorKind::PolicyDenied => "policy_denied"@,
            GatewayErrorKind::ModelNotFound => "model_not_found"@,
            GatewayErrorKind::NoAvailableProvider => "no_available_provider"@,
            GatewayErrorKind::AccountCapacityUnavailable => "account_capacity_unavailable"@,
            GatewayErrorKind::ProviderInfrastructureUnavailable => "provider_infrastructure_unavailable"@,
            GatewayErrorKind::RateLimited => "rate_limited"@,
            GatewayErrorKind::UpstreamUnavailable => "upstream_unavailable"@,
            GatewayErrorKind::ConcurrencyQueueFull => "concurrency_queue_full"@,
            GatewayErrorKind::ConcurrencyQueueTimeout => "concurrency_queue_timeout"@,
            GatewayErrorKind::Timeout => "timeout"@,
            GatewayErrorKind::Cancelled => "cancelled"@,
            GatewayErrorKind::Internal => "internal_error"@,
        }
    }

    pub fn as_str(self) -> (r: &'static str)
        ensures
            r@ == self.spec_name(),
    {
        match self {
            GatewayErrorKind::InvalidRequest => "invalid_request",
            GatewayErrorKind::Unsupported => "unsupported",
            GatewayErrorKind::Unauthorized => "unauthorized",
            GatewayErrorKind::PolicyDenied => "policy_denied",
            GatewayErrorKind::ModelNotFound => "model_not_found",
            GatewayErrorKind::NoAvailableProvider => "no_available_provider",
            GatewayErrorKind::AccountCapacityUnavailable => "account_capacity_unavailable",
            GatewayErrorKind::ProviderInfrastructureUnavailable => "provider_infrastructure_unavailable",
            GatewayErrorKind::RateLimited => "rate_limited",
            GatewayErrorKind::UpstreamUnavailable => "upstream_unavailable",
            GatewayErrorKind::ConcurrencyQueueFull => "concurrency_queue_full",
            GatewayErrorKind::ConcurrencyQueueTimeout => "concurrency_queue_timeout",
            GatewayErrorKind::Timeout => "timeout",
            GatewayErrorKind::Cancelled => "cancelled",
            GatewayErrorKind::Internal => "internal_error",
        }
    }
}

/// Distinct values of [`GatewayErrorKind`] have distinct stable names, so parsing a
/// value's name gives that value back.
pub proof fn lemma_gateway_error_kind_names_distinct(x: GatewayErrorKind, y: GatewayErrorKind)
    ensures
        x.spec_name() == y.spec_name() ==> x == y,
{
    reveal_strlit("invalid_request");
    reveal_strlit("unsupported");
    reveal_strlit("unauthorized");
    reveal_strlit("policy_denied");
    reveal_strlit("model_not_found");
    reveal_strlit("no_available_provider");
    reveal_strlit("account_capacity_unavailable");
    reveal_strlit("provider_infrastructure_unavailable");
    reveal_strlit("rate_limited");
    reveal_strlit("upstream_unavailable");
    reveal_strlit("concurrency_queue_full");
    reveal_strlit("concurrency_queue_timeout");
    reveal_strlit("timeout");
    reveal_strlit("cancelled");
    reveal_strlit("internal_error");
    match x {
        GatewayErrorKind::InvalidRequest => match y {
            GatewayErrorKind::InvalidRequest => {},
            GatewayErrorKind::Unsupported => { assert("invalid_request"@.len() != "unsupported"@.len()); },
            GatewayErrorKind::Unauthorized => { assert("invalid_request"@.len() != "unauthorized"@.len()); },
            GatewayErrorKind::PolicyDenied => { assert("invalid_request"@.len() != "policy_denied"@.len()); },
            GatewayErrorKind::ModelNotFound => { assert("invalid_request"@[0] != "model_not_found"@[0]); },
            GatewayErrorKind::NoAvailableProvider => { assert("invalid_request"@.len() != "no_available_provider"@.len()); },
            GatewayErrorKind::AccountCapacityUnavailable => { assert("invalid_request"@.len() != "account_capacity_unavailable"@.len()); },
            GatewayErrorKind::ProviderInfrastructureUnavailable => { assert("invalid_request"@.len() != "provider_infrastructure_unavailable"@.len()); },
            GatewayErrorKind::RateLimited => { assert("invalid_request"@.len() != "rate_limited"@.len()); },
            GatewayErrorKind::UpstreamUnavailable => { assert("invalid_request"@.len() != "upstream_unavailable"@.len()); },
            GatewayErrorKind::ConcurrencyQueueFull => { assert("invalid_request"@.len() != "concurrency_queue_full"@.len()); },
            GatewayErrorKind::ConcurrencyQueueTimeout => { assert("invalid_request"@.len() != "concurrency_queue_timeout"@.len()); },
            GatewayErrorKind::Timeout => { assert("invalid_request"@.len() != "timeout"@.len()); },
            GatewayErrorKind::Cancelled => { assert("invalid_request"@.len() != "cancelled"@.len()); },
            GatewayErrorKind::Internal => { assert("invalid_request"@.len() != "internal_error"@.len()); },
        },
        GatewayErrorKind::Unsupported => match y {
            GatewayErrorKind::InvalidRequest => { assert("unsupported"@.len() != "invalid_request"@.len()); },
            GatewayErrorKind::Unsupported => {},
            GatewayErrorKind::Unauthorized => { assert("unsupported"@.len() != "unauthorized"@.len()); },
            GatewayErrorKind::PolicyDenied => { assert("unsupported"@.len() != "policy_denied"@.len()); },
            GatewayErrorKind::ModelNotFound => { assert("unsupported"@.len() != "model_not_found"@.len()); },
            GatewayErrorKind::NoAvailableProvider => { assert("unsupported"@.len() != "no_available_provider"@.len()); },
            GatewayErrorKind::AccountCapacityUnavailable => { assert("unsupported"@.len() != "account_capacity_unavailable"@.len()); },
            GatewayErrorKind::ProviderInfrastructureUnavailable => { assert("unsupported"@.len() != "provider_infrastructure_unavailable"@.len()); },
            GatewayErrorKind::RateLimited => { assert("unsupported"@.len() != "rate_limited"@.len()); },
            GatewayErrorKind::UpstreamUnavailable => { assert("unsupported"@.len() != "upstream_unavailable"@.len()); },
            GatewayErrorKind::ConcurrencyQueueFull => { assert("unsupported"@.len() != "concurrency_queue_full"@.len()); },
            GatewayErrorKind::ConcurrencyQueueTimeout => { assert("unsupported"@.len() != "concurrency_queue_timeout"@.len()); },
            GatewayErrorKind::Timeout => { assert("unsupported"@.len() != "timeout"@.len()); },
            GatewayErrorKind::Cancelled => { assert("unsupported"@.len() != "cancelled"@.len()); },
            GatewayErrorKind::Internal => { assert("unsupported"@.len() != "internal_error"@.len()); },
        },
        GatewayErrorKind::Unauthorized => match y {
            GatewayErrorKind::InvalidRequest => { assert("unauthorized"@.len() != "invalid_request"@.len()); },
            GatewayErrorKind::Unsupported => { assert("unauthorized"@.len() != "unsupported"@.len()); },
            GatewayErrorKind::Unauthorized => {},
            GatewayErrorKind::PolicyDenied => { assert("unauthorized"@.len() != "policy_denied"@.len()); },
            GatewayErrorKind::ModelNotFound => { assert("unauthorized"@.len() != "model_not_found"@.len()); },
            GatewayErrorKind::NoAvailableProvider => { assert("unauthorized"@.len() != "no_available_provider"@.len()); },
            GatewayErrorKind::AccountCapacityUnavailable => { assert("unauthorized"@.len() != "account_capacity_unavailable"@.len()); },
            GatewayErrorKind::ProviderInfrastructureUnavailable => { assert("unauthorized"@.len() != "provider_infrastructure_unavailable"@.len()); },
            GatewayErrorKind::RateLimited => { assert("unauthorized"@[0] != "rate_limited"@[0]); },
            GatewayErrorKind::UpstreamUnavailable => { assert("unauthorized"@.len() != "upstream_unavailable"@.len()); },
            GatewayErrorKind::ConcurrencyQueueFull => { assert("unauthorized"@.len() != "concurrency_queue_full"@.len()); },
            GatewayErrorKind::ConcurrencyQueueTimeout => { assert("unauthorized"@.len() != "concurrency_queue_timeout"@.len()); },
            GatewayErrorKind::Timeout => { assert("unauthorized"@.len() != "timeout"@.len()); },
            GatewayErrorKind::Cancelled => { assert("unauthorized"@.len() != "cancelled"@.len()); },
            GatewayErrorKind::Internal => { assert("unauthorized"@.len() != "internal_error"@.len()); },
        },
        GatewayErrorKind::PolicyDenied => match y {
            GatewayErrorKind::InvalidRequest => { assert("policy_denied"@.len() != "invalid_request"@.len()); },
            GatewayErrorKind::Unsupported => { assert("policy_denied"@.len() != "unsupported"@.len()); },
            GatewayErrorKind::Unauthorized => { assert("policy_denied"@.len() != "unauthorized"@.len()); },
            GatewayErrorKind::PolicyDenied => {},
            GatewayErrorKind::ModelNotFound => { assert("policy_denied"@.len() != "model_not_found"@.len()); },
            GatewayErrorKind::NoAvailableProvider => { assert("policy_denied"@.len() != "no_available_provider"@.len()); },
            GatewayErrorKind::AccountCapacityUnavailable => { assert("policy_denied"@.len() != "account_capacity_unavailable"@.len()); },
            GatewayErrorKind::ProviderInfrastructureUnavailable => { assert("policy_denied"@.len() != "provider_infrastructure_unavailable"@.len()); },
            GatewayErrorKind::RateLimited => { assert("policy_denied"@.len() != "rate_limited"@.len()); },
            GatewayErrorKind::UpstreamUnavailable => { assert("policy_denied"@.len() != "upstream_unavailable"@.len()); },
            GatewayErrorKind::ConcurrencyQueueFull => { assert("policy_denied"@.len() != "concurrency_queue_full"@.len()); },
            GatewayErrorKind::ConcurrencyQueueTimeout => { assert("policy_denied"@.len() != "concurrency_queue_timeout"@.len()); },
            GatewayErrorKind::Timeout => { assert("policy_denied"@.len() != "timeout"@.len()); },
            GatewayErrorKind::Cancelled => { assert("policy_denied"@.len() != "cancelled"@.len()); },
            GatewayErrorKind::Internal => { assert("policy_denied"@.len() != "internal_error"@.len()); },
        },
        GatewayErrorKind::ModelNotFound => match y {
            GatewayErrorKind::InvalidRequest => { assert("model_not_found"@[0] != "invalid_request"@[0]); },
            GatewayErrorKind::Unsupported => { assert("model_not_found"@.len() != "unsupported"@.len()); },
            GatewayErrorKind::Unauthorized => { assert("model_not_found"@.len() != "unauthorized"@.len()); },
            GatewayErrorKind::PolicyDenied => { assert("model_not_found"@.len() != "policy_denied"@.len()); },
            GatewayErrorKind::ModelNotFound => {},
            GatewayErrorKind::NoAvailableProvider => { assert("model_not_found"@.len() != "no_available_provider"@.len()); },
            GatewayErrorKind::AccountCapacityUnavailable => { assert("model_not_found"@.len() != "account_capacity_unavailable"@.len()); },
            GatewayErrorKind::ProviderInfrastructureUnavailable => { assert("model_not_found"@.len() != "provider_infrastructure_unavailable"@.len()); },
            GatewayErrorKind::RateLimited => { assert("model_not_found"@.len() != "rate_limited"@.len()); },
            GatewayErrorKind::UpstreamUnavailable => { assert("model_not_found"@.len() != "upstream_unavailable"@.len()); },
            GatewayErrorKind::ConcurrencyQueueFull => { assert("model_not_found"@.len() != "concurrency_queue_full"@.len()); },
            GatewayErrorKind::ConcurrencyQueueTimeout => { assert("model_not_found"@.len() != "concurrency_queue_timeout"@.len()); },
            GatewayErrorKind::Timeout => { assert("model_not_found"@.len() != "timeout"@.len()); },
            GatewayErrorKind::Cancelled => { assert("model_not_found"@.len() != "cancelled"@.len()); },
            GatewayErrorKind::Internal => { assert("model_not_found"@.len() != "internal_error"@.len()); },
        },
        GatewayErrorKind::NoAvailableProvider => match y {
            GatewayErrorKind::InvalidRequest => { assert("no_available_provider"@.len() != "invalid_request"@.len()); },
            GatewayErrorKind::Unsupported => { assert("no_available_provider"@.len() != "unsupported"@.len()); },
            GatewayErrorKind::Unauthorized => { assert("no_available_provider"@.len() != "unauthorized"@.len()); },
            GatewayErrorKind::PolicyDenied => { assert("no_available_provider"@.len() != "policy_denied"@.len()); },
            GatewayErrorKind::ModelNotFound => { assert("no_available_provider"@.len() != "model_not_found"@.len()); },
            GatewayErrorKind::NoAvailableProvider => {},
            GatewayErrorKind::AccountCapacityUnavailable => { assert("no_available_provider"@.len() != "account_capacity_unavailable"@.len()); },
            GatewayErrorKind::ProviderInfrastructureUnavailable => { assert("no_available_provider"@.len() != "provider_infrastructure_unavailable"@.len()); },
            GatewayErrorKind::RateLimited => { assert("no_available_provider"@.len() != "rate_limited"@.len()); },
            GatewayErrorKind::UpstreamUnavailable => { assert("no_available_provider"@.len() != "upstream_unavailable"@.len()); },
            GatewayErrorKind::ConcurrencyQueueFull => { assert("no_available_provider"@.len() != "concurrency_queue_full"@.len()); },
            GatewayErrorKind::ConcurrencyQueueTimeout => { assert("no_available_provider"@.len() != "concurrency_queue_timeout"@.len()); },
            GatewayErrorKind::Timeout => { assert("no_available_provider"@.len() != "timeout"@.len()); },
            GatewayErrorKind::Cancelled => { assert("no_available_provider"@.len() != "cancelled"@.len()); },
            GatewayErrorKind::Internal => { assert("no_available_provider"@.len() != "internal_error"@.len()); },
        },
        GatewayErrorKind::AccountCapacityUnavailable => match y {
            GatewayErrorKind::InvalidRequest => { assert("account_capacity_unavailable"@.len() != "invalid_request"@.len()); },
            GatewayErrorKind::Unsupported => { assert("account_capacity_unavailable"@.len() != "unsupported"@.len()); },
            GatewayErrorKind::Unauthorized => { assert("account_capacity_unavailable"@.len() != "unauthorized"@.len()); },
            GatewayErrorKind::PolicyDenied => { assert("account_capacity_unavailable"@.len() != "policy_denied"@.len()); },
            GatewayErrorKind::ModelNotFound => { assert("account_capacity_unavailable"@.len() != "model_not_found"@.len()); },
            GatewayErrorKind::NoAvailableProvider => { assert("account_capacity_unavailable"@.len() != "no_available_provider"@.len()); },
            GatewayErrorKind::AccountCapacityUnavailable => {},
            GatewayErrorKind::ProviderInfrastructureUnavailable => { assert("account_capacity_unavailable"@.len() != "provider_infrastructure_unavailable"@.len()); },
            GatewayErrorKind::RateLimited => { assert("account_capacity_unavailable"@.len() != "rate_limited"@.len()); },
            GatewayErrorKind::UpstreamUnavailable => { assert("account_capacity_unavailable"@.len() != "upstream_unavailable"@.len()); },
            GatewayErrorKind::ConcurrencyQueueFull => { assert("account_capacity_unavailable"@.len() != "concurrency_queue_full"@.len()); },
            GatewayErrorKind::ConcurrencyQueueTimeout => { assert("account_capacity_unavailable"@.len() != "concurrency_queue_timeout"@.len()); },
            GatewayErrorKind::Timeout => { assert("account_capacity_unavailable"@.len() != "timeout"@.len()); },
            GatewayErrorKind::Cancelled => { assert("account_capacity_unavailable"@.len() != "cancelled"@.len()); },
            GatewayErrorKind::Internal => { assert("account_capacity_unavailable"@.len() != "internal_error"@.len()); },
        },
        GatewayErrorKind::ProviderInfrastructureUnavailable => match y {
            GatewayErrorKind::InvalidRequest => { assert("provider_infrastructure_unavailable"@.len() != "invalid_request"@.len()); },
            GatewayErrorKind::Unsupported => { assert("provider_infrastructure_unavailable"@.len() != "unsupported"@.len()); },
            GatewayErrorKind::Unauthorized => { assert("provider_infrastructure_unavailable"@.len() != "unauthorized"@.len()); },
            GatewayErrorKind::PolicyDenied => { assert("provider_infrastructure_unavailable"@.len() != "policy_denied"@.len()); },
            GatewayErrorKind::ModelNotFound => { assert("provider_infrastructure_unavailable"@.len() != "model_not_found"@.len()); },
            GatewayErrorKind::NoAvailableProvider => { assert("provider_infrastructure_unavailable"@.len() != "no_available_provider"@.len()); },
            GatewayErrorKind::AccountCapacityUnavailable => { assert("provider_infrastructure_unavailable"@.len() != "account_capacity_unavailable"@.len()); },
            GatewayErrorKind::ProviderInfrastructureUnavailable => {},
            GatewayErrorKind::RateLimited => { assert("provider_infrastructure_unavailable"@.len() != "rate_limited"@.len()); },
            GatewayErrorKind::UpstreamUnavailable => { assert("provider_infrastructure_unavailable"@.len() != "upstream_unavailable"@.len()); },
            GatewayErrorKind::ConcurrencyQueueFull => { assert("provider_infrastructure_unavailable"@.len() != "concurrency_queue_full"@.len()); },
            GatewayErrorKind::ConcurrencyQueueTimeout => { assert("provider_infrastructure_unavailable"@.len() != "concurrency_queue_timeout"@.len()); },
            GatewayErrorKind::Timeout => { assert("provider_infrastructure_unavailable"@.len() != "timeout"@.len()); },
            GatewayErrorKind::Cancelled => { assert("provider_infrastructure_unavailable"@.len() != "cancelled"@.len()); },
            GatewayErrorKind::Internal => { assert("provider_infrastructure_unavailable"@.len() != "internal_error"@.len()); },
        },
        GatewayErrorKind::RateLimited => match y {
            GatewayErrorKind::InvalidRequest => { assert("rate_limited"@.len() != "invalid_request"@.len()); },
            GatewayErrorKind::Unsupported => { assert("rate_limited"@.len() != "unsupported"@.len()); },
            GatewayErrorKind::Unauthorized => { assert("rate_limited"@[0] != "unauthorized"@[0]); },
            GatewayErrorKind::PolicyDenied => { assert("rate_limited"@.len() != "policy_denied"@.len()); },
            GatewayErrorKind::ModelNotFound => { assert("rate_limited"@.len() != "model_not_found"@.len()); },
            GatewayErrorKind::NoAvailableProvider => { assert("rate_limited"@.len() != "no_available_provider"@.len()); },
            GatewayErrorKind::AccountCapacityUnavailable => { assert("rate_limited"@.len() != "account_capacity_unavailable"@.len()); },
            GatewayErrorKind::ProviderInfrastructureUnavailable => { assert("rate_limited"@.len() != "provider_infrastructure_unavailable"@.len()); },
            GatewayErrorKind::RateLimited => {},
            GatewayErrorKind::UpstreamUnavailable => { assert("rate_limited"@.len() != "upstream_unavailable"@.len()); },
            GatewayErrorKind::ConcurrencyQueueFull => { assert("rate_limited"@.len() != "concurrency_queue_full"@.len()); },
            GatewayErrorKind::ConcurrencyQueueTimeout => { assert("rate_limited"@.len() != "concurrency_queue_timeout"@.len()); },
            GatewayErrorKind::Timeout => { assert("rate_limited"@.len() != "timeout"@.len()); },
            GatewayErrorKind::Cancelled => { assert("rate_limited"@.len() != "cancelled"@.len()); },
            GatewayErrorKind::Internal => { assert("rate_limited"@.len() != "internal_error"@.len()); },
        },
        GatewayErrorKind::UpstreamUnavailable => match y {
            GatewayErrorKind::InvalidRequest => { assert("upstream_unavailable"@.len() != "invalid_request"@.len()); },
            GatewayErrorKind::Unsupported => { assert("upstream_unavailable"@.len() != "unsupported"@.len()); },
            GatewayErrorKind::Unauthorized => { assert("upstream_unavailable"@.len() != "unauthorized"@.len()); },
            GatewayErrorKind::PolicyDenied => { assert("upstream_unavailable"@.len() != "policy_denied"@.len()); },
            GatewayErrorKind::ModelNotFound => { assert("upstream_unavailable"@.len() != "model_not_found"@.len()); },
            GatewayErrorKind::NoAvailableProvider => { assert("upstream_unavailable"@.len() != "no_available_provider"@.len()); },
            GatewayErrorKind::AccountCapacityUnavailable => { assert("upstream_unavailable"@.len() != "account_capacity_unavailable"@.len()); },
            GatewayErrorKind::ProviderInfrastructureUnavailable => { assert("upstream_unavailable"@.len() != "provider_infrastructure_unavailable"@.len()); },
            GatewayErrorKind::RateLimited => { assert("upstream_unavailable"@.len() != "rate_limited"@.len()); },
            GatewayErrorKind::UpstreamUnavailable => {},
            GatewayErrorKind::ConcurrencyQueueFull => { assert("upstream_unavailable"@.len() != "concurrency_queue_full"@.len()); },
            GatewayErrorKind::ConcurrencyQueueTimeout => { assert("upstream_unavailable"@.len() != "concurrency_queue_timeout"@.len()); },
            GatewayErrorKind::Timeout => { assert("upstream_unavailable"@.len() != "timeout"@.len()); },
            GatewayErrorKind::Cancelled => { assert("upstream_unavailable"@.len() != "cancelled"@.len()); },
            GatewayErrorKind::Internal => { assert("upstream_unavailable"@.len() != "internal_error"@.len()); },
        },
        GatewayErrorKind::ConcurrencyQueueFull => match y {
            GatewayErrorKind::InvalidRequest => { assert("concurrency_queue_full"@.len() != "invalid_request"@.len()); },
            GatewayErrorKind::Unsupported => { assert("concurrency_queue_full"@.len() != "unsupported"@.len()); },
            GatewayErrorKind::Unauthorized => { assert("concurrency_queue_full"@.len() != "unauthorized"@.len()); },
            GatewayErrorKind::PolicyDenied => { assert("concurrency_queue_full"@.len() != "policy_denied"@.len()); },
            GatewayErrorKind::ModelNotFound => { assert("concurrency_queue_full"@.len() != "model_not_found"@.len()); },
            GatewayErrorKind::NoAvailableProvider => { assert("concurrency_queue_full"@.len() != "no_available_provider"@.len()); },
            GatewayErrorKind::AccountCapacityUnavailable => { assert("concurrency_queue_full"@.len() != "account_capacity_unavailable"@.len()); },
            GatewayErrorKind::ProviderInfrastructureUnavailable => { assert("concurrency_queue_full"@.len() != "provider_infrastructure_unavailable"@.len()); },
            GatewayErrorKind::RateLimited => { assert("concurrency_queue_full"@.len() != "rate_limited"@.len()); },
            GatewayErrorKind::UpstreamUnavailable => { assert("concurrency_queue_full"@.len() != "upstream_unavailable"@.len()); },
            GatewayErrorKind::ConcurrencyQueueFull => {},
            GatewayErrorKind::ConcurrencyQueueTimeout => { assert("concurrency_queue_full"@.len() != "concurrency_queue_timeout"@.len()); },
            GatewayErrorKind::Timeout => { assert("concurrency_queue_full"@.len() != "timeout"@.len()); },
            GatewayErrorKind::Cancelled => { assert("concurrency_queue_full"@.len() != "cancelled"@.len()); },
            GatewayErrorKind::Internal => { assert("concurrency_queue_full"@.len() != "internal_error"@.len()); },
        },
        GatewayErrorKind::ConcurrencyQueueTimeout => match y {
            GatewayErrorKind::InvalidRequest => { assert("concurrency_queue_timeout"@.len() != "invalid_request"@.len()); },
            GatewayErrorKind::Unsupported => { assert("concurrency_queue_timeout"@.len() != "unsupported"@.len()); },
            GatewayErrorKind::Unauthorized => { assert("concurrency_queue_timeout"@.len() != "unauthorized"@.len()); },
            GatewayErrorKind::PolicyDenied => { assert("concurrency_queue_timeout"@.len() != "policy_denied"@.len()); },
            GatewayErrorKind::ModelNotFound => { assert("concurrency_queue_timeout"@.len() != "model_not_found"@.len()); },
            GatewayErrorKind::NoAvailableProvider => { assert("concurrency_queue_timeout"@.len() != "no_available_provider"@.len()); },
            GatewayErrorKind::AccountCapacityUnavailable => { assert("concurrency_queue_timeout"@.len() != "account_capacity_unavailable"@.len()); },
            GatewayErrorKind::ProviderInfrastructureUnavailable => { assert("concurrency_queue_timeout"@.len() != "provider_infrastructure_unavailable"@.len()); },
            GatewayErrorKind::RateLimited => { assert("concurrency_queue_timeout"@.len() != "rate_limited"@.len()); },
            GatewayErrorKind::UpstreamUnavailable => { assert("concurrency_queue_timeout"@.len() != "upstream_unavailable"@.len()); },
            GatewayErrorKind::ConcurrencyQueueFull => { assert("concurrency_queue_timeout"@.len() != "concurrency_queue_full"@.len()); },
            GatewayErrorKind::ConcurrencyQueueTimeout => {},
            GatewayErrorKind::Timeout => { assert("concurrency_queue_timeout"@.len() != "timeout"@.len()); },
            GatewayErrorKind::Cancelled => { assert("concurrency_queue_timeout"@.len() != "cancelled"@.len()); },
            GatewayErrorKind::Internal => { assert("concurrency_queue_timeout"@.len() != "internal_error"@.len()); },
        },
        GatewayErrorKind::Timeout => match y {
            GatewayErrorKind::InvalidRequest => { assert("timeout"@.len() != "invalid_request"@.len()); },
            GatewayErrorKind::Unsupported => { assert("timeout"@.len() != "unsupported"@.len()); },
            GatewayErrorKind::Unauthorized => { assert("timeout"@.len() != "unauthorized"@.len()); },
            GatewayErrorKind::PolicyDenied => { assert("timeout"@.len() != "policy_denied"@.len()); },
            GatewayErrorKind::ModelNotFound => { assert("timeout"@.len() != "model_not_found"@.len()); },
            GatewayErrorKind::NoAvailableProvider => { assert("timeout"@.len() != "no_available_provider"@.len()); },
            GatewayErrorKind::AccountCapacityUnavailable => { assert("timeout"@.len() != "account_capacity_unavailable"@.len()); },
            GatewayErrorKind::ProviderInfrastructureUnavailable => { assert("timeout"@.len() != "provider_infrastructure_unavailable"@.len()); },
            GatewayErrorKind::RateLimited => { assert("timeout"@.len() != "rate_limited"@.len()); },
            GatewayErrorKind::UpstreamUnavailable => { assert("timeout"@.len() != "upstream_unavailable"@.len()); },
            GatewayErrorKind::ConcurrencyQueueFull => { assert("timeout"@.len() != "concurrency_queue_full"@.len()); },
            GatewayErrorKind::ConcurrencyQueueTimeout => { assert("timeout"@.len() != "concurrency_queue_timeout"@.len()); },
            GatewayErrorKind::Timeout => {},
            GatewayErrorKind::Cancelled => { assert("timeout"@.len() != "cancelled"@.len()); },
            GatewayErrorKind::Internal => { assert("timeout"@.len() != "internal_error"@.len()); },
        },
        GatewayErrorKind::Cancelled => match y {
            GatewayErrorKind::InvalidRequest => { assert("cancelled"@.len() != "invalid_request"@.len()); },
            GatewayErrorKind::Unsupported => { assert("cancelled"@.len() != "unsupported"@.len()); },
            GatewayErrorKind::Unauthorized => { assert("cancelled"@.len() != "unauthorized"@.len()); },
            GatewayErrorKind::PolicyDenied => { assert("cancelled"@.len() != "policy_denied"@.len()); },
            GatewayErrorKind::ModelNotFound => { assert("cancelled"@.len() != "model_not_found"@.len()); },
            GatewayErrorKind::NoAvailableProvider => { assert("cancelled"@.len() != "no_available_provider"@.len()); },
            GatewayErrorKind::AccountCapacityUnavailable => { assert("cancelled"@.len() != "account_capacity_unavailable"@.len()); },
            GatewayErrorKind::ProviderInfrastructureUnavailable => { assert("cancelled"@.len() != "provider_infrastructure_unavailable"@.len()); },
            GatewayErrorKind::RateLimited => { assert("cancelled"@.len() != "rate_limited"@.len()); },
            GatewayErrorKind::UpstreamUnavailable => { assert("cancelled"@.len() != "upstream_unavailable"@.len()); },
            GatewayErrorKind::ConcurrencyQueueFull => { assert("cancelled"@.len() != "concurrency_queue_full"@.len()); },
            GatewayErrorKind::ConcurrencyQueueTimeout => { assert("cancelled"@.len() != "concurrency_queue_timeout"@.len()); },
            GatewayErrorKind::Timeout => { assert("cancelled"@.len() != "timeout"@.len()); },
            GatewayErrorKind::Cancelled => {},
            GatewayErrorKind::Internal => { assert("cancelled"@.len() != "internal_error"@.len()); },
        },
        GatewayErrorKind::Internal => match y {
            GatewayErrorKind::InvalidRequest => { assert("internal_error"@.len() != "invalid_request"@.len()); },
            GatewayErrorKind::Unsupported => { assert("internal_error"@.len() != "unsupported"@.len()); },
            GatewayErrorKind::Unauthorized => { assert("internal_error"@.len() != "unauthorized"@.len()); },
            GatewayErrorKind::PolicyDenied => { assert("internal_error"@.len() != "policy_denied"@.len()); },
            GatewayErrorKind::ModelNotFound => { assert("internal_error"@.len() != "model_not_found"@.len()); },
            GatewayErrorKind::NoAvailableProvider => { assert("internal_error"@.len() != "no_available_provider"@.len()); },
            GatewayErrorKind::AccountCapacityUnavailable => { assert("internal_error"@.len() != "account_capacity_unavailable"@.len()); },
            GatewayErrorKind::ProviderInfrastructureUnavailable => { assert("internal_error"@.len() != "provider_infrastructure_unavailable"@.len()); },
            GatewayErrorKind::RateLimited => { assert("internal_error"@.len() != "rate_limited"@.len()); },
            GatewayErrorKind::UpstreamUnavailable => { assert("internal_error"@.len() != "upstream_unavailable"@.len()); },
            GatewayErrorKind::ConcurrencyQueueFull => { assert("internal_error"@.len() != "concurrency_queue_full"@.len()); },
            GatewayErrorKind::ConcurrencyQueueTimeout => { assert("internal_error"@.len() != "concurrency_queue_timeout"@.len()); },
            GatewayErrorKind::Timeout => { assert("internal_error"@.len() != "timeout"@.len()); },
            GatewayErrorKind::Cancelled => { assert("internal_error"@.len() != "cancelled"@.len()); },
            GatewayErrorKind::Internal => {},
        },
    }
}
/// The recovery meaning a provider gives to a previous-response failure.
#[derive(Debug, Clone, Copy, PartialEq, Eq, Structural, Hash)]
pub enum ContinuationFailure {
    /// Another request on the same account holds the native continuation.
    Busy,
    /// The native history is unavailable on this connection or account and a
    /// full input replay can recover it.
    HistoryUnavailable,
}

/// The recovery boundary a provider chose explicitly for a previous-response failure.
#[derive(Debug, Clone, Copy, PartialEq, Eq, Structural, Hash)]
pub enum ContinuationRecoveryDisposition {
    /// Only the same account on the same exact connection may retry.
    RetryExactConnection,
    /// Internal recovery stops; the client must start a new chain with full input.
    ClientReplayRequired,
    /// The provider proved that recovery towards the owner or another legal target is allowed.
    ProviderReplayAllowed,
}

/// The hidden recovery a provider asks for while nothing was delivered downstream.
#[derive(Debug, Clone, Copy, PartialEq, Eq, Structural, Hash)]
pub enum PreDeliveryRetry {
    /// Exclude this account and select again by the normal policy.
    AccountRotation,
    /// Pin this account and retry the current transport.
    SameAccountTransportRetry {
        /// The provider-owned retry index, counting from 1.
        retry_index: u32,
        /// The backoff before the next transport attempt.
        delay: TimeSpan,
    },
    /// Pin this account and switch to the provider's fallback transport.
    SameAccountTransportFallback,
}

/// An upstream error's structured message, code and type, kept only to be
/// shown through the original client protocol.
#[derive(Clone, PartialEq, Eq)]
pub struct ClientVisibleUpstreamError {
    message: String,
    code: Option<OpaqueUpstreamValue>,
    error_type: Option<OpaqueUpstreamValue>,
}

impl ClientVisibleUpstreamError {
    pub closed spec fn spec_message(&self) -> Seq<char> {
        self.message@
    }

    pub closed spec fn spec_code(&self) -> Option<Seq<char>> {
        match self.code {
            Some(v) => Some(v@),
            None => None,
        }
    }

    pub closed spec fn spec_error_type(&self) -> Option<Seq<char>> {
        match self.error_type {
            Some(v) => Some(v@),
            None => None,
        }
    }

    /// Keeps the upstream `message`, `code` and `type` as they were.
    pub fn new(message: String, code: Option<String>, error_type: Option<String>) -> (r: ClientVisibleUpstreamError)
        ensures
            r.spec_message() == message@,
            r.spec_code() == (match code { Some(c) => Some(c@), None => None::<Seq<char>> }),
            r.spec_error_type() == (match error_type { Some(t) => Some(t@), None => None::<Seq<char>> }),
    {
        let code = match code {
            Some(c) => Some(OpaqueUpstreamValue::new(c)),
            None => None,
        };
        let error_type = match error_type {
            Some(t) => Some(OpaqueUpstreamValue::new(t)),
            None => None,
        };
        ClientVisibleUpstreamError { message, code, error_type }
    }

    pub fn message(&self) -> (r: &str)
        ensures
            r@ == self.spec_message(),
    {
        self.message.as_str()
    }

    pub fn code(&self) -> (r: Option<&str>)
        ensures
            r is Some == self.spec_code() is Some,
            r is Some ==> r->0@ == self.spec_code()->0,
    {
        match &self.code {
            Some(v) => Some(v.as_str()),
            None => None,
        }
    }

    pub fn error_type(&self) -> (r: Option<&str>)
        ensures
            r is Some == self.spec_error_type() is Some,
            r is Some ==> r->0@ == self.spec_error_type()->0,
    {
        match &self.error_type {
            Some(v) => Some(v.as_str()),
            None => None,
        }
    }

    pub(crate) fn duplicate(&self) -> (r: ClientVisibleUpstreamError)
        ensures
            r == *self,
    {
        let code = match &self.code {
            Some(v) => Some(v.duplicate()),
            None => None,
        };
        let error_type = match &self.error_type {
            Some(v) => Some(v.duplicate()),
            None => None,
        };
        ClientVisibleUpstreamError { message: self.message.clone(), code, error_type }
    }
}

/// A provider summary classified as safe to persist and show.
#[derive(Clone, PartialEq, Eq)]
pub struct ProviderDiagnostic(String);

impl View for ProviderDiagnostic {
    type V = Seq<char>;

    closed spec fn view(&self) -> Seq<char> {
        self.0@
    }
}

impl ProviderDiagnostic {
    pub fn new(message: String) -> (r: ProviderDiagnostic)
        ensures
            r@ == message@,
    {
        ProviderDiagnostic(message)
    }

    pub fn as_str(&self) -> (r: &str)
        ensures
            r@ == self@,
    {
        self.0.as_str()
    }

    pub(crate) fn duplicate(&self) -> (r: ProviderDiagnostic)
        ensures
            r == *self,
    {
        ProviderDiagnostic(self.0.clone())
    }
}

/// An upstream error body shown as it was in operator error details.
#[derive(Clone, PartialEq, Eq)]
pub struct RawUpstreamError(String);

impl View for RawUpstreamError {
    type V = Seq<char>;

    closed spec fn view(&self) -> Seq<char> {
        self.0@
    }
}

impl RawUpstreamError {
    pub fn new(value: String) -> (r: RawUpstreamError)
        ensures
            r@ == value@,
    {
        RawUpstreamError(value)
    }

    pub(crate) fn duplicate(&self) -> (r: RawUpstreamError)
        ensures
            r == *self,
    {
        RawUpstreamError(self.0.clone())
    }

    pub fn as_str(&self) -> (r: &str)
        ensures
            r@ == self@,
    {
        self.0.as_str()
    }
}

/// A low-cardinality observation of an upstream connection that ended.
#[derive(Debug, Clone, PartialEq, Eq)]
pub struct ProviderConnectionObservation {
    connection_id: String,
    exit_reason: String,
    age_ms: u64,
    idle_ms: u64,
}

impl ProviderConnectionObservation {
    pub closed spec fn spec_connection_id(&self) -> Seq<char> {
        self.connection_id@
    }

    pub closed spec fn spec_exit_reason(&self) -> Seq<char> {
        self.exit_reason@
    }

    pub closed spec fn spec_age_ms(&self) -> u64 {
        self.age_ms
    }

    pub closed spec fn spec_idle_ms(&self) -> u64 {
        self.idle_ms
    }

    pub fn new(connection_id: String, exit_reason: String, age_ms: u64, idle_ms: u64) -> (r: ProviderConnectionObservation)
        ensures
            r.spec_connection_id() == connection_id@,
            r.spec_exit_reason() == exit_reason@,
            r.spec_age_ms() == age_ms,
            r.spec_idle_ms() == idle_ms,
    {
        ProviderConnectionObservation { connection_id, exit_reason, age_ms, idle_ms }
    }

    pub(crate) fn duplicate(&self) -> (r: ProviderConnectionObservation)
        ensures
            r == *self,
    {
        ProviderConnectionObservation {
            connection_id: self.connection_id.clone(),
            exit_reason: self.exit_reason.clone(),
            age_ms: self.age_ms,
            idle_ms: self.idle_ms,
        }
    }

    pub fn connection_id(&self) -> (r: &str)
        ensures
            r@ == self.spec_connection_id(),
    {
        self.connection_id.as_str()
    }

    pub fn exit_reason(&self) -> (r: &str)
        ensures
            r@ == self.spec_exit_reason(),
    {
        self.exit_reason.as_str()
    }

    pub fn age_ms(&self) -> (r: u64)
        ensures
            r == self.spec_age_ms(),
    {
        self.age_ms
    }

    pub fn idle_ms(&self) -> (r: u64)
        ensures
            r == self.spec_idle_ms(),
    {
        self.idle_ms
    }
}

/// The stable error of one provider call.
///
/// Stable diagnostic fields never take raw response bodies; adapters that
/// captured secret context only record that it was redacted.
pub struct ProviderError {
    kind: ProviderErrorKind,
    send_state: UpstreamSendState,
    upstream_status: Option<u16>,
    upstream_code: Option<OpaqueUpstreamValue>,
    upstream_request_id: Option<OpaqueUpstreamValue>,
    retry_after: Option<TimeSpan>,
    continuation_failure: Option<ContinuationFailure>,
    continuation_recovery_disposition: Option<ContinuationRecoveryDisposition>,
    continuation_unavailable_reason: Option<&'static str>,
    connection_observation: Option<ProviderConnectionObservation>,
    replay_safe: bool,
    pre_delivery_retry: Option<PreDeliveryRetry>,
    credential_recovery_required: bool,
    retry_same_account: bool,
    sensitive_context_redacted: bool,
    diagnostic: Option<ProviderDiagnostic>,
    raw_upstream_error: Option<RawUpstreamError>,
    client_visible_upstream_error: Option<ClientVisibleUpstreamError>,
}

impl ProviderError {
    pub closed spec fn spec_kind(&self) -> ProviderErrorKind {
        self.kind
    }

    pub closed spec fn spec_send_state(&self) -> UpstreamSendState {
        self.send_state
    }

    pub closed spec fn spec_upstream_status(&self) -> Option<u16> {
        self.upstream_status
    }

    pub closed spec fn spec_upstream_code(&self) -> Option<OpaqueUpstreamValue> {
        self.upstream_code
    }

    pub closed spec fn spec_upstream_request_id(&self) -> Option<OpaqueUpstreamValue> {
        self.upstream_request_id
    }

    pub closed spec fn spec_retry_after(&self) -> Option<TimeSpan> {
        self.retry_after
    }

    pub closed spec fn spec_continuation_failure(&self) -> Option<ContinuationFailure> {
        self.continuation_failure
    }

    pub closed spec fn spec_continuation_recovery_disposition(&self) -> Option<ContinuationRecoveryDisposition> {
        self.continuation_recovery_disposition
    }

    pub closed spec fn spec_continuation_unavailable_reason(&self) -> Option<&'static str> {
        self.continuation_unavailable_reason
    }

    pub closed spec fn spec_connection_observation(&self) -> Option<ProviderConnectionObservation> {
        self.connection_observation
    }

    pub closed spec fn spec_replay_safe(&self) -> bool {
        self.replay_safe
    }

    pub closed spec fn spec_pre_delivery_retry(&self) -> Option<PreDeliveryRetry> {
        self.pre_delivery_retry
    }

    pub closed spec fn spec_credential_recovery_required(&self) -> bool {
        self.credential_recovery_required
    }

    pub closed spec fn spec_retry_same_account(&self) -> bool {
        self.retry_same_account
    }

    pub closed spec fn spec_sensitive_context_redacted(&self) -> bool {
        self.sensitive_context_redacted
    }

    pub closed spec fn spec_diagnostic(&self) -> Option<ProviderDiagnostic> {
        self.diagnostic
    }

    pub closed spec fn spec_raw_upstream_error(&self) -> Option<RawUpstreamError> {
        self.raw_upstream_error
    }

    pub closed spec fn spec_client_visible_upstream_error(&self) -> Option<ClientVisibleUpstreamError> {
        self.client_visible_upstream_error
    }

    pub fn new(kind: ProviderErrorKind, send_state: UpstreamSendState) -> (r: ProviderError)
        ensures
            r.spec_kind() == kind,
            r.spec_send_state() == send_state,
            r.spec_upstream_status() is None,
            r.spec_upstream_code() is None,
            r.spec_upstream_request_id() is None,
            r.spec_retry_after() is None,
            r.spec_continuation_failure() is None,
            r.spec_continuation_recovery_disposition() is None,
            r.spec_continuation_unavailable_reason() is None,
            r.spec_connection_observation() is None,
            !r.spec_replay_safe(),
            r.spec_pre_delivery_retry() is None,
            !r.spec_credential_recovery_required(),
            !r.spec_retry_same_account(),
            !r.spec_sensitive_context_redacted(),
            r.spec_diagnostic() is None,
            r.spec_raw_upstream_error() is None,
            r.spec_client_visible_upstream_error() is None,
    {
        ProviderError {
            kind,
            send_state,
            upstream_status: None,
            upstream_code: None,
            upstream_request_id: None,
            retry_after: None,
            continuation_failure: None,
            continuation_recovery_disposition: None,
            continuation_unavailable_reason: None,
            connection_observation: None,
            replay_safe: false,
            pre_delivery_retry: None,
            credential_recovery_required: false,
            retry_same_account: false,
            sensitive_context_redacted: false,
            diagnostic: None,
            raw_upstream_error: None,
            client_visible_upstream_error: None,
        }
    }

    /// Attaches the upstream status code when it is a valid HTTP status (100..=599).
    pub fn with_status(self, status: u16) -> (r: ProviderError)
        ensures
            (100 <= status <= 599) ==> r.spec_upstream_status() == Some(status),
            !(100 <= status <= 599) ==> r.spec_upstream_status() == self.spec_upstream_status(),
            r.spec_kind() == self.spec_kind(),
            r.spec_send_state() == self.spec_send_state(),
            r.spec_upstream_code() == self.spec_upstream_code(),
            r.spec_upstream_request_id() == self.spec_upstream_request_id(),
            r.spec_retry_after() == self.spec_retry_after(),
            r.spec_continuation_failure() == self.spec_continuation_failure(),
            r.spec_continuation_recovery_disposition() == self.spec_continuation_recovery_disposition(),
            r.spec_continuation_unavailable_reason() == self.spec_continuation_unavailable_reason(),
            r.spec_connection_observation() == self.spec_connection_observation(),
            r.spec_replay_safe() == self.spec_replay_safe(),
            r.spec_pre_delivery_retry() == self.spec_pre_delivery_retry(),
            r.spec_credential_recovery_required() == self.spec_credential_recovery_required(),
            r.spec_retry_same_account() == self.spec_retry_same_account(),
            r.spec_sensitive_context_redacted() == self.spec_sensitive_context_redacted(),
            r.spec_diagnostic() == self.spec_diagnostic(),
            r.spec_raw_upstream_error() == self.spec_raw_upstream_error(),
            r.spec_client_visible_upstream_error() == self.spec_client_visible_upstream_error(),
    {
        let mut e = self;
        if 100 <= status && status <= 599 {
            e.upstream_status = Some(status);
        }
        e
    }

    /// Attaches an upstream error code the adapter classified as safe.
    pub fn with_upstream_code(self, code: OpaqueUpstreamValue) -> (r: ProviderError)
        ensures
            r.spec_upstream_code() == Some(code),
            r.spec_kind() == self.spec_kind(),
            r.spec_send_state() == self.spec_send_state(),
            r.spec_upstream_status() == self.spec_upstream_status(),
            r.spec_upstream_request_id() == self.spec_upstream_request_id(),
            r.spec_retry_after() == self.spec_retry_after(),
            r.spec_continuation_failure() == self.spec_continuation_failure(),
            r.spec_continuation_recovery_disposition() == self.spec_continuation_recovery_disposition(),
            r.spec_continuation_unavailable_reason() == self.spec_continuation_unavailable_reason(),
            r.spec_connection_observation() == self.spec_connection_observation(),
            r.spec_replay_safe() == self.spec_replay_safe(),
            r.spec_pre_delivery_retry() == self.spec_pre_delivery_retry(),
            r.spec_credential_recovery_required() == self.spec_credential_recovery_required(),
            r.spec_retry_same_account() == self.spec_retry_same_account(),
            r.spec_sensitive_context_redacted() == self.spec_sensitive_context_redacted(),
            r.spec_diagnostic() == self.spec_diagnostic(),
            r.spec_raw_upstream_error() == self.spec_raw_upstream_error(),
            r.spec_client_visible_upstream_error() == self.spec_client_visible_upstream_error(),
    {
        let mut e = self;
        e.upstream_code = Some(code);
        e
    }

    /// Attaches a non-bearer upstream request id.
    pub fn with_upstream_request_id(self, request_id: OpaqueUpstreamValue) -> (r: ProviderError)
        ensures
            r.spec_upstream_request_id() == Some(request_id),
            r.spec_kind() == self.spec_kind(),
            r.spec_send_state() == self.spec_send_state(),
            r.spec_upstream_status() == self.spec_upstream_status(),
            r.spec_upstream_code() == self.spec_upstream_code(),
            r.spec_retry_after() == self.spec_retry_after(),
            r.spec_continuation_failure() == self.spec_continuation_failure(),
            r.spec_continuation_recovery_disposition() == self.spec_continuation_recovery_disposition(),
            r.spec_continuation_unavailable_reason() == self.spec_continuation_unavailable_reason(),
            r.spec_connection_observation() == self.spec_connection_observation(),
            r.spec_replay_safe() == self.spec_replay_safe(),
            r.spec_pre_delivery_retry() == self.spec_pre_delivery_retry(),
            r.spec_credential_recovery_required() == self.spec_credential_recovery_required(),
            r.spec_retry_same_account() == self.spec_retry_same_account(),
            r.spec_sensitive_context_redacted() == self.spec_sensitive_context_redacted(),
            r.spec_diagnostic() == self.spec_diagnostic(),
            r.spec_raw_upstream_error() == self.spec_raw_upstream_error(),
            r.spec_client_visible_upstream_error() == self.spec_client_visible_upstream_error(),
    {
        let mut e = self;
        e.upstream_request_id = Some(request_id);
        e
    }

    /// Attaches the provider's suggested cooldown.
    pub fn with_retry_after(self, retry_after: TimeSpan) -> (r: ProviderError)
        ensures
            r.spec_retry_after() == Some(retry_after),
            r.spec_kind() == self.spec_kind(),
            r.spec_send_state() == self.spec_send_state(),
            r.spec_upstream_status() == self.spec_upstream_status(),
            r.spec_upstream_code() == self.spec_upstream_code(),
            r.spec_upstream_request_id() == self.spec_upstream_request_id(),
            r.spec_continuation_failure() == self.spec_continuation_failure(),
            r.spec_continuation_recovery_disposition() == self.spec_continuation_recovery_disposition(),
            r.spec_continuation_unavailable_reason() == self.spec_continuation_unavailable_reason(),
            r.spec_connection_observation() == self.spec_connection_observation(),
            r.spec_replay_safe() == self.spec_replay_safe(),
            r.spec_pre_delivery_retry() == self.spec_pre_delivery_retry(),
            r.spec_credential_recovery_required() == self.spec_credential_recovery_required(),
            r.spec_retry_same_account() == self.spec_retry_same_account(),
            r.spec_sensitive_context_redacted() == self.spec_sensitive_context_redacted(),
            r.spec_diagnostic() == self.spec_diagnostic(),
            r.spec_raw_upstream_error() == self.spec_raw_upstream_error(),
            r.spec_client_visible_upstream_error() == self.spec_client_visible_upstream_error(),
    {
        let mut e = self;
        e.retry_after = Some(retry_after);
        e
    }

    /// Attaches the previous-response recovery semantics.
    pub fn with_continuation_failure(self, failure: ContinuationFailure) -> (r: ProviderError)
        ensures
            r.spec_continuation_failure() == Some(failure),
            r.spec_kind() == self.spec_kind(),
            r.spec_send_state() == self.spec_send_state(),
            r.spec_upstream_status() == self.spec_upstream_status(),
            r.spec_upstream_code() == self.spec_upstream_code(),
            r.spec_upstream_request_id() == self.spec_upstream_request_id(),
            r.spec_retry_after() == self.spec_retry_after(),
            r.spec_continuation_recovery_disposition() == self.spec_continuation_recovery_disposition(),
            r.spec_continuation_unavailable_reason() == self.spec_continuation_unavailable_reason(),
            r.spec_connection_observation() == self.spec_connection_observation(),
            r.spec_replay_safe() == self.spec_replay_safe(),
            r.spec_pre_delivery_retry() == self.spec_pre_delivery_retry(),
            r.spec_credential_recovery_required() == self.spec_credential_recovery_required(),
            r.spec_retry_same_account() == self.spec_retry_same_account(),
            r.spec_sensitive_context_redacted() == self.spec_sensitive_context_redacted(),
            r.spec_diagnostic() == self.spec_diagnostic(),
            r.spec_raw_upstream_error() == self.spec_raw_upstream_error(),
            r.spec_client_visible_upstream_error() == self.spec_client_visible_upstream_error(),
    {
        let mut e = self;
        e.continuation_failure = Some(failure);
        e
    }

    /// Attaches the recovery boundary the provider chose.
    pub fn with_continuation_recovery_disposition(self, disposition: ContinuationRecoveryDisposition) -> (r: ProviderError)
        ensures
            r.spec_continuation_recovery_disposition() == Some(disposition),
            r.spec_kind() == self.spec_kind(),
            r.spec_send_state() == self.spec_send_state(),
            r.spec_upstream_status() == self.spec_upstream_status(),
            r.spec_upstream_code() == self.spec_upstream_code(),
            r.spec_upstream_request_id() == self.spec_upstream_request_id(),
            r.spec_retry_after() == self.spec_retry_after(),
            r.spec_continuation_failure() == self.spec_continuation_failure(),
            r.spec_continuation_unavailable_reason() == self.spec_continuation_unavailable_reason(),
            r.spec_connection_observation() == self.spec_connection_observation(),
            r.spec_replay_safe() == self.spec_replay_safe(),
            r.spec_pre_delivery_retry() == self.spec_pre_delivery_retry(),
            r.spec_credential_recovery_required() == self.spec_credential_recovery_required(),
            r.spec_retry_same_account() == self.spec_retry_same_account(),
            r.spec_sensitive_context_redacted() == self.spec_sensitive_context_redacted(),
            r.spec_diagnostic() == self.spec_diagnostic(),
            r.spec_raw_upstream_error() == self.spec_raw_upstream_error(),
            r.spec_client_visible_upstream_error() == self.spec_client_visible_upstream_error(),
    {
        let mut e = self;
        e.continuation_recovery_disposition = Some(disposition);
        e
    }

    /// Attaches a low-cardinality reason why the continuation is unavailable.
    pub fn with_continuation_unavailable_reason(self, reason: &'static str) -> (r: ProviderError)
        ensures
            r.spec_continuation_unavailable_reason() == Some(reason),
            r.spec_kind() == self.spec_kind(),
            r.spec_send_state() == self.spec_send_state(),
            r.spec_upstream_status() == self.spec_upstream_status(),
            r.spec_upstream_code() == self.spec_upstream_code(),
            r.spec_upstream_request_id() == self.spec_upstream_request_id(),
            r.spec_retry_after() == self.spec_retry_after(),
            r.spec_continuation_failure() == self.spec_continuation_failure(),
            r.spec_continuation_recovery_disposition() == self.spec_continuation_recovery_disposition(),
            r.spec_connection_observation() == self.spec_connection_observation(),
            r.spec_replay_safe() == self.spec_replay_safe(),
            r.spec_pre_delivery_retry() == self.spec_pre_delivery_retry(),
            r.spec_credential_recovery_required() == self.spec_credential_recovery_required(),
            r.spec_retry_same_account() == self.spec_retry_same_account(),
            r.spec_sensitive_context_redacted() == self.spec_sensitive_context_redacted(),
            r.spec_diagnostic() == self.spec_diagnostic(),
            r.spec_raw_upstream_error() == self.spec_raw_upstream_error(),
            r.spec_client_visible_upstream_error() == self.spec_client_visible_upstream_error(),
    {
        let mut e = self;
        e.continuation_unavailable_reason = Some(reason);
        e
    }

    /// Attaches the end-of-connection observation.
    pub fn with_connection_observation(self, observation: ProviderConnectionObservation) -> (r: ProviderError)
        ensures
            r.spec_connection_observation() == Some(observation),
            r.spec_kind() == self.spec_kind(),
            r.spec_send_state() == self.spec_send_state(),
            r.spec_upstream_status() == self.spec_upstream_status(),
            r.spec_upstream_code() == self.spec_upstream_code(),
            r.spec_upstream_request_id() == self.spec_upstream_request_id(),
            r.spec_retry_after() == self.spec_retry_after(),
            r.spec_continuation_failure() == self.spec_continuation_failure(),
            r.spec_continuation_recovery_disposition() == self.spec_continuation_recovery_disposition(),
            r.spec_continuation_unavailable_reason() == self.spec_continuation_unavailable_reason(),
            r.spec_replay_safe() == self.spec_replay_safe(),
            r.spec_pre_delivery_retry() == self.spec_pre_delivery_retry(),
            r.spec_credential_recovery_required() == self.spec_credential_recovery_required(),
            r.spec_retry_same_account() == self.spec_retry_same_account(),
            r.spec_sensitive_context_redacted() == self.spec_sensitive_context_redacted(),
            r.spec_diagnostic() == self.spec_diagnostic(),
            r.spec_raw_upstream_error() == self.spec_raw_upstream_error(),
            r.spec_client_visible_upstream_error() == self.spec_client_visible_upstream_error(),
    {
        let mut e = self;
        e.connection_observation = Some(observation);
        e
    }

    /// Marks the failure as provably safe to replay before downstream commit.
    pub fn with_replay_safe(self) -> (r: ProviderError)
        ensures
            r.spec_replay_safe(),
            r.spec_kind() == self.spec_kind(),
            r.spec_send_state() == self.spec_send_state(),
            r.spec_upstream_status() == self.spec_upstream_status(),
            r.spec_upstream_code() == self.spec_upstream_code(),
            r.spec_upstream_request_id() == self.spec_upstream_request_id(),
            r.spec_retry_after() == self.spec_retry_after(),
            r.spec_continuation_failure() == self.spec_continuation_failure(),
            r.spec_continuation_recovery_disposition() == self.spec_continuation_recovery_disposition(),
            r.spec_continuation_unavailable_reason() == self.spec_continuation_unavailable_reason(),
            r.spec_connection_observation() == self.spec_connection_observation(),
            r.spec_pre_delivery_retry() == self.spec_pre_delivery_retry(),
            r.spec_credential_recovery_required() == self.spec_credential_recovery_required(),
            r.spec_retry_same_account() == self.spec_retry_same_account(),
            r.spec_sensitive_context_redacted() == self.spec_sensitive_context_redacted(),
            r.spec_diagnostic() == self.spec_diagnostic(),
            r.spec_raw_upstream_error() == self.spec_raw_upstream_error(),
            r.spec_client_visible_upstream_error() == self.spec_client_visible_upstream_error(),
    {
        let mut e = self;
        e.replay_safe = true;
        e
    }

    /// Allows one budgeted account rotation before the first client event.
    pub fn with_pre_delivery_retry(self) -> (r: ProviderError)
        ensures
            r.spec_pre_delivery_retry() == Some(PreDeliveryRetry::AccountRotation),
            r.spec_kind() == self.spec_kind(),
            r.spec_send_state() == self.spec_send_state(),
            r.spec_upstream_status() == self.spec_upstream_status(),
            r.spec_upstream_code() == self.spec_upstream_code(),
            r.spec_upstream_request_id() == self.spec_upstream_request_id(),
            r.spec_retry_after() == self.spec_retry_after(),
            r.spec_continuation_failure() == self.spec_continuation_failure(),
            r.spec_continuation_recovery_disposition() == self.spec_continuation_recovery_disposition(),
            r.spec_continuation_unavailable_reason() == self.spec_continuation_unavailable_reason(),
            r.spec_connection_observation() == self.spec_connection_observation(),
            r.spec_replay_safe() == self.spec_replay_safe(),
            r.spec_credential_recovery_required() == self.spec_credential_recovery_required(),
            r.spec_retry_same_account() == self.spec_retry_same_account(),
            r.spec_sensitive_context_redacted() == self.spec_sensitive_context_redacted(),
            r.spec_diagnostic() == self.spec_diagnostic(),
            r.spec_raw_upstream_error() == self.spec_raw_upstream_error(),
            r.spec_client_visible_upstream_error() == self.spec_client_visible_upstream_error(),
    {
        let mut e = self;
        e.pre_delivery_retry = Some(PreDeliveryRetry::AccountRotation);
        e
    }

    /// Pins the account and asks for the provider's fallback transport before the first client event.
    pub fn with_pre_delivery_transport_fallback(self) -> (r: ProviderError)
        ensures
            r.spec_pre_delivery_retry() == Some(PreDeliveryRetry::SameAccountTransportFallback),
            r.spec_kind() == self.spec_kind(),
            r.spec_send_state() == self.spec_send_state(),
            r.spec_upstream_status() == self.spec_upstream_status(),
            r.spec_upstream_code() == self.spec_upstream_code(),
            r.spec_upstream_request_id() == self.spec_upstream_request_id(),
            r.spec_retry_after() == self.spec_retry_after(),
            r.spec_continuation_failure() == self.spec_continuation_failure(),
            r.spec_continuation_recovery_disposition() == self.spec_continuation_recovery_disposition(),
            r.spec_continuation_unavailable_reason() == self.spec_continuation_unavailable_reason(),
            r.spec_connection_observation() == self.spec_connection_observation(),
            r.spec_replay_safe() == self.spec_replay_safe(),
            r.spec_credential_recovery_required() == self.spec_credential_recovery_required(),
            r.spec_retry_same_account() == self.spec_retry_same_account(),
            r.spec_sensitive_context_redacted() == self.spec_sensitive_context_redacted(),
            r.spec_diagnostic() == self.spec_diagnostic(),
            r.spec_raw_upstream_error() == self.spec_raw_upstream_error(),
            r.spec_client_visible_upstream_error() == self.spec_client_visible_upstream_error(),
    {
        let mut e = self;
        e.pre_delivery_retry = Some(PreDeliveryRetry::SameAccountTransportFallback);
        e
    }

    /// Pins the account and retries the current transport with the provider's index and backoff.
    pub fn with_pre_delivery_transport_retry(self, retry_index: u32, delay: TimeSpan) -> (r: ProviderError)
        requires
            retry_index > 0,
        ensures
            r.spec_pre_delivery_retry() == Some(PreDeliveryRetry::SameAccountTransportRetry { retry_index, delay }),
            r.spec_kind() == self.spec_kind(),
            r.spec_send_state() == self.spec_send_state(),
            r.spec_upstream_status() == self.spec_upstream_status(),
            r.spec_upstream_code() == self.spec_upstream_code(),
            r.spec_upstream_request_id() == self.spec_upstream_request_id(),
            r.spec_retry_after() == self.spec_retry_after(),
            r.spec_continuation_failure() == self.spec_continuation_failure(),
            r.spec_continuation_recovery_disposition() == self.spec_continuation_recovery_disposition(),
            r.spec_continuation_unavailable_reason() == self.spec_continuation_unavailable_reason(),
            r.spec_connection_observation() == self.spec_connection_observation(),
            r.spec_replay_safe() == self.spec_replay_safe(),
            r.spec_credential_recovery_required() == self.spec_credential_recovery_required(),
            r.spec_retry_same_account() == self.spec_retry_same_account(),
            r.spec_sensitive_context_redacted() == self.spec_sensitive_context_redacted(),
            r.spec_diagnostic() == self.spec_diagnostic(),
            r.spec_raw_upstream_error() == self.spec_raw_upstream_error(),
            r.spec_client_visible_upstream_error() == self.spec_client_visible_upstream_error(),
    {
        let mut e = self;
        e.pre_delivery_retry = Some(PreDeliveryRetry::SameAccountTransportRetry { retry_index, delay });
        e
    }

    /// Asks for one replay on the same account once its credential recovered.
    pub fn with_same_account_retry(self) -> (r: ProviderError)
        ensures
            r.spec_retry_same_account(),
            r.spec_kind() == self.spec_kind(),
            r.spec_send_state() == self.spec_send_state(),
            r.spec_upstream_status() == self.spec_upstream_status(),
            r.spec_upstream_code() == self.spec_upstream_code(),
            r.spec_upstream_request_id() == self.spec_upstream_request_id(),
            r.spec_retry_after() == self.spec_retry_after(),
            r.spec_continuation_failure() == self.spec_continuation_failure(),
            r.spec_continuation_recovery_disposition() == self.spec_continuation_recovery_disposition(),
            r.spec_continuation_unavailable_reason() == self.spec_continuation_unavailable_reason(),
            r.spec_connection_observation() == self.spec_connection_observation(),
            r.spec_replay_safe() == self.spec_replay_safe(),
            r.spec_pre_delivery_retry() == self.spec_pre_delivery_retry(),
            r.spec_credential_recovery_required() == self.spec_credential_recovery_required(),
            r.spec_sensitive_context_redacted() == self.spec_sensitive_context_redacted(),
            r.spec_diagnostic() == self.spec_diagnostic(),
            r.spec_raw_upstream_error() == self.spec_raw_upstream_error(),
            r.spec_client_visible_upstream_error() == self.spec_client_visible_upstream_error(),
    {
        let mut e = self;
        e.retry_same_account = true;
        e
    }

    /// Marks an explicit upstream refusal that should trigger OAuth recovery first.
    pub fn with_credential_recovery(self) -> (r: ProviderError)
        ensures
            r.spec_credential_recovery_required(),
            r.spec_kind() == self.spec_kind(),
            r.spec_send_state() == self.spec_send_state(),
            r.spec_upstream_status() == self.spec_upstream_status(),
            r.spec_upstream_code() == self.spec_upstream_code(),
            r.spec_upstream_request_id() == self.spec_upstream_request_id(),
            r.spec_retry_after() == self.spec_retry_after(),
            r.spec_continuation_failure() == self.spec_continuation_failure(),
            r.spec_continuation_recovery_disposition() == self.spec_continuation_recovery_disposition(),
            r.spec_continuation_unavailable_reason() == self.spec_continuation_unavailable_reason(),
            r.spec_connection_observation() == self.spec_connection_observation(),
            r.spec_replay_safe() == self.spec_replay_safe(),
            r.spec_pre_delivery_retry() == self.spec_pre_delivery_retry(),
            r.spec_retry_same_account() == self.spec_retry_same_account(),
            r.spec_sensitive_context_redacted() == self.spec_sensitive_context_redacted(),
            r.spec_diagnostic() == self.spec_diagnostic(),
            r.spec_raw_upstream_error() == self.spec_raw_upstream_error(),
            r.spec_client_visible_upstream_error() == self.spec_client_visible_upstream_error(),
    {
        let mut e = self;
        e.credential_recovery_required = true;
        e
    }

    /// Attaches a structured upstream error shown only in the original client protocol.
    pub fn with_client_visible_upstream_error(self, error: ClientVisibleUpstreamError) -> (r: ProviderError)
        ensures
            r.spec_client_visible_upstream_error() == Some(error),
            r.spec_kind() == self.spec_kind(),
            r.spec_send_state() == self.spec_send_state(),
            r.spec_upstream_status() == self.spec_upstream_status(),
            r.spec_upstream_code() == self.spec_upstream_code(),
            r.spec_upstream_request_id() == self.spec_upstream_request_id(),
            r.spec_retry_after() == self.spec_retry_after(),
            r.spec_continuation_failure() == self.spec_continuation_failure(),
            r.spec_continuation_recovery_disposition() == self.spec_continuation_recovery_disposition(),
            r.spec_continuation_unavailable_reason() == self.spec_continuation_unavailable_reason(),
            r.spec_connection_observation() == self.spec_connection_observation(),
            r.spec_replay_safe() == self.spec_replay_safe(),
            r.spec_pre_delivery_retry() == self.spec_pre_delivery_retry(),
            r.spec_credential_recovery_required() == self.spec_credential_recovery_required(),
            r.spec_retry_same_account() == self.spec_retry_same_account(),
            r.spec_sensitive_context_redacted() == self.spec_sensitive_context_redacted(),
            r.spec_diagnostic() == self.spec_diagnostic(),
            r.spec_raw_upstream_error() == self.spec_raw_upstream_error(),
    {
        let mut e = self;
        e.client_visible_upstream_error = Some(error);
        e
    }

    /// Drops sensitive context and records only that redaction happened.
    pub fn redact_sensitive_context(self, _sensitive_context: &str) -> (r: ProviderError)
        ensures
            r.spec_sensitive_context_redacted(),
            r.spec_kind() == self.spec_kind(),
            r.spec_send_state() == self.spec_send_state(),
            r.spec_upstream_status() == self.spec_upstream_status(),
            r.spec_upstream_code() == self.spec_upstream_code(),
            r.spec_upstream_request_id() == self.spec_upstream_request_id(),
            r.spec_retry_after() == self.spec_retry_after(),
            r.spec_continuation_failure() == self.spec_continuation_failure(),
            r.spec_continuation_recovery_disposition() == self.spec_continuation_recovery_disposition(),
            r.spec_continuation_unavailable_reason() == self.spec_continuation_unavailable_reason(),
            r.spec_connection_observation() == self.spec_connection_observation(),
            r.spec_replay_safe() == self.spec_replay_safe(),
            r.spec_pre_delivery_retry() == self.spec_pre_delivery_retry(),
            r.spec_credential_recovery_required() == self.spec_credential_recovery_required(),
            r.spec_retry_same_account() == self.spec_retry_same_account(),
            r.spec_diagnostic() == self.spec_diagnostic(),
            r.spec_raw_upstream_error() == self.spec_raw_upstream_error(),
            r.spec_client_visible_upstream_error() == self.spec_client_visible_upstream_error(),
    {
        let mut e = self;
        e.sensitive_context_redacted = true;
        e
    }

    /// Attaches a diagnostic summary safe to persist and display.
    pub fn with_diagnostic(self, diagnostic: ProviderDiagnostic) -> (r: ProviderError)
        ensures
            r.spec_diagnostic() == Some(diagnostic),
            r.spec_kind() == self.spec_kind(),
            r.spec_send_state() == self.spec_send_state(),
            r.spec_upstream_status() == self.spec_upstream_status(),
            r.spec_upstream_code() == self.spec_upstream_code(),
            r.spec_upstream_request_id() == self.spec_upstream_request_id(),
            r.spec_retry_after() == self.spec_retry_after(),
            r.spec_continuation_failure() == self.spec_continuation_failure(),
            r.spec_continuation_recovery_disposition() == self.spec_continuation_recovery_disposition(),
            r.spec_continuation_unavailable_reason() == self.spec_continuation_unavailable_reason(),
            r.spec_connection_observation() == self.spec_connection_observation(),
            r.spec_replay_safe() == self.spec_replay_safe(),
            r.spec_pre_delivery_retry() == self.spec_pre_delivery_retry(),
            r.spec_credential_recovery_required() == self.spec_credential_recovery_required(),
            r.spec_retry_same_account() == self.spec_retry_same_account(),
            r.spec_sensitive_context_redacted() == self.spec_sensitive_context_redacted(),
            r.spec_raw_upstream_error() == self.spec_raw_upstream_error(),
            r.spec_client_visible_upstream_error() == self.spec_client_visible_upstream_error(),
    {
        let mut e = self;
        e.diagnostic = Some(diagnostic);
        e
    }

    /// Attaches the raw upstream error body for operator error details.
    pub fn with_raw_upstream_error(self, error: RawUpstreamError) -> (r: ProviderError)
        ensures
            r.spec_raw_upstream_error() == Some(error),
            r.spec_kind() == self.spec_kind(),
            r.spec_send_state() == self.spec_send_state(),
            r.spec_upstream_status() == self.spec_upstream_status(),
            r.spec_upstream_code() == self.spec_upstream_code(),
            r.spec_upstream_request_id() == self.spec_upstream_request_id(),
            r.spec_retry_after() == self.spec_retry_after(),
            r.spec_continuation_failure() == self.spec_continuation_failure(),
            r.spec_continuation_recovery_disposition() == self.spec_continuation_recovery_disposition(),
            r.spec_continuation_unavailable_reason() == self.spec_continuation_unavailable_reason(),
            r.spec_connection_observation() == self.spec_connection_observation(),
            r.spec_replay_safe() == self.spec_replay_safe(),
            r.spec_pre_delivery_retry() == self.spec_pre_delivery_retry(),
            r.spec_credential_recovery_required() == self.spec_credential_recovery_required(),
            r.spec_retry_same_account() == self.spec_retry_same_account(),
            r.spec_sensitive_context_redacted() == self.spec_sensitive_context_redacted(),
            r.spec_diagnostic() == self.spec_diagnostic(),
            r.spec_client_visible_upstream_error() == self.spec_client_visible_upstream_error(),
    {
        let mut e = self;
        e.raw_upstream_error = Some(error);
        e
    }

    /// Marks in place that the failure is replay-safe from a delivered checkpoint.
    pub fn set_replay_safe(&mut self)
        ensures
            final(self).spec_replay_safe() == true,
            final(self).spec_kind() == old(self).spec_kind(),
            final(self).spec_send_state() == old(self).spec_send_state(),
            final(self).spec_upstream_status() == old(self).spec_upstream_status(),
            final(self).spec_upstream_code() == old(self).spec_upstream_code(),
            final(self).spec_upstream_request_id() == old(self).spec_upstream_request_id(),
            final(self).spec_retry_after() == old(self).spec_retry_after(),
            final(self).spec_continuation_failure() == old(self).spec_continuation_failure(),
            final(self).spec_continuation_recovery_disposition() == old(self).spec_continuation_recovery_disposition(),
            final(self).spec_continuation_unavailable_reason() == old(self).spec_continuation_unavailable_reason(),
            final(self).spec_connection_observation() == old(self).spec_connection_observation(),
            final(self).spec_pre_delivery_retry() == old(self).spec_pre_delivery_retry(),
            final(self).spec_credential_recovery_required() == old(self).spec_credential_recovery_required(),
            final(self).spec_retry_same_account() == old(self).spec_retry_same_account(),
            final(self).spec_sensitive_context_redacted() == old(self).spec_sensitive_context_redacted(),
            final(self).spec_diagnostic() == old(self).spec_diagnostic(),
            final(self).spec_raw_upstream_error() == old(self).spec_raw_upstream_error(),
            final(self).spec_client_visible_upstream_error() == old(self).spec_client_visible_upstream_error(),
    {
        self.replay_safe = true;
    }

    /// Sets in place the same-account fallback transport recovery.
    pub fn set_pre_delivery_transport_fallback(&mut self)
        ensures
            final(self).spec_pre_delivery_retry() == Some(PreDeliveryRetry::SameAccountTransportFallback),
            final(self).spec_kind() == old(self).spec_kind(),
            final(self).spec_send_state() == old(self).spec_send_state(),
            final(self).spec_upstream_status() == old(self).spec_upstream_status(),
            final(self).spec_upstream_code() == old(self).spec_upstream_code(),
            final(self).spec_upstream_request_id() == old(self).spec_upstream_request_id(),
            final(self).spec_retry_after() == old(self).spec_retry_after(),
            final(self).spec_continuation_failure() == old(self).spec_continuation_failure(),
            final(self).spec_continuation_recovery_disposition() == old(self).spec_continuation_recovery_disposition(),
            final(self).spec_continuation_unavailable_reason() == old(self).spec_continuation_unavailable_reason(),
            final(self).spec_connection_observation() == old(self).spec_connection_observation(),
            final(self).spec_replay_safe() == old(self).spec_replay_safe(),
            final(self).spec_credential_recovery_required() == old(self).spec_credential_recovery_required(),
            final(self).spec_retry_same_account() == old(self).spec_retry_same_account(),
            final(self).spec_sensitive_context_redacted() == old(self).spec_sensitive_context_redacted(),
            final(self).spec_diagnostic() == old(self).spec_diagnostic(),
            final(self).spec_raw_upstream_error() == old(self).spec_raw_upstream_error(),
            final(self).spec_client_visible_upstream_error() == old(self).spec_client_visible_upstream_error(),
    {
        self.pre_delivery_retry = Some(PreDeliveryRetry::SameAccountTransportFallback);
    }

    /// Sets in place the same-account retry of the current transport.
    pub fn set_pre_delivery_transport_retry(&mut self, retry_index: u32, delay: TimeSpan)
        requires
            retry_index > 0,
        ensures
            final(self).spec_pre_delivery_retry() == Some(PreDeliveryRetry::SameAccountTransportRetry { retry_index, delay }),
            final(self).spec_kind() == old(self).spec_kind(),
            final(self).spec_send_state() == old(self).spec_send_state(),
            final(self).spec_upstream_status() == old(self).spec_upstream_status(),
            final(self).spec_upstream_code() == old(self).spec_upstream_code(),
            final(self).spec_upstream_request_id() == old(self).spec_upstream_request_id(),
            final(self).spec_retry_after() == old(self).spec_retry_after(),
            final(self).spec_continuation_failure() == old(self).spec_continuation_failure(),
            final(self).spec_continuation_recovery_disposition() == old(self).spec_continuation_recovery_disposition(),
            final(self).spec_continuation_unavailable_reason() == old(self).spec_continuation_unavailable_reason(),
            final(self).spec_connection_observation() == old(self).spec_connection_observation(),
            final(self).spec_replay_safe() == old(self).spec_replay_safe(),
            final(self).spec_credential_recovery_required() == old(self).spec_credential_recovery_required(),
            final(self).spec_retry_same_account() == old(self).spec_retry_same_account(),
            final(self).spec_sensitive_context_redacted() == old(self).spec_sensitive_context_redacted(),
            final(self).spec_diagnostic() == old(self).spec_diagnostic(),
            final(self).spec_raw_upstream_error() == old(self).spec_raw_upstream_error(),
            final(self).spec_client_visible_upstream_error() == old(self).spec_client_visible_upstream_error(),
    {
        self.pre_delivery_retry = Some(PreDeliveryRetry::SameAccountTransportRetry { retry_index, delay });
    }

    /// A copy of this error.
    pub(crate) fn duplicate(&self) -> (r: ProviderError)
        ensures
            r == *self,
    {
        ProviderError {
            kind: self.kind,
            send_state: self.send_state,
            upstream_status: self.upstream_status,
            upstream_code: match &self.upstream_code {
                Some(v) => Some(v.duplicate()),
                None => None,
            },
            upstream_request_id: match &self.upstream_request_id {
                Some(v) => Some(v.duplicate()),
                None => None,
            },
            retry_after: self.retry_after,
            continuation_failure: self.continuation_failure,
            continuation_recovery_disposition: self.continuation_recovery_disposition,
            continuation_unavailable_reason: self.continuation_unavailable_reason,
            connection_observation: match &self.connection_observation {
                Some(v) => Some(v.duplicate()),
                None => None,
            },
            replay_safe: self.replay_safe,
            pre_delivery_retry: self.pre_delivery_retry,
            credential_recovery_required: self.credential_recovery_required,
            retry_same_account: self.retry_same_account,
            sensitive_context_redacted: self.sensitive_context_redacted,
            diagnostic: match &self.diagnostic {
                Some(v) => Some(v.duplicate()),
                None => None,
            },
            raw_upstream_error: match &self.raw_upstream_error {
                Some(v) => Some(v.duplicate()),
                None => None,
            },
            client_visible_upstream_error: match &self.client_visible_upstream_error {
                Some(v) => Some(v.duplicate()),
                None => None,
            },
        }
    }

    pub fn kind(&self) -> (r: ProviderErrorKind)
        ensures
            r == self.spec_kind(),
    {
        self.kind
    }

    pub fn send_state(&self) -> (r: UpstreamSendState)
        ensures
            r == self.spec_send_state(),
    {
        self.send_state
    }

    pub fn upstream_status(&self) -> (r: Option<u16>)
        ensures
            r == self.spec_upstream_status(),
    {
        self.upstream_status
    }

    pub fn upstream_code(&self) -> (r: Option<&OpaqueUpstreamValue>)
        ensures
            r is Some == self.spec_upstream_code() is Some,
            r is Some ==> *r->0 == self.spec_upstream_code()->0,
    {
        match &self.upstream_code {
            Some(v) => Some(v),
            None => None,
        }
    }

    pub fn upstream_request_id(&self) -> (r: Option<&OpaqueUpstreamValue>)
        ensures
            r is Some == self.spec_upstream_request_id() is Some,
            r is Some ==> *r->0 == self.spec_upstream_request_id()->0,
    {
        match &self.upstream_request_id {
            Some(v) => Some(v),
            None => None,
        }
    }

    pub fn retry_after(&self) -> (r: Option<TimeSpan>)
        ensures
            r == self.spec_retry_after(),
    {
        self.retry_after
    }

    pub fn continuation_failure(&self) -> (r: Option<ContinuationFailure>)
        ensures
            r == self.spec_continuation_failure(),
    {
        self.continuation_failure
    }

    pub fn continuation_recovery_disposition(&self) -> (r: Option<ContinuationRecoveryDisposition>)
        ensures
            r == self.spec_continuation_recovery_disposition(),
    {
        self.continuation_recovery_disposition
    }

    pub fn continuation_unavailable_reason(&self) -> (r: Option<&'static str>)
        ensures
            r == self.spec_continuation_unavailable_reason(),
    {
        self.continuation_unavailable_reason
    }

    pub fn connection_observation(&self) -> (r: Option<&ProviderConnectionObservation>)
        ensures
            r is Some == self.spec_connection_observation() is Some,
            r is Some ==> *r->0 == self.spec_connection_observation()->0,
    {
        match &self.connection_observation {
            Some(v) => Some(v),
            None => None,
        }
    }

    pub fn pre_delivery_retry(&self) -> (r: Option<PreDeliveryRetry>)
        ensures
            r == self.spec_pre_delivery_retry(),
    {
        self.pre_delivery_retry
    }

    pub fn diagnostic(&self) -> (r: Option<&ProviderDiagnostic>)
        ensures
            r is Some == self.spec_diagnostic() is Some,
            r is Some ==> *r->0 == self.spec_diagnostic()->0,
    {
        match &self.diagnostic {
            Some(v) => Some(v),
            None => None,
        }
    }

    pub fn raw_upstream_error(&self) -> (r: Option<&RawUpstreamError>)
        ensures
            r is Some == self.spec_raw_upstream_error() is Some,
            r is Some ==> *r->0 == self.spec_raw_upstream_error()->0,
    {
        match &self.raw_upstream_error {
            Some(v) => Some(v),
            None => None,
        }
    }

    pub fn client_visible_upstream_error(&self) -> (r: Option<&ClientVisibleUpstreamError>)
        ensures
            r is Some == self.spec_client_visible_upstream_error() is Some,
            r is Some ==> *r->0 == self.spec_client_visible_upstream_error()->0,
    {
        match &self.client_visible_upstream_error {
            Some(v) => Some(v),
            None => None,
        }
    }

    /// Whether the provider proved the failure safe to replay.
    pub fn replay_is_safe(&self) -> (r: bool)
        ensures
            r == self.spec_replay_safe(),
    {
        self.replay_safe
    }

    /// Whether the provider allows hidden recovery before the first client event.
    pub fn allows_pre_delivery_retry(&self) -> (r: bool)
        ensures
            r == self.spec_pre_delivery_retry() is Some,
    {
        self.pre_delivery_retry.is_some()
    }

    /// Whether the provider finished credential recovery and asks for a same-account replay.
    pub fn retries_same_account(&self) -> (r: bool)
        ensures
            r == self.spec_retry_same_account(),
    {
        self.retry_same_account
    }

    pub fn requires_credential_recovery(&self) -> (r: bool)
        ensures
            r == self.spec_credential_recovery_required(),
    {
        self.credential_recovery_required
    }

    /// Whether the adapter dropped a sensitive error body.
    pub fn sensitive_context_was_redacted(&self) -> (r: bool)
        ensures
            r == self.spec_sensitive_context_redacted(),
    {
        self.sensitive_context_redacted
    }
}

/// The gateway kind a provider failure kind is reported as.
pub open spec fn gateway_kind_for(kind: ProviderErrorKind) -> GatewayErrorKind {
    match kind {
        ProviderErrorKind::InvalidRequest => GatewayErrorKind::InvalidRequest,
        ProviderErrorKind::ContinuationRecoveryRequired => GatewayErrorKind::InvalidRequest,
        ProviderErrorKind::Unsupported => GatewayErrorKind::Unsupported,
        ProviderErrorKind::Unauthorized => GatewayErrorKind::UpstreamUnavailable,
        ProviderErrorKind::PermissionDenied => GatewayErrorKind::UpstreamUnavailable,
        ProviderErrorKind::RateLimited => GatewayErrorKind::RateLimited,
        ProviderErrorKind::QuotaExhausted => GatewayErrorKind::RateLimited,
        ProviderErrorKind::AccountCapacityUnavailable => GatewayErrorKind::AccountCapacityUnavailable,
        ProviderErrorKind::NoEligibleAccount => GatewayErrorKind::NoAvailableProvider,
        ProviderErrorKind::ProviderInfrastructureUnavailable => GatewayErrorKind::ProviderInfrastructureUnavailable,
        ProviderErrorKind::Timeout => GatewayErrorKind::Timeout,
        ProviderErrorKind::Cancelled => GatewayErrorKind::Cancelled,
        ProviderErrorKind::Transport => GatewayErrorKind::UpstreamUnavailable,
        ProviderErrorKind::Protocol => GatewayErrorKind::UpstreamUnavailable,
        ProviderErrorKind::Unavailable => GatewayErrorKind::UpstreamUnavailable,
        ProviderErrorKind::ProcessTerminated => GatewayErrorKind::UpstreamUnavailable,
    }
}

/// The fixed, safe message a provider failure kind is reported with.
pub open spec fn gateway_message_for(kind: ProviderErrorKind) -> Seq<char> {
    match kind {
        ProviderErrorKind::InvalidRequest => "invalid upstream request"@,
        ProviderErrorKind::ContinuationRecoveryRequired => "conversation continuation must be rebuilt"@,
        ProviderErrorKind::Unsupported => "requested capability is unsupported"@,
        ProviderErrorKind::Unauthorized => "upstream authentication resource is unavailable"@,
        ProviderErrorKind::PermissionDenied => "upstream authentication resource is unavailable"@,
        ProviderErrorKind::RateLimited => "upstream capacity is temporarily unavailable"@,
        ProviderErrorKind::QuotaExhausted => "upstream capacity is temporarily unavailable"@,
        ProviderErrorKind::AccountCapacityUnavailable => "all eligible upstream accounts are temporarily busy"@,
        ProviderErrorKind::NoEligibleAccount => "no upstream provider is currently available for this request"@,
        ProviderErrorKind::ProviderInfrastructureUnavailable => "provider account infrastructure is temporarily unavailable"@,
        ProviderErrorKind::Timeout => "upstream request timed out"@,
        ProviderErrorKind::Cancelled => "request was cancelled"@,
        ProviderErrorKind::Transport => "upstream service is unavailable"@,
        ProviderErrorKind::Protocol => "upstream service is unavailable"@,
        ProviderErrorKind::Unavailable => "upstream service is unavailable"@,
        ProviderErrorKind::ProcessTerminated => "upstream service is unavailable"@,
    }
}

/// How provider failures reach the client, by what the client can do
/// about them: an upstream rate limit or exhausted quota is reported as a
/// rate limit with the capacity message; a cancellation as a cancellation;
/// a timeout as a timeout; transport, protocol and availability failures
/// and a terminated process as an unavailable upstream service; refused
/// credentials as an unavailable authentication resource; request and
/// continuation faults as an invalid request; a provider failure is never
/// reported as the gateway's own policy, authentication, routing, queue or
/// internal failure.
pub proof fn lemma_provider_failure_reports(kind: ProviderErrorKind)
    ensures
        (kind == ProviderErrorKind::RateLimited || kind == ProviderErrorKind::QuotaExhausted) <==> gateway_kind_for(kind)
            == GatewayErrorKind::RateLimited,
        gateway_kind_for(kind) == GatewayErrorKind::RateLimited ==> gateway_message_for(kind)
            == "upstream capacity is temporarily unavailable"@,
        kind == ProviderErrorKind::Cancelled <==> gateway_kind_for(kind) == GatewayErrorKind::Cancelled,
        kind == ProviderErrorKind::Cancelled ==> gateway_message_for(kind) == "request was cancelled"@,
        kind == ProviderErrorKind::Timeout <==> gateway_kind_for(kind) == GatewayErrorKind::Timeout,
        kind == ProviderErrorKind::Timeout ==> gateway_message_for(kind) == "upstream request timed out"@,
        (kind == ProviderErrorKind::Transport || kind == ProviderErrorKind::Protocol || kind
            == ProviderErrorKind::Unavailable || kind == ProviderErrorKind::ProcessTerminated) ==> gateway_kind_for(kind)
            == GatewayErrorKind::UpstreamUnavailable && gateway_message_for(kind) == "upstream service is unavailable"@,
        (kind == ProviderErrorKind::Unauthorized || kind == ProviderErrorKind::PermissionDenied) ==> gateway_kind_for(kind)
            == GatewayErrorKind::UpstreamUnavailable && gateway_message_for(kind)
            == "upstream authentication resource is unavailable"@,
        (kind == ProviderErrorKind::InvalidRequest || kind == ProviderErrorKind::ContinuationRecoveryRequired)
            <==> gateway_kind_for(kind) == GatewayErrorKind::InvalidRequest,
        kind == ProviderErrorKind::InvalidRequest ==> gateway_message_for(kind) == "invalid upstream request"@,
        kind == ProviderErrorKind::ContinuationRecoveryRequired ==> gateway_message_for(kind)
            == "conversation continuation must be rebuilt"@,
        kind == ProviderErrorKind::Unsupported <==> gateway_kind_for(kind) == GatewayErrorKind::Unsupported,
        kind == ProviderErrorKind::Unsupported ==> gateway_message_for(kind) == "requested capability is unsupported"@,
        kind == ProviderErrorKind::AccountCapacityUnavailable <==> gateway_kind_for(kind)
            == GatewayErrorKind::AccountCapacityUnavailable,
        kind == ProviderErrorKind::AccountCapacityUnavailable ==> gateway_message_for(kind)
            == "all eligible upstream accounts are temporarily busy"@,
        kind == ProviderErrorKind::NoEligibleAccount <==> gateway_kind_for(kind) == GatewayErrorKind::NoAvailableProvider,
        kind == ProviderErrorKind::NoEligibleAccount ==> gateway_message_for(kind)
            == "no upstream provider is currently available for this request"@,
        kind == ProviderErrorKind::ProviderInfrastructureUnavailable <==> gateway_kind_for(kind)
            == GatewayErrorKind::ProviderInfrastructureUnavailable,
        kind == ProviderErrorKind::ProviderInfrastructureUnavailable ==> gateway_message_for(kind)
            == "provider account infrastructure is temporarily unavailable"@,
        gateway_kind_for(kind) != GatewayErrorKind::PolicyDenied,
        gateway_kind_for(kind) != GatewayErrorKind::Unauthorized,
        gateway_kind_for(kind) != GatewayErrorKind::ModelNotFound,
        gateway_kind_for(kind) != GatewayErrorKind::Internal,
        gateway_kind_for(kind) != GatewayErrorKind::ConcurrencyQueueFull,
        gateway_kind_for(kind) != GatewayErrorKind::ConcurrencyQueueTimeout,
{
}

/// A protocol-independent gateway error that is safe to expose.
///
/// It has no `Debug`: its diagnostic and upstream error must not reach logs.
#[derive(Clone, PartialEq, Eq)]
pub struct GatewayError {
    kind: GatewayErrorKind,
    message: &'static str,
    diagnostic: Option<ProviderDiagnostic>,
    client_visible_upstream_error: Option<ClientVisibleUpstreamError>,
}

impl GatewayError {
    pub closed spec fn spec_kind(&self) -> GatewayErrorKind {
        self.kind
    }

    pub closed spec fn spec_message(&self) -> Seq<char> {
        self.message@
    }

    pub closed spec fn spec_diagnostic(&self) -> Option<ProviderDiagnostic> {
        self.diagnostic
    }

    pub closed spec fn spec_client_visible_upstream_error(&self) -> Option<ClientVisibleUpstreamError> {
        self.client_visible_upstream_error
    }

    /// Creates an error with a static safe message.
    pub fn new(kind: GatewayErrorKind, message: &'static str) -> (r: GatewayError)
        ensures
            r.spec_kind() == kind,
            r.spec_message() == message@,
            r.spec_diagnostic() is None,
            r.spec_client_visible_upstream_error() is None,
    {
        GatewayError { kind, message, diagnostic: None, client_visible_upstream_error: None }
    }

    /// Normalises a provider error into a client-independent error, keeping
    /// the provider's diagnostic and client-visible upstream error.
    pub fn from_provider(error: &ProviderError) -> (r: GatewayError)
        ensures
            r.spec_kind() == gateway_kind_for(error.spec_kind()),
            r.spec_message() == gateway_message_for(error.spec_kind()),
            (error.spec_kind() == ProviderErrorKind::RateLimited || error.spec_kind() == ProviderErrorKind::QuotaExhausted)
                ==> r.spec_kind() == GatewayErrorKind::RateLimited && r.spec_message()
                == "upstream capacity is temporarily unavailable"@,
            r.spec_diagnostic() == error.spec_diagnostic(),
            r.spec_client_visible_upstream_error() == error.spec_client_visible_upstream_error(),
    {
        let gateway = match error.kind() {
            ProviderErrorKind::InvalidRequest => GatewayError::new(
                GatewayErrorKind::InvalidRequest,
                "invalid upstream request",
            ),
            ProviderErrorKind::ContinuationRecoveryRequired => GatewayError::new(
                GatewayErrorKind::InvalidRequest,
                "conversation continuation must be rebuilt",
            ),
            ProviderErrorKind::Unsupported => GatewayError::new(
                GatewayErrorKind::Unsupported,
                "requested capability is unsupported",
            ),
            ProviderErrorKind::Unauthorized | ProviderErrorKind::PermissionDenied => GatewayError::new(
                GatewayErrorKind::UpstreamUnavailable,
                "upstream authentication resource is unavailable",
            ),
            ProviderErrorKind::RateLimited | ProviderErrorKind::QuotaExhausted => GatewayError::new(
                GatewayErrorKind::RateLimited,
                "upstream capacity is temporarily unavailable",
            ),
            ProviderErrorKind::AccountCapacityUnavailable => GatewayError::new(
                GatewayErrorKind::AccountCapacityUnavailable,
                "all eligible upstream accounts are temporarily busy",
            ),
            ProviderErrorKind::NoEligibleAccount => GatewayError::new(
                GatewayErrorKind::NoAvailableProvider,
                "no upstream provider is currently available for this request",
            ),
            ProviderErrorKind::ProviderInfrastructureUnavailable => GatewayError::new(
                GatewayErrorKind::ProviderInfrastructureUnavailable,
                "provider account infrastructure is temporarily unavailable",
            ),
            ProviderErrorKind::Timeout => GatewayError::new(
                GatewayErrorKind::Timeout,
                "upstream request timed out",
            ),
            ProviderErrorKind::Cancelled => GatewayError::new(
                GatewayErrorKind::Cancelled,
                "request was cancelled",
            ),
            ProviderErrorKind::Transport
            | ProviderErrorKind::Protocol
            | ProviderErrorKind::Unavailable
            | ProviderErrorKind::ProcessTerminated => GatewayError::new(
                GatewayErrorKind::UpstreamUnavailable,
                "upstream service is unavailable",
            ),
        };
        let gateway = match error.diagnostic() {
            Some(diagnostic) => gateway.with_diagnostic(diagnostic.duplicate()),
            None => gateway,
        };
        match error.client_visible_upstream_error() {
            Some(upstream) => gateway.with_client_visible_upstream_error(upstream.duplicate()),
            None => gateway,
        }
    }

    /// Attaches a redacted provider summary meant for operators.
    pub fn with_diagnostic(self, diagnostic: ProviderDiagnostic) -> (r: GatewayError)
        ensures
            r.spec_diagnostic() == Some(diagnostic),
            r.spec_kind() == self.spec_kind(),
            r.spec_message() == self.spec_message(),
            r.spec_client_visible_upstream_error() == self.spec_client_visible_upstream_error(),
    {
        let mut e = self;
        e.diagnostic = Some(diagnostic);
        e
    }

    /// Attaches the structured upstream error shown only to the requesting client.
    pub fn with_client_visible_upstream_error(self, error: ClientVisibleUpstreamError) -> (r: GatewayError)
        ensures
            r.spec_client_visible_upstream_error() == Some(error),
            r.spec_kind() == self.spec_kind(),
            r.spec_message() == self.spec_message(),
            r.spec_diagnostic() == self.spec_diagnostic(),
    {
        let mut e = self;
        e.client_visible_upstream_error = Some(error);
        e
    }

    pub fn kind(&self) -> (r: GatewayErrorKind)
        ensures
            r == self.spec_kind(),
    {
        self.kind
    }

    /// The static, already redacted message.
    pub fn safe_message(&self) -> (r: &'static str)
        ensures
            r@ == self.spec_message(),
    {
        self.message
    }

    pub fn diagnostic(&self) -> (r: Option<&ProviderDiagnostic>)
        ensures
            r is Some == self.spec_diagnostic() is Some,
            r is Some ==> *r->0 == self.spec_diagnostic()->0,
    {
        match &self.diagnostic {
            Some(d) => Some(d),
            None => None,
        }
    }

    /// The message preferred for the original client protocol: the upstream's
    /// structured message where there is one, else the safe message.
    pub fn client_message(&self) -> (r: &str)
        ensures
            r@ == (match self.spec_client_visible_upstream_error() {
                Some(e) => e.spec_message(),
                None => self.spec_message(),
            }),
    {
        match &self.client_visible_upstream_error {
            Some(e) => e.message(),
            None => self.message,
        }
    }

    /// The upstream's structured error type, if it gave one.
    pub fn client_error_type(&self) -> (r: Option<&str>)
        ensures
            (match self.spec_client_visible_upstream_error() {
                Some(e) => match e.spec_error_type() {
                    Some(t) => r is Some && r->0@ == t,
                    None => r is None,
                },
                None => r is None,
            }),
    {
        match &self.client_visible_upstream_error {
            Some(e) => e.error_type(),
            None => None,
        }
    }

    /// The upstream's structured error code, if it gave one.
    pub fn client_error_code(&self) -> (r: Option<&str>)
        ensures
            (match self.spec_client_visible_upstream_error() {
                Some(e) => match e.spec_code() {
                    Some(c) => r is Some && r->0@ == c,
                    None => r is None,
                },
                None => r is None,
            }),
    {
        match &self.client_visible_upstream_error {
            Some(e) => e.code(),
            None => None,
        }
    }
}

/// The stable error classification of a store adapter.
#[derive(Debug, Clone, Copy, PartialEq, Eq, Structural, Hash)]
#[non_exhaustive]
pub enum StoreErrorKind {
    /// A compare-and-swap or expected revision conflict.
    Conflict,
    /// The store is unavailable for now.
    Unavailable,
    /// An illegal lifecycle transition.
    InvalidState,
    /// Data that cannot be turned into core facts.
    InvalidData,
}

/// A redacted store error returned by core ports.
#[derive(Debug, Clone, Copy, PartialEq, Eq, Structural)]
pub struct StoreError {
    kind: StoreErrorKind,
}

impl StoreError {
    pub closed spec fn spec_kind(&self) -> StoreErrorKind {
        self.kind
    }

    /// Creates a store error that carries no database text.
    pub fn new(kind: StoreErrorKind) -> (r: StoreError)
        ensures
            r.spec_kind() == kind,
    {
        StoreError { kind }
    }

    pub fn kind(&self) -> (r: StoreErrorKind)
        ensures
            r == self.spec_kind(),
    {
        self.kind
    }
}

/// The raw upstream HTTP failure response, only for the current client
/// request; it never reaches logs or storage. It has no `Clone` and no
/// `Debug`.
#[derive(PartialEq, Eq)]
pub struct ClientVisibleUpstreamResponse {
    status: u16,
    content_type: Option<Vec<u8>>,
    headers: Vec<ProviderResponseHeader>,
    body: Vec<u8>,
}

impl ClientVisibleUpstreamResponse {
    pub closed spec fn spec_status(&self) -> u16 {
        self.status
    }

    pub closed spec fn spec_content_type(&self) -> Option<Seq<u8>> {
        match self.content_type {
            Some(c) => Some(c@),
            None => None,
        }
    }

    pub closed spec fn spec_headers(&self) -> Seq<ProviderResponseHeader> {
        self.headers@
    }

    pub closed spec fn spec_body(&self) -> Seq<u8> {
        self.body@
    }

    /// Keeps the status, the raw `Content-Type` and the body the transport received.
    pub fn new(status: u16, content_type: Option<Vec<u8>>, body: Vec<u8>) -> (r: ClientVisibleUpstreamResponse)
        ensures
            r.spec_status() == status,
            r.spec_content_type() == (match content_type { Some(c) => Some(c@), None => None::<Seq<u8>> }),
            r.spec_headers() == Seq::<ProviderResponseHeader>::empty(),
            r.spec_body() == body@,
    {
        ClientVisibleUpstreamResponse { status, content_type, headers: Vec::new(), body }
    }

    /// Attaches ordinary response headers the provider already stripped of
    /// account binding and framing.
    pub fn with_headers(self, headers: Vec<ProviderResponseHeader>) -> (r: ClientVisibleUpstreamResponse)
        ensures
            r.spec_headers() == headers@,
            r.spec_status() == self.spec_status(),
            r.spec_content_type() == self.spec_content_type(),
            r.spec_body() == self.spec_body(),
    {
        ClientVisibleUpstreamResponse { headers, ..self }
    }

    pub fn status(&self) -> (r: u16)
        ensures
            r == self.spec_status(),
    {
        self.status
    }

    pub fn content_type(&self) -> (r: Option<&[u8]>)
        ensures
            r is Some == self.spec_content_type() is Some,
            r is Some ==> r->0@ == self.spec_content_type()->0,
    {
        match &self.content_type {
            Some(c) => Some(c.as_slice()),
            None => None,
        }
    }

    pub fn headers(&self) -> (r: &[ProviderResponseHeader])
        ensures
            r@ == self.spec_headers(),
    {
        self.headers.as_slice()
    }

    pub fn body(&self) -> (r: &[u8])
        ensures
            r@ == self.spec_body(),
    {
        self.body.as_slice()
    }
}

} // verus!
