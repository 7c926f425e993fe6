//! Facts of a model request's lifecycle: ids, send state, outcomes, attempt
//! contexts and the commit barrier in front of the first delivered event.

pub mod continuation;
pub mod coordinator;
pub mod execution;
pub mod policy;
pub mod middleware;
pub mod provider;
pub mod budget;
pub mod catalog;
pub mod admission;
pub mod probe;
pub mod response_control;

use vstd::prelude::*;
use vstd::string::{StringExecFns, StringSliceAdditionalSpecFns};
use vstd::utf8::encode_utf8;

use std::collections::BTreeSet;

use crate::accounting::{CostEstimate, Usage};
use crate::credential::ids::ProviderAccountId;
use crate::error::{GatewayError, GatewayErrorKind, ProviderError, ProviderErrorKind, StoreError};
use crate::event::{GatewayEvent, ProviderResponseTimings};
use crate::identity::{ProviderInstanceId, ProviderKind, UpstreamModelId};
use crate::policy::ClientApiKeyId;
use crate::text::{text_error_of, validate_text, IdentifierError};
use crate::time::{TimeSpan, UnixTime, NANOS_PER_MILLI};

verus! {

/// The id of a `model_requests` row: 1 to 128 bytes, no control bytes or
/// whitespace, and the `req_` prefix followed by at least one byte.
#[derive(Debug, Clone, PartialEq, Eq, PartialOrd, Ord, Hash)]
pub struct ModelRequestId(String);

impl View for ModelRequestId {
    type V = Seq<char>;

    closed spec fn view(&self) -> Seq<char> {
        self.0@
    }
}

impl ModelRequestId {
    /// Validates and wraps a request id.
    pub fn new(value: String) -> (r: Result<ModelRequestId, IdentifierError>)
        ensures
            r matches Ok(id) ==> id@ == value@,
            r is Ok <==> text_error_of(value@, 128, false, Some("req_"@)) is None,
            r matches Err(e) ==> text_error_of(value@, 128, false, Some("req_"@)) == Some(e),
    {
        match validate_text(value.as_str(), 128, false, Some("req_")) {
            Ok(()) => Ok(ModelRequestId(value)),
            Err(e) => Err(e),
        }
    }

    pub fn as_str(&self) -> (r: &str)
        ensures
            r@ == self@,
    {
        self.0.as_str()
    }

    pub fn duplicate(&self) -> (r: ModelRequestId)
        ensures
            r == *self,
    {
        ModelRequestId(self.0.clone())
    }
}

/// A lowercase hexadecimal digit.
pub open spec fn is_lower_hex_digit(c: char) -> bool {
    ('0' <= c && c <= '9') || ('a' <= c && c <= 'f')
}

/// `uuid::Uuid::now_v7().simple().to_string()`: a fresh time-ordered UUID
/// written, as the `Simple` format documents, as 32 lowercase hexadecimal
/// digits. Which UUID comes back depends on the clock and a random source,
/// so only its form is stated.
#[verifier::external_body]
fn new_uuid_v7_simple() -> (r: String)
    ensures
        r@.len() == 32,
        forall|i: int| 0 <= i < 32 ==> is_lower_hex_digit(#[trigger] r@[i]),
{
    uuid::Uuid::now_v7().simple().to_string()
}

/// Allocates a request id: `req_` followed by a fresh time-ordered UUID in
/// 32 lowercase hexadecimal digits.
pub fn new_request_id() -> (r: Result<ModelRequestId, GatewayError>)
    ensures
        r matches Ok(id) && id@.len() == 36 && id@.subrange(0, 4) == "req_"@
            && forall|i: int| 4 <= i < 36 ==> is_lower_hex_digit(#[trigger] id@[i]),
{
    let hex = new_uuid_v7_simple();
    let value = String::from_str("req_").concat(hex.as_str());
    proof {
        reveal_strlit("req_");
        let v = value@;
        assert(v.subrange(0, 4) =~= "req_"@);
        assert forall|i: int| 4 <= i < 36 implies is_lower_hex_digit(#[trigger] v[i]) by {
            assert(v[i] == hex@[i - 4]);
        }
        assert(vstd::utf8::is_ascii_chars(v));
        vstd::utf8::is_ascii_chars_encode_utf8(v);
        assert(vstd::utf8::is_ascii_chars("req_"@));
        vstd::utf8::is_ascii_chars_encode_utf8("req_"@);
        let b = encode_utf8(v);
        let p = encode_utf8("req_"@);
        assert(b.subrange(0, 4) =~= p);
        assert forall|i: int| 0 <= i < b.len() implies !crate::text::is_control(#[trigger] b[i])
            && !crate::text::is_space(b[i]) by {
            assert(b[i] == v[i] as u8);
            if i >= 4 {
                assert(is_lower_hex_digit(v[i]));
            }
        }
        assert(!exists|k: int| #[trigger] crate::text::first_refused(b, false, k));
    }
    match ModelRequestId::new(value) {
        Ok(id) => Ok(id),
        Err(_) => Err(GatewayError::new(GatewayErrorKind::Internal, "failed to allocate request ID")),
    }
}

/// Whether the upstream may already have received the business payload.
#[derive(Debug, Clone, Copy, PartialEq, Eq, Structural, Hash)]
pub enum UpstreamSendState {
    /// Nothing was written to the upstream connection.
    NotSent,
    /// The payload was written completely.
    Sent,
    /// It cannot be known whether the upstream received the payload.
    Ambiguous,
}

impl UpstreamSendState {
    /// The stable wire and storage name.
    pub open spec fn spec_name(self) -> Seq<char> {
        match self {
            UpstreamSendState::NotSent => "not_sent"@,
            UpstreamSendState::Sent => "sent"@,
            UpstreamSendState::Ambiguous => "ambiguous"@,
        }
    }

    pub fn as_str(self) -> (r: &'static str)
        ensures
            r@ == self.spec_name(),
    {
        match self {
            UpstreamSendState::NotSent => "not_sent",
            UpstreamSendState::Sent => "sent",
            UpstreamSendState::Ambiguous => "ambiguous",
        }
    }
}

/// Distinct values of [`UpstreamSendState`] have distinct stable names, so parsing a
/// value's name gives that value back.
pub proof fn lemma_upstream_send_state_names_distinct(x: UpstreamSendState, y: UpstreamSendState)
    ensures
        x.spec_name() == y.spec_name() ==> x == y,
{
    reveal_strlit("not_sent");
    reveal_strlit("sent");
    reveal_strlit("ambiguous");
    match x {
        UpstreamSendState::NotSent => match y {
            UpstreamSendState::NotSent => {},
            UpstreamSendState::Sent => { assert("not_sent"@.len() != "sent"@.len()); },
            UpstreamSendState::Ambiguous => { assert("not_sent"@.len() != "ambiguous"@.len()); },
        },
        UpstreamSendState::Sent => match y {
            UpstreamSendState::NotSent => { assert("sent"@.len() != "not_sent"@.len()); },
            UpstreamSendState::Sent => {},
            UpstreamSendState::Ambiguous => { assert("sent"@.len() != "ambiguous"@.len()); },
        },
        UpstreamSendState::Ambiguous => match y {
            UpstreamSendState::NotSent => { assert("ambiguous"@.len() != "not_sent"@.len()); },
            UpstreamSendState::Sent => { assert("ambiguous"@.len() != "sent"@.len()); },
            UpstreamSendState::Ambiguous => {},
        },
    }
}

/// The outcome stored on a `model_requests` row.
#[derive(Debug, Clone, Copy, PartialEq, Eq, Structural, Hash)]
pub enum ExecutionOutcome {
    Running,
    Succeeded,
    Failed,
    Cancelled,
    Incomplete,
}

impl ExecutionOutcome {
    /// The stable wire and storage name.
    pub open spec fn spec_name(self) -> Seq<char> {
        match self {
            ExecutionOutcome::Running => "running"@,
            ExecutionOutcome::Succeeded => "succeeded"@,
            ExecutionOutcome::Failed => "failed"@,
            ExecutionOutcome::Cancelled => "cancelled"@,
            ExecutionOutcome::Incomplete => "incomplete"@,
        }
    }

    pub fn as_str(self) -> (r: &'static str)
        ensures
            r@ == self.spec_name(),
    {
        match self {
            ExecutionOutcome::Running => "running",
            ExecutionOutcome::Succeeded => "succeeded",
            ExecutionOutcome::Failed => "failed",
            ExecutionOutcome::Cancelled => "cancelled",
            ExecutionOutcome::Incomplete => "incomplete",
        }
    }
}

/// Distinct values of [`ExecutionOutcome`] have distinct stable names, so parsing a
/// value's name gives that value back.
pub proof fn lemma_execution_outcome_names_distinct(x: ExecutionOutcome, y: ExecutionOutcome)
    ensures
        x.spec_name() == y.spec_name() ==> x == y,
{
    reveal_strlit("running");
    reveal_strlit("succeeded");
    reveal_strlit("failed");
    reveal_strlit("cancelled");
    reveal_strlit("incomplete");
    match x {
        ExecutionOutcome::Running => match y {
            ExecutionOutcome::Running => {},
            ExecutionOutcome::Succeeded => { assert("running"@.len() != "succeeded"@.len()); },
            ExecutionOutcome::Failed => { assert("running"@.len() != "failed"@.len()); },
            ExecutionOutcome::Cancelled => { assert("running"@.len() != "cancelled"@.len()); },
            ExecutionOutcome::Incomplete => { assert("running"@.len() != "incomplete"@.len()); },
        },
        ExecutionOutcome::Succeeded => match y {
            ExecutionOutcome::Running => { assert("succeeded"@.len() != "running"@.len()); },
            ExecutionOutcome::Succeeded => {},
            ExecutionOutcome::Failed => { assert("succeeded"@.len() != "failed"@.len()); },
            ExecutionOutcome::Cancelled => { assert("succeeded"@[0] != "cancelled"@[0]); },
            ExecutionOutcome::Incomplete => { assert("succeeded"@.len() != "incomplete"@.len()); },
        },
        ExecutionOutcome::Failed => match y {
            ExecutionOutcome::Running => { assert("failed"@.len() != "running"@.len()); },
            ExecutionOutcome::Succeeded => { assert("failed"@.len() != "succeeded"@.len()); },
            ExecutionOutcome::Failed => {},
            ExecutionOutcome::Cancelled => { assert("failed"@.len() != "cancelled"@.len()); },
            ExecutionOutcome::Incomplete => { assert("failed"@.len() != "incomplete"@.len()); },
        },
        ExecutionOutcome::Cancelled => match y {
            ExecutionOutcome::Running => { assert("cancelled"@.len() != "running"@.len()); },
            ExecutionOutcome::Succeeded => { assert("cancelled"@[0] != "succeeded"@[0]); },
            ExecutionOutcome::Failed => { assert("cancelled"@.len() != "failed"@.len()); },
            ExecutionOutcome::Cancelled => {},
            ExecutionOutcome::Incomplete => { assert("cancelled"@.len() != "incomplete"@.len()); },
        },
        ExecutionOutcome::Incomplete => match y {
            ExecutionOutcome::Running => { assert("incomplete"@.len() != "running"@.len()); },
            ExecutionOutcome::Succeeded => { assert("incomplete"@.len() != "succeeded"@.len()); },
            ExecutionOutcome::Failed => { assert("incomplete"@.len() != "failed"@.len()); },
            ExecutionOutcome::Cancelled => { assert("incomplete"@.len() != "cancelled"@.len()); },
            ExecutionOutcome::Incomplete => {},
        },
    }
}

/// Why a request-local attempt was started.
#[derive(Debug, Clone, Copy, PartialEq, Eq, Structural, Hash)]
pub enum AttemptTrigger {
    Initial,
    AccountRetry,
    InstanceFallback,
}

impl AttemptTrigger {
    /// The stable wire and storage name.
    pub open spec fn spec_name(self) -> Seq<char> {
        match self {
            AttemptTrigger::Initial => "initial"@,
            AttemptTrigger::AccountRetry => "account_retry"@,
            AttemptTrigger::InstanceFallback => "instance_fallback"@,
        }
    }

    pub fn as_str(self) -> (r: &'static str)
        ensures
            r@ == self.spec_name(),
    {
        match self {
            AttemptTrigger::Initial => "initial",
            AttemptTrigger::AccountRetry => "account_retry",
            AttemptTrigger::InstanceFallback => "instance_fallback",
        }
    }
}

/// Distinct values of [`AttemptTrigger`] have distinct stable names, so parsing a
/// value's name gives that value back.
pub proof fn lemma_attempt_trigger_names_distinct(x: AttemptTrigger, y: AttemptTrigger)
    ensures
        x.spec_name() == y.spec_name() ==> x == y,
{
    reveal_strlit("initial");
    reveal_strlit("account_retry");
    reveal_strlit("instance_fallback");
    match x {
        AttemptTrigger::Initial => match y {
            AttemptTrigger::Initial => {},
            AttemptTrigger::AccountRetry => { assert("initial"@.len() != "account_retry"@.len()); },
            AttemptTrigger::InstanceFallback => { assert("initial"@.len() != "instance_fallback"@.len()); },
        },
        AttemptTrigger::AccountRetry => match y {
            AttemptTrigger::Initial => { assert("account_retry"@.len() != "initial"@.len()); },
            AttemptTrigger::AccountRetry => {},
            AttemptTrigger::InstanceFallback => { assert("account_retry"@.len() != "instance_fallback"@.len()); },
        },
        AttemptTrigger::InstanceFallback => match y {
            AttemptTrigger::Initial => { assert("instance_fallback"@.len() != "initial"@.len()); },
            AttemptTrigger::AccountRetry => { assert("instance_fallback"@.len() != "account_retry"@.len()); },
            AttemptTrigger::InstanceFallback => {},
        },
    }
}

/// What one real upstream call tells about the health of a provider instance.
#[derive(Debug, Clone, PartialEq, Eq)]
pub enum ProviderAttemptOutcome {
    /// The upstream stream completed and passed the canonical event sequence check.
    Succeeded { provider_instance_id: ProviderInstanceId },
    /// Opening or streaming returned a stable provider error.
    Failed { provider_instance_id: ProviderInstanceId, error_kind: ProviderErrorKind },
}

impl ProviderAttemptOutcome {
    /// The provider instance the call actually belonged to.
    pub fn provider_instance_id(&self) -> (r: &ProviderInstanceId)
        ensures
            *r == (match *self {
                ProviderAttemptOutcome::Succeeded { provider_instance_id } => provider_instance_id,
                ProviderAttemptOutcome::Failed { provider_instance_id, .. } => provider_instance_id,
            }),
    {
        match self {
            ProviderAttemptOutcome::Succeeded { provider_instance_id } => provider_instance_id,
            ProviderAttemptOutcome::Failed { provider_instance_id, .. } => provider_instance_id,
        }
    }

    /// `None` for a success, the stable error kind for a failure.
    pub fn error_kind(&self) -> (r: Option<ProviderErrorKind>)
        ensures
            r == (match *self {
                ProviderAttemptOutcome::Succeeded { .. } => None,
                ProviderAttemptOutcome::Failed { error_kind, .. } => Some(error_kind),
            }),
    {
        match self {
            ProviderAttemptOutcome::Succeeded { .. } => None,
            ProviderAttemptOutcome::Failed { error_kind, .. } => Some(*error_kind),
        }
    }
}

/// The single owner of a request's provider account binding state.
///
/// Opaque state may only be sent back to the provider, instance and account
/// that created it.
#[derive(Debug, Clone, PartialEq, Eq)]
pub struct ProviderAccountStateOwner {
    provider: ProviderKind,
    instance: ProviderInstanceId,
    account: ProviderAccountId,
}

impl ProviderAccountStateOwner {
    pub closed spec fn spec_provider(&self) -> ProviderKind {
        self.provider
    }

    pub closed spec fn spec_instance(&self) -> ProviderInstanceId {
        self.instance
    }

    pub closed spec fn spec_account(&self) -> ProviderAccountId {
        self.account
    }

    pub fn new(provider: ProviderKind, instance: ProviderInstanceId, account: ProviderAccountId) -> (r: ProviderAccountStateOwner)
        ensures
            r.spec_provider() == provider,
            r.spec_instance() == instance,
            r.spec_account() == account,
    {
        ProviderAccountStateOwner { provider, instance, account }
    }

    /// Whether the owner is exactly this provider, instance and account.
    pub fn matches(&self, provider: &ProviderKind, instance: &ProviderInstanceId, account: &ProviderAccountId) -> (r: bool)
        ensures
            r == (self.spec_provider()@ == provider@ && self.spec_instance()@ == instance@
                && self.spec_account()@ == account@),
    {
        self.provider.same_as(provider) && self.instance.same_as(instance) && self.account.same_as(account)
    }

    pub fn provider(&self) -> (r: &ProviderKind)
        ensures
            *r == self.spec_provider(),
    {
        &self.provider
    }

    pub fn instance(&self) -> (r: &ProviderInstanceId)
        ensures
            *r == self.spec_instance(),
    {
        &self.instance
    }

    pub fn account(&self) -> (r: &ProviderAccountId)
        ensures
            *r == self.spec_account(),
    {
        &self.account
    }
}

/// The account selection and binding facts of one attempt.
///
/// `required_account` is only for internal requests that must hit one
/// account; once set, neither the core nor the provider may switch it.
#[derive(Debug, Clone, Default)]
pub struct AccountAttemptContext {
    excluded_accounts: BTreeSet<ProviderAccountId>,
    required_account: Option<ProviderAccountId>,
    state_owner: Option<ProviderAccountStateOwner>,
    credential_recovery_attempted: bool,
}

impl AccountAttemptContext {
    pub closed spec fn spec_excluded_accounts(&self) -> BTreeSet<ProviderAccountId> {
        self.excluded_accounts
    }

    pub closed spec fn spec_required_account(&self) -> Option<ProviderAccountId> {
        self.required_account
    }

    pub closed spec fn spec_state_owner(&self) -> Option<ProviderAccountStateOwner> {
        self.state_owner
    }

    pub closed spec fn spec_credential_recovery_attempted(&self) -> bool {
        self.credential_recovery_attempted
    }

    pub fn new(
        excluded_accounts: BTreeSet<ProviderAccountId>,
        required_account: Option<ProviderAccountId>,
        state_owner: Option<ProviderAccountStateOwner>,
    ) -> (r: AccountAttemptContext)
        ensures
            r.spec_excluded_accounts() == excluded_accounts,
            r.spec_required_account() == required_account,
            r.spec_state_owner() == state_owner,
            !r.spec_credential_recovery_attempted(),
    {
        AccountAttemptContext { excluded_accounts, required_account, state_owner, credential_recovery_attempted: false }
    }

    /// Records whether one credential recovery already ran for the pinned account.
    pub fn with_credential_recovery_attempted(self, attempted: bool) -> (r: AccountAttemptContext)
        ensures
            r.spec_credential_recovery_attempted() == attempted,
            r.spec_excluded_accounts() == self.spec_excluded_accounts(),
            r.spec_required_account() == self.spec_required_account(),
            r.spec_state_owner() == self.spec_state_owner(),
    {
        let mut c = self;
        c.credential_recovery_attempted = attempted;
        c
    }

    pub fn excluded_accounts(&self) -> (r: &BTreeSet<ProviderAccountId>)
        ensures
            *r == self.spec_excluded_accounts(),
    {
        &self.excluded_accounts
    }

    pub fn required_account(&self) -> (r: Option<&ProviderAccountId>)
        ensures
            r is Some == self.spec_required_account() is Some,
            r is Some ==> *r->0 == self.spec_required_account()->0,
    {
        match &self.required_account {
            Some(a) => Some(a),
            None => None,
        }
    }

    pub fn state_owner(&self) -> (r: Option<&ProviderAccountStateOwner>)
        ensures
            r is Some == self.spec_state_owner() is Some,
            r is Some ==> *r->0 == self.spec_state_owner()->0,
    {
        match &self.state_owner {
            Some(o) => Some(o),
            None => None,
        }
    }

    pub fn credential_recovery_attempted(&self) -> (r: bool)
        ensures
            r == self.spec_credential_recovery_attempted(),
    {
        self.credential_recovery_attempted
    }
}

/// How the current attempt handles a previous response.
#[derive(Debug, Clone, Copy, PartialEq, Eq, Structural)]
pub enum ContinuationAttempt {
    /// There is no previous response.
    NoContinuation,
    /// Use the native handle and account binding the store resolved.
    Native,
    /// Replay the full transcript on the owning account.
    ReplayOwner,
    /// The transcript is portable; any account may be selected.
    ReplayAny,
}

/// The request-local context every provider execution sees.
#[derive(Debug, Clone)]
pub struct RequestAttemptContext {
    request_id: ModelRequestId,
    client_api_key_ref: ClientApiKeyId,
}

impl RequestAttemptContext {
    pub closed spec fn spec_request_id(&self) -> ModelRequestId {
        self.request_id
    }

    pub closed spec fn spec_client_api_key_ref(&self) -> ClientApiKeyId {
        self.client_api_key_ref
    }

    pub fn new(request_id: ModelRequestId, client_api_key_ref: ClientApiKeyId) -> (r: RequestAttemptContext)
        ensures
            r.spec_request_id() == request_id,
            r.spec_client_api_key_ref() == client_api_key_ref,
    {
        RequestAttemptContext { request_id, client_api_key_ref }
    }

    pub fn request_id(&self) -> (r: &ModelRequestId)
        ensures
            *r == self.spec_request_id(),
    {
        &self.request_id
    }

    pub fn client_api_key_ref(&self) -> (r: &ClientApiKeyId)
        ensures
            *r == self.spec_client_api_key_ref(),
    {
        &self.client_api_key_ref
    }
}

/// The update of the one `model_requests` row before each real upstream send.
#[derive(Debug, Clone, PartialEq, Eq)]
pub struct AttemptRecord {
    pub request_id: ModelRequestId,
    /// The number of attempts so far, at least one.
    pub attempt_count: u32,
    pub trigger: AttemptTrigger,
    pub provider_instance_id: ProviderInstanceId,
    pub provider_kind: ProviderKind,
    pub provider_account_id: Option<ProviderAccountId>,
    pub provider_account_ref: Option<ProviderAccountId>,
    pub upstream_model_id: UpstreamModelId,
    pub upstream_transport: String,
    pub http_version: Option<String>,
}

/// Stage timings of a model request, in milliseconds.
#[derive(Debug, Clone, Default, PartialEq, Eq, Structural)]
pub struct ModelRequestTimings {
    pub transport_decision_wait_ms: Option<u64>,
    pub connect_ms: Option<u64>,
    pub headers_ms: Option<u64>,
    pub first_event_ms: Option<u64>,
    pub first_reasoning_ms: Option<u64>,
    pub first_text_ms: Option<u64>,
    pub first_token_ms: Option<u64>,
    pub provider_processing_ms: Option<u64>,
    pub latency_ms: Option<u64>,
}

/// A later reported timing replaces an earlier one; an absent one keeps it.
pub open spec fn later_timing(current: Option<u64>, observed: Option<u64>) -> Option<u64> {
    if observed is Some {
        observed
    } else {
        current
    }
}

impl ModelRequestTimings {
    /// Takes every stage timing a provider's response observation reports;
    /// the others, and the total latency, are kept.
    pub fn merge_observed(&mut self, observed: &ProviderResponseTimings)
        ensures
            final(self).transport_decision_wait_ms == later_timing(
                old(self).transport_decision_wait_ms,
                observed.transport_decision_wait_ms,
            ),
            final(self).connect_ms == later_timing(old(self).connect_ms, observed.connect_ms),
            final(self).headers_ms == later_timing(old(self).headers_ms, observed.headers_ms),
            final(self).first_event_ms == later_timing(old(self).first_event_ms, observed.first_event_ms),
            final(self).first_reasoning_ms == later_timing(old(self).first_reasoning_ms, observed.first_reasoning_ms),
            final(self).first_text_ms == later_timing(old(self).first_text_ms, observed.first_text_ms),
            final(self).first_token_ms == later_timing(old(self).first_token_ms, observed.first_token_ms),
            final(self).provider_processing_ms == later_timing(
                old(self).provider_processing_ms,
                observed.provider_processing_ms,
            ),
            final(self).latency_ms == old(self).latency_ms,
    {
        if observed.transport_decision_wait_ms.is_some() {
            self.transport_decision_wait_ms = observed.transport_decision_wait_ms;
        }
        if observed.connect_ms.is_some() {
            self.connect_ms = observed.connect_ms;
        }
        if observed.headers_ms.is_some() {
            self.headers_ms = observed.headers_ms;
        }
        if observed.first_event_ms.is_some() {
            self.first_event_ms = observed.first_event_ms;
        }
        if observed.first_reasoning_ms.is_some() {
            self.first_reasoning_ms = observed.first_reasoning_ms;
        }
        if observed.first_text_ms.is_some() {
            self.first_text_ms = observed.first_text_ms;
        }
        if observed.first_token_ms.is_some() {
            self.first_token_ms = observed.first_token_ms;
        }
        if observed.provider_processing_ms.is_some() {
            self.provider_processing_ms = observed.provider_processing_ms;
        }
    }
}

/// The terminal write-back of one model request row.
pub struct ModelRequestFinalization {
    pub request_id: ModelRequestId,
    pub outcome: ExecutionOutcome,
    pub send_state: UpstreamSendState,
    pub attempt_count: u32,
    pub downstream_committed_at: Option<UnixTime>,
    pub client_status_code: Option<u16>,
    pub client_response_id: Option<String>,
    pub upstream_status_code: Option<u16>,
    pub upstream_request_id: Option<String>,
    pub upstream_response_id: Option<String>,
    pub upstream_transport: Option<String>,
    pub http_version: Option<String>,
    pub error: Option<GatewayError>,
    pub provider_error_code: Option<String>,
    pub retry_after_ms: Option<u64>,
    pub usage: Usage,
    pub cost: CostEstimate,
    pub timings: ModelRequestTimings,
    pub completed_at: UnixTime,
}

/// How many running requests were settled by their frozen deadline after a crash.
#[derive(Debug, Clone, Copy, Default, PartialEq, Eq, Structural)]
pub struct RecoveryReport {
    pub requests: u64,
}

/// The persistence barrier in front of delivering the first event.
#[derive(Debug, Clone, Copy, PartialEq, Eq, Structural)]
pub enum CommitRequirement {
    CommitBeforeDelivery,
    AlreadyCommitted,
}

/// How the client reached the gateway.
#[derive(Debug, Clone, Copy, PartialEq, Eq, Structural, Hash)]
pub enum ClientTransport {
    HttpJson,
    HttpSse,
    WebSocket,
    InternalProbe,
    InternalPlugin,
}

impl ClientTransport {
    /// The stable wire and storage name.
    pub open spec fn spec_name(self) -> Seq<char> {
        match self {
            ClientTransport::HttpJson => "http_json"@,
            ClientTransport::HttpSse => "http_sse"@,
            ClientTransport::WebSocket => "websocket"@,
            ClientTransport::InternalProbe => "internal"@,
            ClientTransport::InternalPlugin => "internal_plugin"@,
        }
    }

    pub fn as_str(self) -> (r: &'static str)
        ensures
            r@ == self.spec_name(),
    {
        match self {
            ClientTransport::HttpJson => "http_json",
            ClientTransport::HttpSse => "http_sse",
            ClientTransport::WebSocket => "websocket",
            ClientTransport::InternalProbe => "internal",
            ClientTransport::InternalPlugin => "internal_plugin",
        }
    }
}

/// Distinct values of [`ClientTransport`] have distinct stable names, so parsing a
/// value's name gives that value back.
pub proof fn lemma_client_transport_names_distinct(x: ClientTransport, y: ClientTransport)
    ensures
        x.spec_name() == y.spec_name() ==> x == y,
{
    reveal_strlit("http_json");
    reveal_strlit("http_sse");
    reveal_strlit("websocket");
    reveal_strlit("internal");
    reveal_strlit("internal_plugin");
    match x {
        ClientTransport::HttpJson => match y {
            ClientTransport::HttpJson => {},
            ClientTransport::HttpSse => { assert("http_json"@.len() != "http_sse"@.len()); },
            ClientTransport::WebSocket => { assert("http_json"@[0] != "websocket"@[0]); },
            ClientTransport::InternalProbe => { assert("http_json"@.len() != "internal"@.len()); },
            ClientTransport::InternalPlugin => { assert("http_json"@.len() != "internal_plugin"@.len()); },
        },
        ClientTransport::HttpSse => match y {
            ClientTransport::HttpJson => { assert("http_sse"@.len() != "http_json"@.len()); },
            ClientTransport::HttpSse => {},
            ClientTransport::WebSocket => { assert("http_sse"@.len() != "websocket"@.len()); },
            ClientTransport::InternalProbe => { assert("http_sse"@[0] != "internal"@[0]); },
            ClientTransport::InternalPlugin => { assert("http_sse"@.len() != "internal_plugin"@.len()); },
        },
        ClientTransport::WebSocket => match y {
            ClientTransport::HttpJson => { assert("websocket"@[0] != "http_json"@[0]); },
            ClientTransport::HttpSse => { assert("websocket"@.len() != "http_sse"@.len()); },
            ClientTransport::WebSocket => {},
            ClientTransport::InternalProbe => { assert("websocket"@.len() != "internal"@.len()); },
            ClientTransport::InternalPlugin => { assert("websocket"@.len() != "internal_plugin"@.len()); },
        },
        ClientTransport::InternalProbe => match y {
            ClientTransport::HttpJson => { assert("internal"@.len() != "http_json"@.len()); },
            ClientTransport::HttpSse => { assert("internal"@[0] != "http_sse"@[0]); },
            ClientTransport::WebSocket => { assert("internal"@.len() != "websocket"@.len()); },
            ClientTransport::InternalProbe => {},
            ClientTransport::InternalPlugin => { assert("internal"@.len() != "internal_plugin"@.len()); },
        },
        ClientTransport::InternalPlugin => match y {
            ClientTransport::HttpJson => { assert("internal_plugin"@.len() != "http_json"@.len()); },
            ClientTransport::HttpSse => { assert("internal_plugin"@.len() != "http_sse"@.len()); },
            ClientTransport::WebSocket => { assert("internal_plugin"@.len() != "websocket"@.len()); },
            ClientTransport::InternalProbe => { assert("internal_plugin"@.len() != "internal"@.len()); },
            ClientTransport::InternalPlugin => {},
        },
    }
}

/// Why a client could not be authenticated.
#[derive(Debug, Clone, Copy, PartialEq, Eq, Structural)]
pub enum ClientAuthenticationError {
    /// The client API key is invalid.
    InvalidKey,
    /// The runtime snapshot is unavailable.
    SnapshotUnavailable,
    /// The frontend authentication provider is unavailable.
    ProviderUnavailable,
}

/// Verifies a plaintext client API key against the current snapshot.
pub trait ClientKeyVerifier {
    fn verify_client_key(&self, plaintext: &str) -> Result<ClientApiKeyId, ClientAuthenticationError>;
}

/// Receives the fact that a key authenticated successfully; implementations
/// persist it asynchronously and must not block the request.
pub trait ClientApiKeyUsageSink {
    fn record_used(&self, key_id: &ClientApiKeyId);
}

/// Failures of the execution engine.
pub enum EngineError {
    /// The execution store failed.
    Store(StoreError),
    /// No provider of this name is registered.
    ProviderNotRegistered { provider: String },
    /// Provider metadata did not match the selected instance and account.
    ProviderMetadataMismatch,
    /// A native continuation pin did not match the selected account.
    ContinuationPinMismatch,
    /// The provider did not use the account this execution required.
    RequiredAccountMismatch,
    /// The provider execution failed.
    Provider(ProviderError),
    /// The request was cancelled.
    Cancelled,
    /// The request deadline elapsed.
    Deadline,
    /// The routing plan has no candidate.
    EmptyRoutingPlan,
    /// Downstream delivery must be committed before execution can continue.
    DownstreamCommitRequired,
    /// Downstream delivery cannot be committed in the current state.
    InvalidDeliveryState,
}

/// The engine error a provider failure becomes: a cancellation stays a
/// cancellation, anything else carries the provider error.
pub fn provider_engine_error(error: &ProviderError) -> (r: EngineError)
    ensures
        error.spec_kind() == ProviderErrorKind::Cancelled ==> r is Cancelled,
        error.spec_kind() != ProviderErrorKind::Cancelled ==> (r matches EngineError::Provider(e)
            && e.spec_kind() == error.spec_kind() && e.spec_send_state() == error.spec_send_state()
            && e.spec_replay_safe() == error.spec_replay_safe()),
{
    match error.kind() {
        ProviderErrorKind::Cancelled => EngineError::Cancelled,
        _ => EngineError::Provider(error.duplicate()),
    }
}

/// The provider proved that the failed payload may be sent again: it was
/// never sent, or it was not ambiguous and the provider marked it replay-safe.
pub open spec fn replay_proved_safe(send_state: UpstreamSendState, replay_safe: bool) -> bool {
    send_state == UpstreamSendState::NotSent || (send_state != UpstreamSendState::Ambiguous && replay_safe)
}

pub fn provider_proved_replay_safe(error: &ProviderError) -> (r: bool)
    ensures
        r == replay_proved_safe(error.spec_send_state(), error.spec_replay_safe()),
{
    match error.send_state() {
        UpstreamSendState::NotSent => true,
        UpstreamSendState::Ambiguous => false,
        UpstreamSendState::Sent => error.replay_is_safe(),
    }
}

/// The rank of a send state: `NotSent` below `Ambiguous` below `Sent`.
pub open spec fn send_state_rank(s: UpstreamSendState) -> int {
    match s {
        UpstreamSendState::NotSent => 0,
        UpstreamSendState::Ambiguous => 1,
        UpstreamSendState::Sent => 2,
    }
}

/// The merged send state of two attempts: the higher of the two.
pub open spec fn spec_escalate_send_state(a: UpstreamSendState, b: UpstreamSendState) -> UpstreamSendState {
    if send_state_rank(a) >= send_state_rank(b) {
        a
    } else {
        b
    }
}

/// Merges the send states of two attempts; once any attempt reached a
/// higher state, the request as a whole never falls back below it.
pub fn escalate_send_state(a: UpstreamSendState, b: UpstreamSendState) -> (r: UpstreamSendState)
    ensures
        r == spec_escalate_send_state(a, b),
{
    match (a, b) {
        (UpstreamSendState::Sent, _) | (_, UpstreamSendState::Sent) => UpstreamSendState::Sent,
        (UpstreamSendState::Ambiguous, _) | (_, UpstreamSendState::Ambiguous) => UpstreamSendState::Ambiguous,
        (UpstreamSendState::NotSent, UpstreamSendState::NotSent) => UpstreamSendState::NotSent,
    }
}

/// Send-state escalation never lowers a state, does not depend on the order
/// of attempts, and merging a state twice changes nothing.
pub proof fn lemma_escalate_send_state_laws(a: UpstreamSendState, b: UpstreamSendState, c: UpstreamSendState)
    ensures
        send_state_rank(spec_escalate_send_state(a, b)) >= send_state_rank(a),
        send_state_rank(spec_escalate_send_state(a, b)) >= send_state_rank(b),
        spec_escalate_send_state(a, b) == a || spec_escalate_send_state(a, b) == b,
        spec_escalate_send_state(a, b) == spec_escalate_send_state(b, a),
        spec_escalate_send_state(spec_escalate_send_state(a, b), c) == spec_escalate_send_state(a, spec_escalate_send_state(b, c)),
        spec_escalate_send_state(a, a) == a,
{
}

/// `slot`, filled with `value` unless it already holds one.
pub open spec fn first_value(slot: Option<u64>, value: u64) -> Option<u64> {
    match slot {
        Some(v) => Some(v),
        None => Some(value),
    }
}

/// The timings after observing `event` at `elapsed_ms`: the first event of
/// any kind, the first reasoning, the first text, and the first token, which
/// reasoning, text and a tool call with non-empty arguments all count as.
pub open spec fn observed_timings(t: ModelRequestTimings, event: GatewayEvent, elapsed_ms: u64) -> ModelRequestTimings {
    let t1 = ModelRequestTimings { first_event_ms: first_value(t.first_event_ms, elapsed_ms), ..t };
    match event {
        GatewayEvent::ReasoningDelta(_) => ModelRequestTimings {
            first_reasoning_ms: first_value(t1.first_reasoning_ms, elapsed_ms),
            first_token_ms: first_value(t1.first_token_ms, elapsed_ms),
            ..t1
        },
        GatewayEvent::TextDelta(_) => ModelRequestTimings {
            first_text_ms: first_value(t1.first_text_ms, elapsed_ms),
            first_token_ms: first_value(t1.first_token_ms, elapsed_ms),
            ..t1
        },
        GatewayEvent::ToolCallDelta(d) => if d.arguments_delta@.len() > 0 {
            ModelRequestTimings { first_token_ms: first_value(t1.first_token_ms, elapsed_ms), ..t1 }
        } else {
            t1
        },
        _ => t1,
    }
}

/// Records the first-occurrence timings `event` contributes.
pub fn observe_event_timing(timings: &mut ModelRequestTimings, event: &GatewayEvent, elapsed_ms: u64)
    ensures
        *final(timings) == observed_timings(*old(timings), *event, elapsed_ms),
{
    if timings.first_event_ms.is_none() {
        timings.first_event_ms = Some(elapsed_ms);
    }
    match event {
        GatewayEvent::ReasoningDelta(_) => {
            if timings.first_reasoning_ms.is_none() {
                timings.first_reasoning_ms = Some(elapsed_ms);
            }
            if timings.first_token_ms.is_none() {
                timings.first_token_ms = Some(elapsed_ms);
            }
        },
        GatewayEvent::TextDelta(_) => {
            if timings.first_text_ms.is_none() {
                timings.first_text_ms = Some(elapsed_ms);
            }
            if timings.first_token_ms.is_none() {
                timings.first_token_ms = Some(elapsed_ms);
            }
        },
        GatewayEvent::ToolCallDelta(delta) => {
            if delta.arguments_delta.as_str().as_bytes().len() > 0 && timings.first_token_ms.is_none() {
                proof {
                    vstd::utf8::encode_utf8_decode_utf8(delta.arguments_delta@);
                    if delta.arguments_delta@.len() == 0 {
                        assert(encode_utf8(delta.arguments_delta@) =~= Seq::<u8>::empty()) by {
                            assert(delta.arguments_delta@ =~= Seq::<char>::empty());
                        }
                    }
                }
                timings.first_token_ms = Some(elapsed_ms);
            }
            proof {
                if delta.arguments_delta@.len() > 0 && encode_utf8(delta.arguments_delta@).len() == 0 {
                    vstd::utf8::encode_utf8_decode_utf8(delta.arguments_delta@);
                    assert(encode_utf8(delta.arguments_delta@) =~= Seq::<u8>::empty());
                    assert(vstd::utf8::decode_utf8(Seq::<u8>::empty()) =~= Seq::<char>::empty());
                }
            }
        },
        _ => {},
    }
}

/// A recorded first-occurrence timing never changes once it is set.
pub proof fn lemma_first_timings_are_kept(t: ModelRequestTimings, event: GatewayEvent, elapsed_ms: u64)
    ensures
        t.first_event_ms is Some ==> observed_timings(t, event, elapsed_ms).first_event_ms == t.first_event_ms,
        t.first_reasoning_ms is Some ==> observed_timings(t, event, elapsed_ms).first_reasoning_ms == t.first_reasoning_ms,
        t.first_text_ms is Some ==> observed_timings(t, event, elapsed_ms).first_text_ms == t.first_text_ms,
        t.first_token_ms is Some ==> observed_timings(t, event, elapsed_ms).first_token_ms == t.first_token_ms,
        observed_timings(t, event, elapsed_ms).first_event_ms is Some,
        observed_timings(t, event, elapsed_ms).latency_ms == t.latency_ms,
        observed_timings(t, event, elapsed_ms).connect_ms == t.connect_ms,
{
}

/// A span in whole milliseconds, saturated at `u64::MAX`.
pub fn duration_ms(span: TimeSpan) -> (r: u64)
    ensures
        r == (if span.nanos / NANOS_PER_MILLI > u64::MAX { u64::MAX as int } else { (span.nanos / NANOS_PER_MILLI) as int }),
{
    let ms = span.as_millis();
    if ms > u64::MAX as u128 {
        u64::MAX
    } else {
        ms as u64
    }
}

} // verus!
