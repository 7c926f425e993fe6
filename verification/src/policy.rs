//! Admission policy of downstream client API keys.
//!
//! A client API key is bound to one provider platform; model names play no
//! part in rewriting or allow-lists.

pub mod client_version;

use vstd::prelude::*;
use vstd::string::StringSliceAdditionalSpecFns;

use crate::identity::ProviderKind;
use crate::text::{text_error_of, text_is_valid, validate_text, IdentifierError};

verus! {

/// Why the policy refused a request.
#[derive(Debug, Clone, Copy, PartialEq, Eq)]
pub enum PolicyError {
    /// Refused, with a stable reason.
    Denied { reason: &'static str },
}

/// The id of a `client_api_keys` row: 1 to 128 bytes, no control bytes or whitespace.
#[derive(Debug, Clone, PartialEq, Eq, PartialOrd, Ord, Hash)]
pub struct ClientApiKeyId(String);

impl View for ClientApiKeyId {
    type V = Seq<char>;

    closed spec fn view(&self) -> Seq<char> {
        self.0@
    }
}

impl ClientApiKeyId {
    /// Validates and wraps a key id.
    pub fn new(value: String) -> (r: Result<ClientApiKeyId, IdentifierError>)
        ensures
            r matches Ok(id) ==> id@ == value@,
            r is Ok <==> text_error_of(value@, 128, false, None) is None,
            r matches Err(e) ==> text_error_of(value@, 128, false, None) == Some(e),
    {
        match validate_text(value.as_str(), 128, false, None) {
            Ok(()) => Ok(ClientApiKeyId(value)),
            Err(e) => Err(e),
        }
    }

    pub fn as_str(&self) -> (r: &str)
        ensures
            r@ == self@,
    {
        self.0.as_str()
    }

    pub fn duplicate(&self) -> (r: ClientApiKeyId)
        ensures
            r == *self,
    {
        ClientApiKeyId(self.0.clone())
    }
}

/// A plaintext client API key used for synchronous authentication: 1 to 512
/// bytes, no control bytes or whitespace. It has no `Debug`, so that it
/// cannot reach logs by accident.
#[derive(Clone, PartialEq, Eq)]
pub struct PlaintextClientApiKey(String);

impl View for PlaintextClientApiKey {
    type V = Seq<char>;

    closed spec fn view(&self) -> Seq<char> {
        self.0@
    }
}

impl PlaintextClientApiKey {
    /// Validates and wraps a plaintext key.
    pub fn new(value: String) -> (r: Result<PlaintextClientApiKey, IdentifierError>)
        ensures
            r matches Ok(k) ==> k@ == value@,
            r is Ok <==> text_error_of(value@, 512, false, None) is None,
            r matches Err(e) ==> text_error_of(value@, 512, false, None) == Some(e),
    {
        match validate_text(value.as_str(), 512, false, None) {
            Ok(()) => Ok(PlaintextClientApiKey(value)),
            Err(e) => Err(e),
        }
    }

    /// Lends the key to the authenticator for a constant-time comparison.
    pub fn expose_for_auth(&self) -> (r: &str)
        ensures
            r@ == self@,
    {
        self.0.as_str()
    }
}

/// Rate limits; zero means that dimension is not limited.
#[derive(Debug, Clone, Copy, PartialEq, Eq, Structural)]
pub struct RateLimits {
    pub max_concurrency: u64,
    pub requests_per_minute: u64,
    pub tokens_per_minute: u64,
}

impl Default for RateLimits {
    fn default() -> (r: RateLimits)
        ensures
            r == RateLimits::spec_unlimited(),
    {
        RateLimits::unlimited()
    }
}

impl RateLimits {
    pub open spec fn spec_unlimited() -> RateLimits {
        RateLimits { max_concurrency: 0, requests_per_minute: 0, tokens_per_minute: 0 }
    }

    pub fn unlimited() -> (r: RateLimits)
        ensures
            r == RateLimits::spec_unlimited(),
    {
        RateLimits { max_concurrency: 0, requests_per_minute: 0, tokens_per_minute: 0 }
    }
}

/// The units one admission freezes.
#[derive(Debug, Clone, Copy, PartialEq, Eq, Structural)]
pub struct AdmissionUnits {
    pub requests: u64,
    pub estimated_tokens: u64,
}

impl AdmissionUnits {
    /// Every model call consumes at least one request unit.
    pub fn new(requests: u64, estimated_tokens: u64) -> (r: Result<AdmissionUnits, PolicyError>)
        ensures
            requests > 0 ==> r == Ok::<AdmissionUnits, PolicyError>(
                AdmissionUnits { requests, estimated_tokens },
            ),
            requests == 0 ==> (r matches Err(PolicyError::Denied { reason })
                && reason@ == "request units must be positive"@),
    {
        if requests == 0 {
            return Err(PolicyError::Denied { reason: "request units must be positive" });
        }
        Ok(AdmissionUnits { requests, estimated_tokens })
    }
}

/// The public admission facts frozen from a `client_api_keys` row.
#[derive(Clone, PartialEq, Eq)]
pub struct ClientPolicy {
    key_id: ClientApiKeyId,
    plaintext_key: PlaintextClientApiKey,
    provider_kind: ProviderKind,
    enabled: bool,
    limits: RateLimits,
}

impl ClientPolicy {
    pub closed spec fn spec_key_id(&self) -> ClientApiKeyId {
        self.key_id
    }

    pub closed spec fn spec_plaintext_key(&self) -> PlaintextClientApiKey {
        self.plaintext_key
    }

    pub closed spec fn spec_provider_kind(&self) -> ProviderKind {
        self.provider_kind
    }

    pub closed spec fn spec_enabled(&self) -> bool {
        self.enabled
    }

    pub closed spec fn spec_limits(&self) -> RateLimits {
        self.limits
    }

    pub fn new(
        key_id: ClientApiKeyId,
        plaintext_key: PlaintextClientApiKey,
        provider_kind: ProviderKind,
        enabled: bool,
        limits: RateLimits,
    ) -> (r: ClientPolicy)
        ensures
            r.spec_key_id() == key_id,
            r.spec_plaintext_key() == plaintext_key,
            r.spec_provider_kind() == provider_kind,
            r.spec_enabled() == enabled,
            r.spec_limits() == limits,
    {
        ClientPolicy { key_id, plaintext_key, provider_kind, enabled, limits }
    }

    pub fn key_id(&self) -> (r: &ClientApiKeyId)
        ensures
            *r == self.spec_key_id(),
    {
        &self.key_id
    }

    pub fn plaintext_key(&self) -> (r: &PlaintextClientApiKey)
        ensures
            *r == self.spec_plaintext_key(),
    {
        &self.plaintext_key
    }

    pub fn provider_kind(&self) -> (r: &ProviderKind)
        ensures
            *r == self.spec_provider_kind(),
    {
        &self.provider_kind
    }

    pub fn enabled(&self) -> (r: bool)
        ensures
            r == self.spec_enabled(),
    {
        self.enabled
    }

    pub fn limits(&self) -> (r: RateLimits)
        ensures
            r == self.spec_limits(),
    {
        self.limits
    }

    /// A disabled key accepts no new request.
    pub fn authorize(&self) -> (r: Result<(), PolicyError>)
        ensures
            self.spec_enabled() ==> r is Ok,
            !self.spec_enabled() ==> (r matches Err(PolicyError::Denied { reason })
                && reason@ == "client API key is disabled"@),
    {
        if self.enabled {
            Ok(())
        } else {
            Err(PolicyError::Denied { reason: "client API key is disabled" })
        }
    }
}

} // verus!
