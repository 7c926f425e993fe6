//! Caller isolation, account binding and reuse limits of provider-native
//! previous-response handles.

use vstd::prelude::*;

use crate::credential::ids::ProviderAccountId;
use crate::identity::ProviderKind;
use crate::operation::ProviderSessionState;
use crate::policy::ClientApiKeyId;

verus! {

/// An opaque response handle a client or provider passes along. The
/// gateway never rejects, normalises or rewrites it. It has no `Debug`.
#[derive(Clone, PartialEq, Eq, PartialOrd, Ord, Hash)]
pub struct PreviousResponseId(String);

impl View for PreviousResponseId {
    type V = Seq<char>;

    closed spec fn view(&self) -> Seq<char> {
        self.0@
    }
}

impl PreviousResponseId {
    /// Wraps a handle as it is.
    pub fn new(value: String) -> (r: PreviousResponseId)
        ensures
            r@ == value@,
    {
        PreviousResponseId(value)
    }

    pub fn as_str(&self) -> (r: &str)
        ensures
            r@ == self@,
    {
        self.0.as_str()
    }

    pub fn duplicate(&self) -> (r: PreviousResponseId)
        ensures
            r@ == self@,
    {
        PreviousResponseId(self.0.clone())
    }
}

/// How far a provider-native response handle can be continued.
#[derive(Debug, Clone, Copy, PartialEq, Eq, Structural)]
pub enum NativeContinuationScope {
    /// The upstream persisted it; a new connection of the same account may continue.
    Persisted,
    /// It lives only on the WebSocket that completed the previous turn.
    ConnectionLocal,
}

/// A native previous-response pin restored from the lossy affinity store.
/// It binds the calling API key, the provider and the account, so that a
/// native handle and opaque provider state are never reused across tenants
/// or upstream targets. It has no `Debug`.
#[derive(Clone, PartialEq)]
pub struct NativeContinuationPin {
    previous_response_id: PreviousResponseId,
    upstream_response_id: PreviousResponseId,
    client_api_key_id: ClientApiKeyId,
    provider: ProviderKind,
    account: ProviderAccountId,
    scope: NativeContinuationScope,
    session_state: Option<ProviderSessionState>,
}

impl NativeContinuationPin {
    pub closed spec fn spec_previous_response_id(&self) -> PreviousResponseId {
        self.previous_response_id
    }

    pub closed spec fn spec_upstream_response_id(&self) -> PreviousResponseId {
        self.upstream_response_id
    }

    pub closed spec fn spec_client_api_key_id(&self) -> ClientApiKeyId {
        self.client_api_key_id
    }

    pub closed spec fn spec_provider(&self) -> ProviderKind {
        self.provider
    }

    pub closed spec fn spec_account(&self) -> ProviderAccountId {
        self.account
    }

    pub closed spec fn spec_scope(&self) -> NativeContinuationScope {
        self.scope
    }

    pub closed spec fn spec_session_state(&self) -> Option<ProviderSessionState> {
        self.session_state
    }

    /// A pin that is connection-local until the store confirms otherwise.
    pub fn new(
        previous_response_id: PreviousResponseId,
        upstream_response_id: PreviousResponseId,
        client_api_key_id: ClientApiKeyId,
        provider: ProviderKind,
        account: ProviderAccountId,
    ) -> (r: NativeContinuationPin)
        ensures
            r.spec_previous_response_id() == previous_response_id,
            r.spec_upstream_response_id() == upstream_response_id,
            r.spec_client_api_key_id() == client_api_key_id,
            r.spec_provider() == provider,
            r.spec_account() == account,
            r.spec_scope() == NativeContinuationScope::ConnectionLocal,
            r.spec_session_state() is None,
    {
        NativeContinuationPin {
            previous_response_id,
            upstream_response_id,
            client_api_key_id,
            provider,
            account,
            scope: NativeContinuationScope::ConnectionLocal,
            session_state: None,
        }
    }

    /// Sets the continuation scope the store confirmed.
    pub fn with_scope(self, scope: NativeContinuationScope) -> (r: NativeContinuationPin)
        ensures
            r.spec_scope() == scope,
            r.spec_previous_response_id() == self.spec_previous_response_id(),
            r.spec_upstream_response_id() == self.spec_upstream_response_id(),
            r.spec_client_api_key_id() == self.spec_client_api_key_id(),
            r.spec_provider() == self.spec_provider(),
            r.spec_account() == self.spec_account(),
            r.spec_session_state() == self.spec_session_state(),
    {
        let mut p = self;
        p.scope = scope;
        p
    }

    /// Attaches opaque session state that only this provider interprets.
    pub fn with_session_state(self, state: ProviderSessionState) -> (r: NativeContinuationPin)
        ensures
            r.spec_session_state() == Some(state),
            r.spec_scope() == self.spec_scope(),
            r.spec_previous_response_id() == self.spec_previous_response_id(),
            r.spec_upstream_response_id() == self.spec_upstream_response_id(),
            r.spec_client_api_key_id() == self.spec_client_api_key_id(),
            r.spec_provider() == self.spec_provider(),
            r.spec_account() == self.spec_account(),
    {
        let mut p = self;
        p.session_state = Some(state);
        p
    }

    pub fn previous_response_id(&self) -> (r: &PreviousResponseId)
        ensures
            *r == self.spec_previous_response_id(),
    {
        &self.previous_response_id
    }

    /// The native upstream handle, only to be sent to the frozen provider target.
    pub fn upstream_response_id(&self) -> (r: &PreviousResponseId)
        ensures
            *r == self.spec_upstream_response_id(),
    {
        &self.upstream_response_id
    }

    pub fn client_api_key_id(&self) -> (r: &ClientApiKeyId)
        ensures
            *r == self.spec_client_api_key_id(),
    {
        &self.client_api_key_id
    }

    /// Whether the pin belongs to this client API key.
    pub fn matches_client(&self, client_api_key_id: &ClientApiKeyId) -> (r: bool)
        ensures
            r == (self.spec_client_api_key_id()@ == client_api_key_id@),
    {
        crate::text::str_equal(self.client_api_key_id.as_str(), client_api_key_id.as_str())
    }

    pub fn provider(&self) -> (r: &ProviderKind)
        ensures
            *r == self.spec_provider(),
    {
        &self.provider
    }

    pub fn account(&self) -> (r: &ProviderAccountId)
        ensures
            *r == self.spec_account(),
    {
        &self.account
    }

    pub fn scope(&self) -> (r: NativeContinuationScope)
        ensures
            r == self.spec_scope(),
    {
        self.scope
    }

    /// The provider-private session state bound to the same account as the pin.
    pub fn session_state(&self) -> (r: Option<&ProviderSessionState>)
        ensures
            r is Some == self.spec_session_state() is Some,
            r is Some ==> *r->0 == self.spec_session_state()->0,
    {
        match &self.session_state {
            Some(s) => Some(s),
            None => None,
        }
    }

    /// Whether this route and account selection keeps the native pin.
    pub fn matches(&self, provider: &ProviderKind, account: &ProviderAccountId) -> (r: bool)
        ensures
            r == (self.spec_provider()@ == provider@ && self.spec_account()@ == account@),
    {
        self.provider.same_as(provider) && self.account.same_as(account)
    }
}

/// How a request finally binds its previous response: a gateway-known
/// handle carries the full account pin; an unknown external handle keeps
/// only the client's opaque id. It has no `Debug`.
#[derive(Clone, PartialEq)]
pub enum ContinuationBinding {
    Pinned(NativeContinuationPin),
    External(PreviousResponseId),
}

impl ContinuationBinding {
    pub fn previous_response_id(&self) -> (r: &PreviousResponseId)
        ensures
            *r == (match *self {
                ContinuationBinding::Pinned(pin) => pin.spec_previous_response_id(),
                ContinuationBinding::External(id) => id,
            }),
    {
        match self {
            ContinuationBinding::Pinned(pin) => pin.previous_response_id(),
            ContinuationBinding::External(id) => id,
        }
    }

    pub fn pinned(&self) -> (r: Option<&NativeContinuationPin>)
        ensures
            (match *self {
                ContinuationBinding::Pinned(pin) => r is Some && *r->0 == pin,
                ContinuationBinding::External(_) => r is None,
            }),
    {
        match self {
            ContinuationBinding::Pinned(pin) => Some(pin),
            ContinuationBinding::External(_) => None,
        }
    }
}

/// The stable failure categories of a native continuation lookup.
#[derive(Debug, Clone, Copy, PartialEq, Eq, Structural, Hash)]
pub enum NativeContinuationStoreErrorKind {
    /// The lossy coordination store is unavailable; callers may fail open as an external continuation.
    Unavailable,
    /// The stored record cannot be restored into a trusted pin; the raw handle must not reach the upstream.
    InvalidData,
    /// The record belongs to another client API key; callers must fail closed.
    OwnershipMismatch,
}

/// A native continuation store failure; its detail never holds a response handle.
#[derive(Debug, Clone, PartialEq, Eq)]
pub struct NativeContinuationStoreError {
    kind: NativeContinuationStoreErrorKind,
    detail: String,
}

impl NativeContinuationStoreError {
    pub closed spec fn spec_kind(&self) -> NativeContinuationStoreErrorKind {
        self.kind
    }

    pub closed spec fn spec_detail(&self) -> Seq<char> {
        self.detail@
    }

    /// The coordination store is unavailable; callers may fail open.
    pub fn unavailable(detail: String) -> (r: NativeContinuationStoreError)
        ensures
            r.spec_kind() == NativeContinuationStoreErrorKind::Unavailable,
            r.spec_detail() == detail@,
    {
        NativeContinuationStoreError { kind: NativeContinuationStoreErrorKind::Unavailable, detail }
    }

    /// The record is invalid; callers must fail closed.
    pub fn invalid_data(detail: String) -> (r: NativeContinuationStoreError)
        ensures
            r.spec_kind() == NativeContinuationStoreErrorKind::InvalidData,
            r.spec_detail() == detail@,
    {
        NativeContinuationStoreError { kind: NativeContinuationStoreErrorKind::InvalidData, detail }
    }

    /// The record belongs to another caller; the detail says no more than that.
    pub fn ownership_mismatch() -> (r: NativeContinuationStoreError)
        ensures
            r.spec_kind() == NativeContinuationStoreErrorKind::OwnershipMismatch,
            r.spec_detail() == "continuation belongs to a different client API key"@,
    {
        NativeContinuationStoreError {
            kind: NativeContinuationStoreErrorKind::OwnershipMismatch,
            detail: "continuation belongs to a different client API key".to_owned(),
        }
    }

    pub fn kind(&self) -> (r: NativeContinuationStoreErrorKind)
        ensures
            r == self.spec_kind(),
    {
        self.kind
    }

    pub fn detail(&self) -> (r: &str)
        ensures
            r@ == self.spec_detail(),
    {
        self.detail.as_str()
    }
}

} // verus!
