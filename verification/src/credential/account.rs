//! The persisted, secret-free facts of one provider account.

use vstd::prelude::*;

use crate::credential::ids::{AccountConcurrencyLimit, AccountWeight, CredentialRevision, ProviderAccountId};
use crate::credential::state::{
    resolve_account_status, resolved_status, AccountErrorReason, AccountStatusFacts,
    AccountStatusProjection, CredentialState, QuotaState,
};
use crate::identity::ProviderKind;
use crate::time::UnixTime;

verus! {

/// Secret-free persisted facts of an account.
#[derive(Debug, Clone, PartialEq, Eq)]
pub struct ProviderAccount {
    id: ProviderAccountId,
    provider: ProviderKind,
    name: String,
    email: Option<String>,
    upstream_user_id: Option<String>,
    upstream_account_id: Option<String>,
    plan_type: Option<String>,
    authentication_kind: String,
    revision: CredentialRevision,
    enabled: bool,
    concurrency_limit: Option<AccountConcurrencyLimit>,
    weight: AccountWeight,
    credential_state: CredentialState,
    quota: QuotaState,
    last_error_reason: Option<AccountErrorReason>,
    last_error_message: Option<String>,
    access_token_expires_at: Option<UnixTime>,
    next_refresh_at: Option<UnixTime>,
    has_refresh_token: bool,
}

impl ProviderAccount {
    pub closed spec fn spec_id(&self) -> ProviderAccountId {
        self.id
    }

    pub closed spec fn spec_provider(&self) -> ProviderKind {
        self.provider
    }

    pub closed spec fn spec_name(&self) -> String {
        self.name
    }

    pub closed spec fn spec_email(&self) -> Option<String> {
        self.email
    }

    pub closed spec fn spec_upstream_user_id(&self) -> Option<String> {
        self.upstream_user_id
    }

    pub closed spec fn spec_upstream_account_id(&self) -> Option<String> {
        self.upstream_account_id
    }

    pub closed spec fn spec_plan_type(&self) -> Option<String> {
        self.plan_type
    }

    pub closed spec fn spec_authentication_kind(&self) -> String {
        self.authentication_kind
    }

    pub closed spec fn spec_revision(&self) -> CredentialRevision {
        self.revision
    }

    pub closed spec fn spec_enabled(&self) -> bool {
        self.enabled
    }

    pub closed spec fn spec_concurrency_limit(&self) -> Option<AccountConcurrencyLimit> {
        self.concurrency_limit
    }

    pub closed spec fn spec_weight(&self) -> AccountWeight {
        self.weight
    }

    pub closed spec fn spec_credential_state(&self) -> CredentialState {
        self.credential_state
    }

    pub closed spec fn spec_quota(&self) -> QuotaState {
        self.quota
    }

    pub closed spec fn spec_last_error_reason(&self) -> Option<AccountErrorReason> {
        self.last_error_reason
    }

    pub closed spec fn spec_last_error_message(&self) -> Option<String> {
        self.last_error_message
    }

    pub closed spec fn spec_access_token_expires_at(&self) -> Option<UnixTime> {
        self.access_token_expires_at
    }

    pub closed spec fn spec_next_refresh_at(&self) -> Option<UnixTime> {
        self.next_refresh_at
    }

    pub closed spec fn spec_has_refresh_token(&self) -> bool {
        self.has_refresh_token
    }

    /// A fresh account snapshot: enabled, lowest weight, unverified credential,
    /// unknown quota, no errors and no refresh schedule.
    pub fn new(
        id: ProviderAccountId,
        provider: ProviderKind,
        name: String,
        upstream_user_id: Option<String>,
        authentication_kind: String,
        revision: CredentialRevision,
        access_token_expires_at: Option<UnixTime>,
    ) -> (r: ProviderAccount)
        ensures
            r.spec_id() == id,
            r.spec_provider() == provider,
            r.spec_name() == name,
            r.spec_email() is None,
            r.spec_upstream_user_id() == upstream_user_id,
            r.spec_upstream_account_id() is None,
            r.spec_plan_type() is None,
            r.spec_authentication_kind() == authentication_kind,
            r.spec_revision() == revision,
            r.spec_enabled(),
            r.spec_concurrency_limit() is None,
            r.spec_weight().spec_get() == 1,
            r.spec_credential_state() == CredentialState::Unknown,
            r.spec_quota() == QuotaState::spec_unknown(),
            r.spec_last_error_reason() is None,
            r.spec_last_error_message() is None,
            r.spec_access_token_expires_at() == access_token_expires_at,
            r.spec_next_refresh_at() is None,
            !r.spec_has_refresh_token(),
    {
        ProviderAccount {
            id,
            provider,
            name,
            email: None,
            upstream_user_id,
            upstream_account_id: None,
            plan_type: None,
            authentication_kind,
            revision,
            enabled: true,
            concurrency_limit: None,
            weight: AccountWeight::lowest(),
            credential_state: CredentialState::Unknown,
            quota: QuotaState::unknown(),
            last_error_reason: None,
            last_error_message: None,
            access_token_expires_at,
            next_refresh_at: None,
            has_refresh_token: false,
        }
    }

    /// Sets the optional profile fields.
    pub fn with_profile(self, email: Option<String>, upstream_account_id: Option<String>, plan_type: Option<String>) -> (r: ProviderAccount)
        ensures
            r.spec_email() == email,
            r.spec_upstream_account_id() == upstream_account_id,
            r.spec_plan_type() == plan_type,
            r.spec_id() == self.spec_id(),
            r.spec_provider() == self.spec_provider(),
            r.spec_name() == self.spec_name(),
            r.spec_upstream_user_id() == self.spec_upstream_user_id(),
            r.spec_authentication_kind() == self.spec_authentication_kind(),
            r.spec_revision() == self.spec_revision(),
            r.spec_enabled() == self.spec_enabled(),
            r.spec_concurrency_limit() == self.spec_concurrency_limit(),
            r.spec_weight() == self.spec_weight(),
            r.spec_credential_state() == self.spec_credential_state(),
            r.spec_quota() == self.spec_quota(),
            r.spec_last_error_reason() == self.spec_last_error_reason(),
            r.spec_last_error_message() == self.spec_last_error_message(),
            r.spec_access_token_expires_at() == self.spec_access_token_expires_at(),
            r.spec_next_refresh_at() == self.spec_next_refresh_at(),
            r.spec_has_refresh_token() == self.spec_has_refresh_token(),
    {
        let mut a = self;
        a.email = email;
        a.upstream_account_id = upstream_account_id;
        a.plan_type = plan_type;
        a
    }

    /// Sets the account facts; without an upstream user id the credential stays unverified.
    pub fn with_account_facts(self, enabled: bool, credential_state: CredentialState, quota: QuotaState, last_error_reason: Option<AccountErrorReason>, last_error_message: Option<String>) -> (r: ProviderAccount)
        ensures
            r.spec_enabled() == enabled,
            self.spec_upstream_user_id() is Some ==> r.spec_credential_state() == credential_state,
            self.spec_upstream_user_id() is None ==> r.spec_credential_state() == CredentialState::Unknown,
            r.spec_quota() == quota,
            r.spec_last_error_reason() == last_error_reason,
            r.spec_last_error_message() == last_error_message,
            r.spec_id() == self.spec_id(),
            r.spec_provider() == self.spec_provider(),
            r.spec_name() == self.spec_name(),
            r.spec_email() == self.spec_email(),
            r.spec_upstream_user_id() == self.spec_upstream_user_id(),
            r.spec_upstream_account_id() == self.spec_upstream_account_id(),
            r.spec_plan_type() == self.spec_plan_type(),
            r.spec_authentication_kind() == self.spec_authentication_kind(),
            r.spec_revision() == self.spec_revision(),
            r.spec_concurrency_limit() == self.spec_concurrency_limit(),
            r.spec_weight() == self.spec_weight(),
            r.spec_access_token_expires_at() == self.spec_access_token_expires_at(),
            r.spec_next_refresh_at() == self.spec_next_refresh_at(),
            r.spec_has_refresh_token() == self.spec_has_refresh_token(),
    {
        let mut a = self;
        a.enabled = enabled;
        a.credential_state = if a.upstream_user_id.is_some() {
            credential_state
        } else {
            CredentialState::Unknown
        };
        a.quota = quota;
        a.last_error_reason = last_error_reason;
        a.last_error_message = last_error_message;
        a
    }

    /// Sets the per-account concurrency override and weight.
    pub fn with_scheduling(self, concurrency_limit: Option<AccountConcurrencyLimit>, weight: AccountWeight) -> (r: ProviderAccount)
        ensures
            r.spec_concurrency_limit() == concurrency_limit,
            r.spec_weight() == weight,
            r.spec_id() == self.spec_id(),
            r.spec_provider() == self.spec_provider(),
            r.spec_name() == self.spec_name(),
            r.spec_email() == self.spec_email(),
            r.spec_upstream_user_id() == self.spec_upstream_user_id(),
            r.spec_upstream_account_id() == self.spec_upstream_account_id(),
            r.spec_plan_type() == self.spec_plan_type(),
            r.spec_authentication_kind() == self.spec_authentication_kind(),
            r.spec_revision() == self.spec_revision(),
            r.spec_enabled() == self.spec_enabled(),
            r.spec_credential_state() == self.spec_credential_state(),
            r.spec_quota() == self.spec_quota(),
            r.spec_last_error_reason() == self.spec_last_error_reason(),
            r.spec_last_error_message() == self.spec_last_error_message(),
            r.spec_access_token_expires_at() == self.spec_access_token_expires_at(),
            r.spec_next_refresh_at() == self.spec_next_refresh_at(),
            r.spec_has_refresh_token() == self.spec_has_refresh_token(),
    {
        let mut a = self;
        a.concurrency_limit = concurrency_limit;
        a.weight = weight;
        a
    }

    /// Sets refresh-token presence and the earliest retry after a failed refresh.
    pub fn with_refresh_schedule(self, has_refresh_token: bool, next_refresh_at: Option<UnixTime>) -> (r: ProviderAccount)
        ensures
            r.spec_has_refresh_token() == has_refresh_token,
            r.spec_next_refresh_at() == next_refresh_at,
            r.spec_id() == self.spec_id(),
            r.spec_provider() == self.spec_provider(),
            r.spec_name() == self.spec_name(),
            r.spec_email() == self.spec_email(),
            r.spec_upstream_user_id() == self.spec_upstream_user_id(),
            r.spec_upstream_account_id() == self.spec_upstream_account_id(),
            r.spec_plan_type() == self.spec_plan_type(),
            r.spec_authentication_kind() == self.spec_authentication_kind(),
            r.spec_revision() == self.spec_revision(),
            r.spec_enabled() == self.spec_enabled(),
            r.spec_concurrency_limit() == self.spec_concurrency_limit(),
            r.spec_weight() == self.spec_weight(),
            r.spec_credential_state() == self.spec_credential_state(),
            r.spec_quota() == self.spec_quota(),
            r.spec_last_error_reason() == self.spec_last_error_reason(),
            r.spec_last_error_message() == self.spec_last_error_message(),
            r.spec_access_token_expires_at() == self.spec_access_token_expires_at(),
    {
        let mut a = self;
        a.has_refresh_token = has_refresh_token;
        a.next_refresh_at = next_refresh_at;
        a
    }

    pub fn id(&self) -> (r: &ProviderAccountId)
        ensures
            *r == self.spec_id(),
    {
        &self.id
    }

    pub fn provider(&self) -> (r: &ProviderKind)
        ensures
            *r == self.spec_provider(),
    {
        &self.provider
    }

    pub fn name(&self) -> (r: &str)
        ensures
            r@ == self.spec_name()@,
    {
        self.name.as_str()
    }

    pub fn email(&self) -> (r: Option<&str>)
        ensures
            r is Some == self.spec_email() is Some,
            r is Some ==> r->0@ == self.spec_email()->0@,
    {
        match &self.email {
            Some(v) => Some(v.as_str()),
            None => None,
        }
    }

    pub fn upstream_user_id(&self) -> (r: Option<&str>)
        ensures
            r is Some == self.spec_upstream_user_id() is Some,
            r is Some ==> r->0@ == self.spec_upstream_user_id()->0@,
    {
        match &self.upstream_user_id {
            Some(v) => Some(v.as_str()),
            None => None,
        }
    }

    pub fn upstream_account_id(&self) -> (r: Option<&str>)
        ensures
            r is Some == self.spec_upstream_account_id() is Some,
            r is Some ==> r->0@ == self.spec_upstream_account_id()->0@,
    {
        match &self.upstream_account_id {
            Some(v) => Some(v.as_str()),
            None => None,
        }
    }

    pub fn plan_type(&self) -> (r: Option<&str>)
        ensures
            r is Some == self.spec_plan_type() is Some,
            r is Some ==> r->0@ == self.spec_plan_type()->0@,
    {
        match &self.plan_type {
            Some(v) => Some(v.as_str()),
            None => None,
        }
    }

    pub fn authentication_kind(&self) -> (r: &str)
        ensures
            r@ == self.spec_authentication_kind()@,
    {
        self.authentication_kind.as_str()
    }

    pub fn revision(&self) -> (r: CredentialRevision)
        ensures
            r == self.spec_revision(),
    {
        self.revision
    }

    pub fn enabled(&self) -> (r: bool)
        ensures
            r == self.spec_enabled(),
    {
        self.enabled
    }

    pub fn concurrency_limit(&self) -> (r: Option<AccountConcurrencyLimit>)
        ensures
            r == self.spec_concurrency_limit(),
    {
        self.concurrency_limit
    }

    pub fn weight(&self) -> (r: AccountWeight)
        ensures
            r == self.spec_weight(),
    {
        self.weight
    }

    pub fn credential_state(&self) -> (r: CredentialState)
        ensures
            r == self.spec_credential_state(),
    {
        self.credential_state
    }

    pub fn quota(&self) -> (r: QuotaState)
        ensures
            r == self.spec_quota(),
    {
        self.quota
    }

    pub fn last_error_reason(&self) -> (r: Option<AccountErrorReason>)
        ensures
            r == self.spec_last_error_reason(),
    {
        self.last_error_reason
    }

    pub fn last_error_message(&self) -> (r: Option<&str>)
        ensures
            r is Some == self.spec_last_error_message() is Some,
            r is Some ==> r->0@ == self.spec_last_error_message()->0@,
    {
        match &self.last_error_message {
            Some(v) => Some(v.as_str()),
            None => None,
        }
    }

    pub fn access_token_expires_at(&self) -> (r: Option<UnixTime>)
        ensures
            r == self.spec_access_token_expires_at(),
    {
        self.access_token_expires_at
    }

    pub fn next_refresh_at(&self) -> (r: Option<UnixTime>)
        ensures
            r == self.spec_next_refresh_at(),
    {
        self.next_refresh_at
    }

    pub fn has_refresh_token(&self) -> (r: bool)
        ensures
            r == self.spec_has_refresh_token(),
    {
        self.has_refresh_token
    }

    /// The account override, else the policy default.
    pub open spec fn spec_effective_concurrency(&self, default: u32) -> u32 {
        match self.spec_concurrency_limit() {
            Some(limit) => limit.spec_get(),
            None => default,
        }
    }

    pub fn effective_concurrency(&self, default: u32) -> (r: u32)
        requires
            default > 0,
        ensures
            r == self.spec_effective_concurrency(default),
            r > 0,
    {
        match self.concurrency_limit {
            Some(limit) => limit.into_non_zero(),
            None => default,
        }
    }

    /// The persisted facts combined with a request-level cooldown.
    pub open spec fn spec_status_facts(&self, rate_limited_until: Option<UnixTime>) -> AccountStatusFacts {
        AccountStatusFacts {
            enabled: self.spec_enabled(),
            credential_state: self.spec_credential_state(),
            access_token_expires_at: self.spec_access_token_expires_at(),
            quota: self.spec_quota(),
            rate_limited_until,
            last_error_reason: self.spec_last_error_reason(),
            last_error_message: self.spec_last_error_message(),
        }
    }

    /// Combines persisted facts with the request cooldown and asks the single resolver.
    pub fn status_projection(&self, now: UnixTime, rate_limited_until: Option<UnixTime>) -> (r:
        AccountStatusProjection)
        ensures
            r == resolved_status(self.spec_status_facts(rate_limited_until), now),
    {
        let message = match &self.last_error_message {
            Some(m) => Some(m.clone()),
            None => None,
        };
        let facts = AccountStatusFacts {
            enabled: self.enabled,
            credential_state: self.credential_state,
            access_token_expires_at: self.access_token_expires_at,
            quota: self.quota,
            rate_limited_until,
            last_error_reason: self.last_error_reason,
            last_error_message: message,
        };
        resolve_account_status(&facts, now)
    }
}

} // verus!
