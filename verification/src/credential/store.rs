//! The values that cross the account store's boundary: plaintext credentials,
//! revision-fenced writes and their outcomes.

use vstd::prelude::*;

use crate::credential::account::ProviderAccount;
use crate::credential::ids::{CredentialError, CredentialRevision, ProviderAccountId};
use crate::credential::state::{AccountErrorReason, CredentialState, QuotaState};
use crate::text::{is_blank, trim_spec};
use crate::time::UnixTime;

verus! {

/// A provider-owned plaintext credential JSON object. The core never reads
/// its tokens or keys; it has no `Debug`.
#[derive(Clone, PartialEq)]
pub struct PlaintextCredential(serde_json::Map<String, serde_json::Value>);

impl PlaintextCredential {
    pub closed spec fn spec_object(&self) -> serde_json::Map<String, serde_json::Value> {
        self.0
    }

    /// Takes an object that the provider has fully validated.
    pub fn new(value: serde_json::Map<String, serde_json::Value>) -> (r: PlaintextCredential)
        ensures
            r.spec_object() == value,
    {
        PlaintextCredential(value)
    }

    /// Lends the object to the provider adapter that owns it.
    pub fn expose_to_provider(&self) -> (r: &serde_json::Map<String, serde_json::Value>)
        ensures
            *r == self.spec_object(),
    {
        &self.0
    }

    /// Hands the object to the store adapter.
    pub fn into_inner(self) -> (r: serde_json::Map<String, serde_json::Value>)
        ensures
            r == self.spec_object(),
    {
        self.0
    }
}

/// Any provider-owned JSON object; the core carries it and reads no key.
#[derive(Clone, PartialEq)]
pub struct OpaqueProviderData(serde_json::Map<String, serde_json::Value>);

impl OpaqueProviderData {
    pub closed spec fn spec_object(&self) -> serde_json::Map<String, serde_json::Value> {
        self.0
    }

    pub fn new(value: serde_json::Map<String, serde_json::Value>) -> (r: OpaqueProviderData)
        ensures
            r.spec_object() == value,
    {
        OpaqueProviderData(value)
    }

    pub fn expose_to_provider(&self) -> (r: &serde_json::Map<String, serde_json::Value>)
        ensures
            *r == self.spec_object(),
    {
        &self.0
    }

    pub fn into_inner(self) -> (r: serde_json::Map<String, serde_json::Value>)
        ensures
            r == self.spec_object(),
    {
        self.0
    }
}

/// An account as the store reads it, with its plaintext credential.
#[derive(Clone, PartialEq)]
pub struct LoadedCredential {
    pub account: ProviderAccount,
    pub credential: PlaintextCredential,
}

/// The one-time plaintext input that creates an account.
#[derive(Clone, PartialEq)]
pub struct NewProviderAccount {
    pub account: ProviderAccount,
    pub credential: PlaintextCredential,
}

/// Management fields that change without a new credential revision.
#[derive(Debug, Clone, PartialEq, Eq)]
pub struct ProviderAccountUpdate {
    pub account_id: ProviderAccountId,
    pub name: String,
    pub email: Option<String>,
    pub plan_type: Option<String>,
}

/// Account error facts committed in the same transaction as a credential
/// revision swap.
#[derive(Debug, Clone, PartialEq, Eq)]
pub struct CredentialStateWrite {
    pub credential_state: CredentialState,
    pub observed_at: UnixTime,
    pub error_reason: Option<AccountErrorReason>,
    pub message: Option<String>,
}

/// The named fields of a [`CredentialCasUpdate`] across the store boundary.
pub struct CredentialCasUpdateParts {
    pub account_id: ProviderAccountId,
    pub expected_revision: CredentialRevision,
    pub profile: ProviderAccountUpdate,
    pub credential: PlaintextCredential,
    pub has_refresh_token: bool,
    pub access_token_expires_at: Option<UnixTime>,
    pub next_refresh_at: Option<UnixTime>,
    pub account_state: Option<Box<CredentialStateWrite>>,
}

/// A message is kept only when it holds more than whitespace.
pub open spec fn kept_message(message: Option<String>) -> Option<String> {
    match message {
        Some(m) => if trim_spec(m@).len() == 0 { None } else { Some(m) },
        None => None,
    }
}

/// The error reason recorded with a state write: a ready credential keeps
/// the given reason only beside a message; any other state falls back to
/// the reason the state itself implies.
pub open spec fn written_error_reason(
    credential_state: CredentialState,
    message: Option<String>,
    error_reason: Option<AccountErrorReason>,
) -> Option<AccountErrorReason> {
    if credential_state == CredentialState::Ready {
        if message is Some { error_reason } else { None }
    } else {
        match error_reason {
            Some(r) => Some(r),
            None => credential_state.spec_error_reason(),
        }
    }
}

/// The complete credential write-back after a refresh, fenced by the
/// revision it was read at.
#[derive(Clone, PartialEq)]
pub struct CredentialCasUpdate {
    account_id: ProviderAccountId,
    expected_revision: CredentialRevision,
    profile: ProviderAccountUpdate,
    credential: PlaintextCredential,
    has_refresh_token: bool,
    access_token_expires_at: Option<UnixTime>,
    next_refresh_at: Option<UnixTime>,
    account_state: Option<Box<CredentialStateWrite>>,
}

impl CredentialCasUpdate {
    /// All fields, as [`CredentialCasUpdate::into_parts`] hands them out.
    pub closed spec fn spec_parts(&self) -> CredentialCasUpdateParts {
        CredentialCasUpdateParts {
            account_id: self.account_id,
            expected_revision: self.expected_revision,
            profile: self.profile,
            credential: self.credential,
            has_refresh_token: self.has_refresh_token,
            access_token_expires_at: self.access_token_expires_at,
            next_refresh_at: self.next_refresh_at,
            account_state: self.account_state,
        }
    }

    /// A full credential and profile write-back under one revision fence.
    /// Fails when the profile names another account, or when a next refresh
    /// is scheduled without a refresh token.
    pub fn new(
        account_id: ProviderAccountId,
        expected_revision: CredentialRevision,
        profile: ProviderAccountUpdate,
        credential: PlaintextCredential,
        has_refresh_token: bool,
        access_token_expires_at: Option<UnixTime>,
        next_refresh_at: Option<UnixTime>,
    ) -> (r: Result<CredentialCasUpdate, CredentialError>)
        ensures
            profile.account_id@ != account_id@ ==> r == Err::<CredentialCasUpdate, CredentialError>(
                CredentialError::ProfileAccountMismatch,
            ),
            profile.account_id@ == account_id@ && !has_refresh_token && next_refresh_at is Some
                ==> r == Err::<CredentialCasUpdate, CredentialError>(CredentialError::InvalidRefreshSchedule),
            profile.account_id@ == account_id@ && (has_refresh_token || next_refresh_at is None) ==> (
            r matches Ok(u) && u.spec_parts() == (CredentialCasUpdateParts {
                account_id,
                expected_revision,
                profile,
                credential,
                has_refresh_token,
                access_token_expires_at,
                next_refresh_at,
                account_state: None,
            })),
    {
        if !profile.account_id.same_as(&account_id) {
            return Err(CredentialError::ProfileAccountMismatch);
        }
        if !has_refresh_token && next_refresh_at.is_some() {
            return Err(CredentialError::InvalidRefreshSchedule);
        }
        Ok(CredentialCasUpdate {
            account_id,
            expected_revision,
            profile,
            credential,
            has_refresh_token,
            access_token_expires_at,
            next_refresh_at,
            account_state: None,
        })
    }

    /// Puts the account's error facts into the same revision swap. A blank
    /// message is dropped; a ready state keeps its reason only beside a
    /// message; any other state falls back to the reason it implies.
    pub fn with_account_state(
        self,
        credential_state: CredentialState,
        observed_at: UnixTime,
        error_reason: Option<AccountErrorReason>,
        message: Option<String>,
    ) -> (r: CredentialCasUpdate)
        ensures
            r.spec_parts().account_state == Some(Box::new(CredentialStateWrite {
                credential_state,
                observed_at,
                error_reason: written_error_reason(credential_state, kept_message(message), error_reason),
                message: kept_message(message),
            })),
            r.spec_parts().account_id == self.spec_parts().account_id,
            r.spec_parts().expected_revision == self.spec_parts().expected_revision,
            r.spec_parts().profile == self.spec_parts().profile,
            r.spec_parts().credential == self.spec_parts().credential,
            r.spec_parts().has_refresh_token == self.spec_parts().has_refresh_token,
            r.spec_parts().access_token_expires_at == self.spec_parts().access_token_expires_at,
            r.spec_parts().next_refresh_at == self.spec_parts().next_refresh_at,
    {
        let message = match message {
            Some(m) => if is_blank(m.as_str()) { None } else { Some(m) },
            None => None,
        };
        let error_reason = if credential_state == CredentialState::Ready {
            if message.is_some() { error_reason } else { None }
        } else {
            match error_reason {
                Some(r) => Some(r),
                None => credential_state.error_reason(),
            }
        };
        let mut next = self;
        next.account_state = Some(Box::new(CredentialStateWrite {
            credential_state,
            observed_at,
            error_reason,
            message,
        }));
        next
    }

    pub fn account_id(&self) -> (r: &ProviderAccountId)
        ensures
            *r == self.spec_parts().account_id,
    {
        &self.account_id
    }

    pub fn expected_revision(&self) -> (r: CredentialRevision)
        ensures
            r == self.spec_parts().expected_revision,
    {
        self.expected_revision
    }

    pub fn profile(&self) -> (r: &ProviderAccountUpdate)
        ensures
            *r == self.spec_parts().profile,
    {
        &self.profile
    }

    pub fn credential(&self) -> (r: &PlaintextCredential)
        ensures
            *r == self.spec_parts().credential,
    {
        &self.credential
    }

    pub fn has_refresh_token(&self) -> (r: bool)
        ensures
            r == self.spec_parts().has_refresh_token,
    {
        self.has_refresh_token
    }

    pub fn access_token_expires_at(&self) -> (r: Option<UnixTime>)
        ensures
            r == self.spec_parts().access_token_expires_at,
    {
        self.access_token_expires_at
    }

    pub fn next_refresh_at(&self) -> (r: Option<UnixTime>)
        ensures
            r == self.spec_parts().next_refresh_at,
    {
        self.next_refresh_at
    }

    pub fn into_parts(self) -> (r: CredentialCasUpdateParts)
        ensures
            r == self.spec_parts(),
    {
        CredentialCasUpdateParts {
            account_id: self.account_id,
            expected_revision: self.expected_revision,
            profile: self.profile,
            credential: self.credential,
            has_refresh_token: self.has_refresh_token,
            access_token_expires_at: self.access_token_expires_at,
            next_refresh_at: self.next_refresh_at,
            account_state: self.account_state,
        }
    }
}

/// The outcome of a credential revision swap.
#[derive(Debug, Clone, Copy, PartialEq, Eq)]
pub enum CredentialCasOutcome {
    Updated(CredentialRevision),
    Conflict,
}

/// One complete quota observation by a provider.
#[derive(Clone, PartialEq)]
pub struct QuotaObservation {
    pub account_id: ProviderAccountId,
    pub expected_revision: CredentialRevision,
    pub quota: OpaqueProviderData,
    /// When the provider's raw quota document was observed; not when the
    /// access conclusion changed.
    pub observed_at: UnixTime,
    /// The access facts the provider normalised out of its own JSON.
    pub state: QuotaState,
}

#[derive(Debug, Clone, Copy, PartialEq, Eq)]
pub enum QuotaWriteOutcome {
    Updated,
    Conflict,
}

/// Moves only the last successful quota query time forward.
#[derive(Debug, Clone, PartialEq, Eq)]
pub struct QuotaObservationTouch {
    pub account_id: ProviderAccountId,
    pub expected_revision: CredentialRevision,
    pub observed_at: UnixTime,
}

/// A quota access change that leaves the provider's raw quota JSON alone.
#[derive(Debug, Clone, PartialEq, Eq)]
pub struct QuotaAccessChange {
    pub account_id: ProviderAccountId,
    pub expected_revision: CredentialRevision,
    pub state: QuotaState,
}

/// A revision-fenced write of an account's state.
#[derive(Debug, Clone, PartialEq, Eq)]
pub struct AccountStateChange {
    pub account_id: ProviderAccountId,
    pub expected_revision: CredentialRevision,
    pub credential_state: CredentialState,
    pub observed_at: UnixTime,
    /// A controlled error reason; a ready write with no failure clears it.
    pub error_reason: Option<AccountErrorReason>,
    /// The message shown to operators; a ready write with no failure clears it.
    pub message: Option<String>,
}

} // verus!
