//! Persisted credential, quota and status facts, and the single status resolver.

use vstd::prelude::*;

use crate::text::str_equal;
use crate::time::{TimeSpan, UnixTime};

verus! {

/// Persisted credential and account-identity state. Quota exhaustion and temporary rate limits are never recorded here.
#[derive(Debug, Clone, Copy, PartialEq, Eq, Structural, Hash)]
pub enum CredentialState {
    Unknown,
    Ready,
    Expired,
    Banned,
    Invalid,
}

impl CredentialState {
    /// The stable wire and storage name.
    pub open spec fn spec_name(self) -> Seq<char> {
        match self {
            CredentialState::Unknown => "unknown"@,
            CredentialState::Ready => "ready"@,
            CredentialState::Expired => "expired"@,
            CredentialState::Banned => "banned"@,
            CredentialState::Invalid => "invalid"@,
        }
    }

    pub fn as_str(self) -> (r: &'static str)
        ensures
            r@ == self.spec_name(),
    {
        match self {
            CredentialState::Unknown => "unknown",
            CredentialState::Ready => "ready",
            CredentialState::Expired => "expired",
            CredentialState::Banned => "banned",
            CredentialState::Invalid => "invalid",
        }
    }

    /// Parses a stable name; any other text is `None`.
    pub fn parse(value: &str) -> (r: Option<CredentialState>)
        ensures
            r matches Some(x) ==> value@ == x.spec_name(),
            r is None ==> forall|x: CredentialState| value@ != #[trigger] x.spec_name(),
    {
        if str_equal(value, "unknown") {
            return Some(CredentialState::Unknown);
        }
        if str_equal(value, "ready") {
            return Some(CredentialState::Ready);
        }
        if str_equal(value, "expired") {
            return Some(CredentialState::Expired);
        }
        if str_equal(value, "banned") {
            return Some(CredentialState::Banned);
        }
        if str_equal(value, "invalid") {
            return Some(CredentialState::Invalid);
        }
        assert forall|x: CredentialState| value@ != #[trigger] x.spec_name() by {
            match x {
                CredentialState::Unknown => {},
                CredentialState::Ready => {},
                CredentialState::Expired => {},
                CredentialState::Banned => {},
                CredentialState::Invalid => {},
            }
        }
        None
    }
}

/// Distinct values of [`CredentialState`] have distinct stable names, so parsing a
/// value's name gives that value back.
pub proof fn lemma_credential_state_names_distinct(x: CredentialState, y: CredentialState)
    ensures
        x.spec_name() == y.spec_name() ==> x == y,
{
    reveal_strlit("unknown");
    reveal_strlit("ready");
    reveal_strlit("expired");
    reveal_strlit("banned");
    reveal_strlit("invalid");
    match x {
        CredentialState::Unknown => match y {
            CredentialState::Unknown => {},
            CredentialState::Ready => { assert("unknown"@.len() != "ready"@.len()); },
            CredentialState::Expired => { assert("unknown"@[0] != "expired"@[0]); },
            CredentialState::Banned => { assert("unknown"@.len() != "banned"@.len()); },
            CredentialState::Invalid => { assert("unknown"@[0] != "invalid"@[0]); },
        },
        CredentialState::Ready => match y {
            CredentialState::Unknown => { assert("ready"@.len() != "unknown"@.len()); },
            CredentialState::Ready => {},
            CredentialState::Expired => { assert("ready"@.len() != "expired"@.len()); },
            CredentialState::Banned => { assert("ready"@.len() != "banned"@.len()); },
            CredentialState::Invalid => { assert("ready"@.len() != "invalid"@.len()); },
        },
        CredentialState::Expired => match y {
            CredentialState::Unknown => { assert("expired"@[0] != "unknown"@[0]); },
            CredentialState::Ready => { assert("expired"@.len() != "ready"@.len()); },
            CredentialState::Expired => {},
            CredentialState::Banned => { assert("expired"@.len() != "banned"@.len()); },
            CredentialState::Invalid => { assert("expired"@[0] != "invalid"@[0]); },
        },
        CredentialState::Banned => match y {
            CredentialState::Unknown => { assert("banned"@.len() != "unknown"@.len()); },
            CredentialState::Ready => { assert("banned"@.len() != "ready"@.len()); },
            CredentialState::Expired => { assert("banned"@.len() != "expired"@.len()); },
            CredentialState::Banned => {},
            CredentialState::Invalid => { assert("banned"@.len() != "invalid"@.len()); },
        },
        CredentialState::Invalid => match y {
            CredentialState::Unknown => { assert("invalid"@[0] != "unknown"@[0]); },
            CredentialState::Ready => { assert("invalid"@.len() != "ready"@.len()); },
            CredentialState::Expired => { assert("invalid"@[0] != "expired"@[0]); },
            CredentialState::Banned => { assert("invalid"@.len() != "banned"@.len()); },
            CredentialState::Invalid => {},
        },
    }
}

/// Quota access conclusion; percentages and balances stay out of it.
#[derive(Debug, Clone, Copy, PartialEq, Eq, Structural, Hash)]
pub enum QuotaAccessState {
    Unknown,
    Allowed,
    Exhausted,
}

impl QuotaAccessState {
    /// The stable wire and storage name.
    pub open spec fn spec_name(self) -> Seq<char> {
        match self {
            QuotaAccessState::Unknown => "unknown"@,
            QuotaAccessState::Allowed => "allowed"@,
            QuotaAccessState::Exhausted => "exhausted"@,
        }
    }

    pub fn as_str(self) -> (r: &'static str)
        ensures
            r@ == self.spec_name(),
    {
        match self {
            QuotaAccessState::Unknown => "unknown",
            QuotaAccessState::Allowed => "allowed",
            QuotaAccessState::Exhausted => "exhausted",
        }
    }

    /// Parses a stable name; any other text is `None`.
    pub fn parse(value: &str) -> (r: Option<QuotaAccessState>)
        ensures
            r matches Some(x) ==> value@ == x.spec_name(),
            r is None ==> forall|x: QuotaAccessState| value@ != #[trigger] x.spec_name(),
    {
        if str_equal(value, "unknown") {
            return Some(QuotaAccessState::Unknown);
        }
        if str_equal(value, "allowed") {
            return Some(QuotaAccessState::Allowed);
        }
        if str_equal(value, "exhausted") {
            return Some(QuotaAccessState::Exhausted);
        }
        assert forall|x: QuotaAccessState| value@ != #[trigger] x.spec_name() by {
            match x {
                QuotaAccessState::Unknown => {},
                QuotaAccessState::Allowed => {},
                QuotaAccessState::Exhausted => {},
            }
        }
        None
    }
}

/// Distinct values of [`QuotaAccessState`] have distinct stable names, so parsing a
/// value's name gives that value back.
pub proof fn lemma_quota_access_state_names_distinct(x: QuotaAccessState, y: QuotaAccessState)
    ensures
        x.spec_name() == y.spec_name() ==> x == y,
{
    reveal_strlit("unknown");
    reveal_strlit("allowed");
    reveal_strlit("exhausted");
    match x {
        QuotaAccessState::Unknown => match y {
            QuotaAccessState::Unknown => {},
            QuotaAccessState::Allowed => { assert("unknown"@[0] != "allowed"@[0]); },
            QuotaAccessState::Exhausted => { assert("unknown"@.len() != "exhausted"@.len()); },
        },
        QuotaAccessState::Allowed => match y {
            QuotaAccessState::Unknown => { assert("allowed"@[0] != "unknown"@[0]); },
            QuotaAccessState::Allowed => {},
            QuotaAccessState::Exhausted => { assert("allowed"@.len() != "exhausted"@.len()); },
        },
        QuotaAccessState::Exhausted => match y {
            QuotaAccessState::Unknown => { assert("exhausted"@.len() != "unknown"@.len()); },
            QuotaAccessState::Allowed => { assert("exhausted"@.len() != "allowed"@.len()); },
            QuotaAccessState::Exhausted => {},
        },
    }
}

/// Authoritative evidence of exhausted quota.
#[derive(Debug, Clone, Copy, PartialEq, Eq, Structural, Hash)]
pub enum QuotaEvidence {
    ProviderDenied,
    AccountLimitReached,
    UsageLimitReached,
    PaymentRequired,
}

impl QuotaEvidence {
    /// The stable wire and storage name.
    pub open spec fn spec_name(self) -> Seq<char> {
        match self {
            QuotaEvidence::ProviderDenied => "provider_denied"@,
            QuotaEvidence::AccountLimitReached => "account_limit_reached"@,
            QuotaEvidence::UsageLimitReached => "usage_limit_reached"@,
            QuotaEvidence::PaymentRequired => "payment_required"@,
        }
    }

    pub fn as_str(self) -> (r: &'static str)
        ensures
            r@ == self.spec_name(),
    {
        match self {
            QuotaEvidence::ProviderDenied => "provider_denied",
            QuotaEvidence::AccountLimitReached => "account_limit_reached",
            QuotaEvidence::UsageLimitReached => "usage_limit_reached",
            QuotaEvidence::PaymentRequired => "payment_required",
        }
    }

    /// Parses a stable name; any other text is `None`.
    pub fn parse(value: &str) -> (r: Option<QuotaEvidence>)
        ensures
            r matches Some(x) ==> value@ == x.spec_name(),
            r is None ==> forall|x: QuotaEvidence| value@ != #[trigger] x.spec_name(),
    {
        if str_equal(value, "provider_denied") {
            return Some(QuotaEvidence::ProviderDenied);
        }
        if str_equal(value, "account_limit_reached") {
            return Some(QuotaEvidence::AccountLimitReached);
        }
        if str_equal(value, "usage_limit_reached") {
            return Some(QuotaEvidence::UsageLimitReached);
        }
        if str_equal(value, "payment_required") {
            return Some(QuotaEvidence::PaymentRequired);
        }
        assert forall|x: QuotaEvidence| value@ != #[trigger] x.spec_name() by {
            match x {
                QuotaEvidence::ProviderDenied => {},
                QuotaEvidence::AccountLimitReached => {},
                QuotaEvidence::UsageLimitReached => {},
                QuotaEvidence::PaymentRequired => {},
            }
        }
        None
    }
}

/// Distinct values of [`QuotaEvidence`] have distinct stable names, so parsing a
/// value's name gives that value back.
pub proof fn lemma_quota_evidence_names_distinct(x: QuotaEvidence, y: QuotaEvidence)
    ensures
        x.spec_name() == y.spec_name() ==> x == y,
{
    reveal_strlit("provider_denied");
    reveal_strlit("account_limit_reached");
    reveal_strlit("usage_limit_reached");
    reveal_strlit("payment_required");
    match x {
        QuotaEvidence::ProviderDenied => match y {
            QuotaEvidence::ProviderDenied => {},
            QuotaEvidence::AccountLimitReached => { assert("provider_denied"@.len() != "account_limit_reached"@.len()); },
            QuotaEvidence::UsageLimitReached => { assert("provider_denied"@.len() != "usage_limit_reached"@.len()); },
            QuotaEvidence::PaymentRequired => { assert("provider_denied"@.len() != "payment_required"@.len()); },
        },
        QuotaEvidence::AccountLimitReached => match y {
            QuotaEvidence::ProviderDenied => { assert("account_limit_reached"@.len() != "provider_denied"@.len()); },
            QuotaEvidence::AccountLimitReached => {},
            QuotaEvidence::UsageLimitReached => { assert("account_limit_reached"@.len() != "usage_limit_reached"@.len()); },
            QuotaEvidence::PaymentRequired => { assert("account_limit_reached"@.len() != "payment_required"@.len()); },
        },
        QuotaEvidence::UsageLimitReached => match y {
            QuotaEvidence::ProviderDenied => { assert("usage_limit_reached"@.len() != "provider_denied"@.len()); },
            QuotaEvidence::AccountLimitReached => { assert("usage_limit_reached"@.len() != "account_limit_reached"@.len()); },
            QuotaEvidence::UsageLimitReached => {},
            QuotaEvidence::PaymentRequired => { assert("usage_limit_reached"@.len() != "payment_required"@.len()); },
        },
        QuotaEvidence::PaymentRequired => match y {
            QuotaEvidence::ProviderDenied => { assert("payment_required"@.len() != "provider_denied"@.len()); },
            QuotaEvidence::AccountLimitReached => { assert("payment_required"@.len() != "account_limit_reached"@.len()); },
            QuotaEvidence::UsageLimitReached => { assert("payment_required"@.len() != "usage_limit_reached"@.len()); },
            QuotaEvidence::PaymentRequired => {},
        },
    }
}

/// The single five-state account status shown to the outside.
#[derive(Debug, Clone, Copy, PartialEq, Eq, Structural, Hash)]
pub enum AccountStatus {
    Normal,
    QuotaExhausted,
    RateLimited,
    Disabled,
    Error,
}

impl AccountStatus {
    /// The stable wire and storage name.
    pub open spec fn spec_name(self) -> Seq<char> {
        match self {
            AccountStatus::Normal => "normal"@,
            AccountStatus::QuotaExhausted => "quota_exhausted"@,
            AccountStatus::RateLimited => "rate_limited"@,
            AccountStatus::Disabled => "disabled"@,
            AccountStatus::Error => "error"@,
        }
    }

    pub fn as_str(self) -> (r: &'static str)
        ensures
            r@ == self.spec_name(),
    {
        match self {
            AccountStatus::Normal => "normal",
            AccountStatus::QuotaExhausted => "quota_exhausted",
            AccountStatus::RateLimited => "rate_limited",
            AccountStatus::Disabled => "disabled",
            AccountStatus::Error => "error",
        }
    }

    /// Parses a stable name; any other text is `None`.
    pub fn parse(value: &str) -> (r: Option<AccountStatus>)
        ensures
            r matches Some(x) ==> value@ == x.spec_name(),
            r is None ==> forall|x: AccountStatus| value@ != #[trigger] x.spec_name(),
    {
        if str_equal(value, "normal") {
            return Some(AccountStatus::Normal);
        }
        if str_equal(value, "quota_exhausted") {
            return Some(AccountStatus::QuotaExhausted);
        }
        if str_equal(value, "rate_limited") {
            return Some(AccountStatus::RateLimited);
        }
        if str_equal(value, "disabled") {
            return Some(AccountStatus::Disabled);
        }
        if str_equal(value, "error") {
            return Some(AccountStatus::Error);
        }
        assert forall|x: AccountStatus| value@ != #[trigger] x.spec_name() by {
            match x {
                AccountStatus::Normal => {},
                AccountStatus::QuotaExhausted => {},
                AccountStatus::RateLimited => {},
                AccountStatus::Disabled => {},
                AccountStatus::Error => {},
            }
        }
        None
    }
}

/// Distinct values of [`AccountStatus`] have distinct stable names, so parsing a
/// value's name gives that value back.
pub proof fn lemma_account_status_names_distinct(x: AccountStatus, y: AccountStatus)
    ensures
        x.spec_name() == y.spec_name() ==> x == y,
{
    reveal_strlit("normal");
    reveal_strlit("quota_exhausted");
    reveal_strlit("rate_limited");
    reveal_strlit("disabled");
    reveal_strlit("error");
    match x {
        AccountStatus::Normal => match y {
            AccountStatus::Normal => {},
            AccountStatus::QuotaExhausted => { assert("normal"@.len() != "quota_exhausted"@.len()); },
            AccountStatus::RateLimited => { assert("normal"@.len() != "rate_limited"@.len()); },
            AccountStatus::Disabled => { assert("normal"@.len() != "disabled"@.len()); },
            AccountStatus::Error => { assert("normal"@.len() != "error"@.len()); },
        },
        AccountStatus::QuotaExhausted => match y {
            AccountStatus::Normal => { assert("quota_exhausted"@.len() != "normal"@.len()); },
            AccountStatus::QuotaExhausted => {},
            AccountStatus::RateLimited => { assert("quota_exhausted"@.len() != "rate_limited"@.len()); },
            AccountStatus::Disabled => { assert("quota_exhausted"@.len() != "disabled"@.len()); },
            AccountStatus::Error => { assert("quota_exhausted"@.len() != "error"@.len()); },
        },
        AccountStatus::RateLimited => match y {
            AccountStatus::Normal => { assert("rate_limited"@.len() != "normal"@.len()); },
            AccountStatus::QuotaExhausted => { assert("rate_limited"@.len() != "quota_exhausted"@.len()); },
            AccountStatus::RateLimited => {},
            AccountStatus::Disabled => { assert("rate_limited"@.len() != "disabled"@.len()); },
            AccountStatus::Error => { assert("rate_limited"@.len() != "error"@.len()); },
        },
        AccountStatus::Disabled => match y {
            AccountStatus::Normal => { assert("disabled"@.len() != "normal"@.len()); },
            AccountStatus::QuotaExhausted => { assert("disabled"@.len() != "quota_exhausted"@.len()); },
            AccountStatus::RateLimited => { assert("disabled"@.len() != "rate_limited"@.len()); },
            AccountStatus::Disabled => {},
            AccountStatus::Error => { assert("disabled"@.len() != "error"@.len()); },
        },
        AccountStatus::Error => match y {
            AccountStatus::Normal => { assert("error"@.len() != "normal"@.len()); },
            AccountStatus::QuotaExhausted => { assert("error"@.len() != "quota_exhausted"@.len()); },
            AccountStatus::RateLimited => { assert("error"@.len() != "rate_limited"@.len()); },
            AccountStatus::Disabled => { assert("error"@.len() != "disabled"@.len()); },
            AccountStatus::Error => {},
        },
    }
}

/// Stable reason code of the `error` status.
#[derive(Debug, Clone, Copy, PartialEq, Eq, Structural, Hash)]
pub enum AccountErrorReason {
    AccountUnverified,
    AccessTokenExpired,
    CredentialExpired,
    CredentialInvalid,
    AccountBanned,
}

impl AccountErrorReason {
    /// The stable wire and storage name.
    pub open spec fn spec_name(self) -> Seq<char> {
        match self {
            AccountErrorReason::AccountUnverified => "account_unverified"@,
            AccountErrorReason::AccessTokenExpired => "access_token_expired"@,
            AccountErrorReason::CredentialExpired => "credential_expired"@,
            AccountErrorReason::CredentialInvalid => "credential_invalid"@,
            AccountErrorReason::AccountBanned => "account_banned"@,
        }
    }

    pub fn as_str(self) -> (r: &'static str)
        ensures
            r@ == self.spec_name(),
    {
        match self {
            AccountErrorReason::AccountUnverified => "account_unverified",
            AccountErrorReason::AccessTokenExpired => "access_token_expired",
            AccountErrorReason::CredentialExpired => "credential_expired",
            AccountErrorReason::CredentialInvalid => "credential_invalid",
            AccountErrorReason::AccountBanned => "account_banned",
        }
    }

    /// Parses a stable name; any other text is `None`.
    pub fn parse(value: &str) -> (r: Option<AccountErrorReason>)
        ensures
            r matches Some(x) ==> value@ == x.spec_name(),
            r is None ==> forall|x: AccountErrorReason| value@ != #[trigger] x.spec_name(),
    {
        if str_equal(value, "account_unverified") {
            return Some(AccountErrorReason::AccountUnverified);
        }
        if str_equal(value, "access_token_expired") {
            return Some(AccountErrorReason::AccessTokenExpired);
        }
        if str_equal(value, "credential_expired") {
            return Some(AccountErrorReason::CredentialExpired);
        }
        if str_equal(value, "credential_invalid") {
            return Some(AccountErrorReason::CredentialInvalid);
        }
        if str_equal(value, "account_banned") {
            return Some(AccountErrorReason::AccountBanned);
        }
        assert forall|x: AccountErrorReason| value@ != #[trigger] x.spec_name() by {
            match x {
                AccountErrorReason::AccountUnverified => {},
                AccountErrorReason::AccessTokenExpired => {},
                AccountErrorReason::CredentialExpired => {},
                AccountErrorReason::CredentialInvalid => {},
                AccountErrorReason::AccountBanned => {},
            }
        }
        None
    }
}

/// Distinct values of [`AccountErrorReason`] have distinct stable names, so parsing a
/// value's name gives that value back.
pub proof fn lemma_account_error_reason_names_distinct(x: AccountErrorReason, y: AccountErrorReason)
    ensures
        x.spec_name() == y.spec_name() ==> x == y,
{
    reveal_strlit("account_unverified");
    reveal_strlit("access_token_expired");
    reveal_strlit("credential_expired");
    reveal_strlit("credential_invalid");
    reveal_strlit("account_banned");
    match x {
        AccountErrorReason::AccountUnverified => match y {
            AccountErrorReason::AccountUnverified => {},
            AccountErrorReason::AccessTokenExpired => { assert("account_unverified"@.len() != "access_token_expired"@.len()); },
            AccountErrorReason::CredentialExpired => { assert("account_unverified"@[0] != "credential_expired"@[0]); },
            AccountErrorReason::CredentialInvalid => { assert("account_unverified"@[0] != "credential_invalid"@[0]); },
            AccountErrorReason::AccountBanned => { assert("account_unverified"@.len() != "account_banned"@.len()); },
        },
        AccountErrorReason::AccessTokenExpired => match y {
            AccountErrorReason::AccountUnverified => { assert("access_token_expired"@.len() != "account_unverified"@.len()); },
            AccountErrorReason::AccessTokenExpired => {},
            AccountErrorReason::CredentialExpired => { assert("access_token_expired"@.len() != "credential_expired"@.len()); },
            AccountErrorReason::CredentialInvalid => { assert("access_token_expired"@.len() != "credential_invalid"@.len()); },
            AccountErrorReason::AccountBanned => { assert("access_token_expired"@.len() != "account_banned"@.len()); },
        },
        AccountErrorReason::CredentialExpired => match y {
            AccountErrorReason::AccountUnverified => { assert("credential_expired"@[0] != "account_unverified"@[0]); },
            AccountErrorReason::AccessTokenExpired => { assert("credential_expired"@.len() != "access_token_expired"@.len()); },
            AccountErrorReason::CredentialExpired => {},
            AccountErrorReason::CredentialInvalid => { assert("credential_expired"@[11] != "credential_invalid"@[11]); },
            AccountErrorReason::AccountBanned => { assert("credential_expired"@.len() != "account_banned"@.len()); },
        },
        AccountErrorReason::CredentialInvalid => match y {
            AccountErrorReason::AccountUnverified => { assert("credential_invalid"@[0] != "account_unverified"@[0]); },
            AccountErrorReason::AccessTokenExpired => { assert("credential_invalid"@.len() != "access_token_expired"@.len()); },
            AccountErrorReason::CredentialExpired => { assert("credential_invalid"@[11] != "credential_expired"@[11]); },
            AccountErrorReason::CredentialInvalid => {},
            AccountErrorReason::AccountBanned => { assert("credential_invalid"@.len() != "account_banned"@.len()); },
        },
        AccountErrorReason::AccountBanned => match y {
            AccountErrorReason::AccountUnverified => { assert("account_banned"@.len() != "account_unverified"@.len()); },
            AccountErrorReason::AccessTokenExpired => { assert("account_banned"@.len() != "access_token_expired"@.len()); },
            AccountErrorReason::CredentialExpired => { assert("account_banned"@.len() != "credential_expired"@.len()); },
            AccountErrorReason::CredentialInvalid => { assert("account_banned"@.len() != "credential_invalid"@.len()); },
            AccountErrorReason::AccountBanned => {},
        },
    }
}

impl CredentialState {
    /// The stable error reason implied by this credential state.
    pub open spec fn spec_error_reason(self) -> Option<AccountErrorReason> {
        match self {
            CredentialState::Unknown => Some(AccountErrorReason::AccountUnverified),
            CredentialState::Expired => Some(AccountErrorReason::CredentialExpired),
            CredentialState::Banned => Some(AccountErrorReason::AccountBanned),
            CredentialState::Invalid => Some(AccountErrorReason::CredentialInvalid),
            CredentialState::Ready => None,
        }
    }

    pub fn error_reason(self) -> (r: Option<AccountErrorReason>)
        ensures
            r == self.spec_error_reason(),
    {
        match self {
            CredentialState::Unknown => Some(AccountErrorReason::AccountUnverified),
            CredentialState::Expired => Some(AccountErrorReason::CredentialExpired),
            CredentialState::Banned => Some(AccountErrorReason::AccountBanned),
            CredentialState::Invalid => Some(AccountErrorReason::CredentialInvalid),
            CredentialState::Ready => None,
        }
    }
}

impl AccountStatus {
    /// Admin listing order: normal, rate limited, exhausted, error, disabled.
    pub open spec fn spec_sort_rank(self) -> u8 {
        match self {
            AccountStatus::Normal => 0,
            AccountStatus::RateLimited => 1,
            AccountStatus::QuotaExhausted => 2,
            AccountStatus::Error => 3,
            AccountStatus::Disabled => 4,
        }
    }

    pub fn sort_rank(self) -> (r: u8)
        ensures
            r == self.spec_sort_rank(),
    {
        match self {
            AccountStatus::Normal => 0,
            AccountStatus::RateLimited => 1,
            AccountStatus::QuotaExhausted => 2,
            AccountStatus::Error => 3,
            AccountStatus::Disabled => 4,
        }
    }
}

/// The sort rank is a strict total order on statuses.
pub proof fn lemma_sort_rank_injective(a: AccountStatus, b: AccountStatus)
    ensures
        a.spec_sort_rank() == b.spec_sort_rank() ==> a == b,
        a.spec_sort_rank() <= 4,
{
}

/// Auditable quota access fact.
#[derive(Debug, Clone, Copy, PartialEq, Eq, Structural)]
pub struct QuotaState {
    access: QuotaAccessState,
    evidence: Option<QuotaEvidence>,
    observed_at: Option<UnixTime>,
    reset_at: Option<UnixTime>,
}

impl Default for QuotaState {
    fn default() -> (r: QuotaState)
        ensures
            r == QuotaState::spec_unknown(),
    {
        QuotaState::unknown()
    }
}

/// The persisted combinations that describe a valid quota state.
pub open spec fn quota_combination_valid(
    access: QuotaAccessState,
    evidence: Option<QuotaEvidence>,
    observed_at: Option<UnixTime>,
    reset_at: Option<UnixTime>,
) -> bool {
    match access {
        QuotaAccessState::Unknown => evidence is None && reset_at is None,
        QuotaAccessState::Allowed => evidence is None && observed_at is Some && reset_at is None,
        QuotaAccessState::Exhausted => evidence is Some && observed_at is Some,
    }
}

impl QuotaState {
    pub closed spec fn spec_access(self) -> QuotaAccessState {
        self.access
    }

    pub closed spec fn spec_evidence(self) -> Option<QuotaEvidence> {
        self.evidence
    }

    pub closed spec fn spec_observed_at(self) -> Option<UnixTime> {
        self.observed_at
    }

    pub closed spec fn spec_reset_at(self) -> Option<UnixTime> {
        self.reset_at
    }

    pub closed spec fn spec_unknown() -> QuotaState {
        QuotaState { access: QuotaAccessState::Unknown, evidence: None, observed_at: None, reset_at: None }
    }

    pub open spec fn spec_is_exhausted(self) -> bool {
        self.spec_access() == QuotaAccessState::Exhausted
    }

    pub fn unknown() -> (r: QuotaState)
        ensures
            r == QuotaState::spec_unknown(),
            r.spec_access() == QuotaAccessState::Unknown,
            r.spec_evidence() is None,
            r.spec_observed_at() is None,
            r.spec_reset_at() is None,
    {
        QuotaState { access: QuotaAccessState::Unknown, evidence: None, observed_at: None, reset_at: None }
    }

    pub fn observed_unknown(observed_at: UnixTime) -> (r: QuotaState)
        ensures
            r.spec_access() == QuotaAccessState::Unknown,
            r.spec_evidence() is None,
            r.spec_observed_at() == Some(observed_at),
            r.spec_reset_at() is None,
    {
        QuotaState {
            access: QuotaAccessState::Unknown,
            evidence: None,
            observed_at: Some(observed_at),
            reset_at: None,
        }
    }

    pub fn allowed(observed_at: UnixTime) -> (r: QuotaState)
        ensures
            r.spec_access() == QuotaAccessState::Allowed,
            r.spec_evidence() is None,
            r.spec_observed_at() == Some(observed_at),
            r.spec_reset_at() is None,
    {
        QuotaState {
            access: QuotaAccessState::Allowed,
            evidence: None,
            observed_at: Some(observed_at),
            reset_at: None,
        }
    }

    pub fn exhausted(evidence: QuotaEvidence, observed_at: UnixTime, reset_at: Option<UnixTime>) -> (r:
        QuotaState)
        ensures
            r.spec_access() == QuotaAccessState::Exhausted,
            r.spec_evidence() == Some(evidence),
            r.spec_observed_at() == Some(observed_at),
            r.spec_reset_at() == reset_at,
    {
        QuotaState {
            access: QuotaAccessState::Exhausted,
            evidence: Some(evidence),
            observed_at: Some(observed_at),
            reset_at,
        }
    }

    /// Restores a quota state from its persisted columns; invalid combinations are `None`.
    pub fn from_persisted(
        access: QuotaAccessState,
        evidence: Option<QuotaEvidence>,
        observed_at: Option<UnixTime>,
        reset_at: Option<UnixTime>,
    ) -> (r: Option<QuotaState>)
        ensures
            quota_combination_valid(access, evidence, observed_at, reset_at) ==> (r matches Some(
                q,
            ) && q.spec_access() == access && q.spec_evidence() == evidence && q.spec_observed_at()
                == observed_at && q.spec_reset_at() == reset_at),
            !quota_combination_valid(access, evidence, observed_at, reset_at) ==> r is None,
    {
        let valid = match access {
            QuotaAccessState::Unknown => evidence.is_none() && reset_at.is_none(),
            QuotaAccessState::Allowed => evidence.is_none() && observed_at.is_some()
                && reset_at.is_none(),
            QuotaAccessState::Exhausted => evidence.is_some() && observed_at.is_some(),
        };
        if valid {
            Some(QuotaState { access, evidence, observed_at, reset_at })
        } else {
            None
        }
    }

    pub fn access(self) -> (r: QuotaAccessState)
        ensures
            r == self.spec_access(),
    {
        self.access
    }

    pub fn evidence(self) -> (r: Option<QuotaEvidence>)
        ensures
            r == self.spec_evidence(),
    {
        self.evidence
    }

    pub fn observed_at(self) -> (r: Option<UnixTime>)
        ensures
            r == self.spec_observed_at(),
    {
        self.observed_at
    }

    pub fn reset_at(self) -> (r: Option<UnixTime>)
        ensures
            r == self.spec_reset_at(),
    {
        self.reset_at
    }

    /// The confirmed exhaustion conclusion; `reset_at` passing is not evidence of recovery.
    pub fn is_exhausted(self) -> (r: bool)
        ensures
            r == self.spec_is_exhausted(),
    {
        match self.access {
            QuotaAccessState::Exhausted => true,
            _ => false,
        }
    }

    /// When exhausted quota should be re-checked with the provider: at the
    /// explicit `reset_at`, else `fallback_interval` after the observation.
    pub open spec fn spec_refresh_due_at(self, fallback_interval: TimeSpan) -> Option<UnixTime> {
        match self.spec_reset_at() {
            Some(t) => Some(t),
            None => match self.spec_observed_at() {
                Some(o) => if o.nanos + fallback_interval.nanos <= u128::MAX {
                    Some(UnixTime { nanos: (o.nanos + fallback_interval.nanos) as u128 })
                } else {
                    None
                },
                None => None,
            },
        }
    }

    /// Whether exhausted quota has reached its next provider re-check.
    pub fn exhaustion_refresh_due(self, now: UnixTime, fallback_interval: TimeSpan) -> (r: bool)
        ensures
            r == (self.spec_is_exhausted() && match self.spec_refresh_due_at(fallback_interval) {
                Some(due) => due.nanos <= now.nanos,
                None => true,
            }),
    {
        if !self.is_exhausted() {
            return false;
        }
        let due_at = match self.reset_at {
            Some(t) => Some(t),
            None => match self.observed_at {
                Some(observed) => observed.checked_add(fallback_interval),
                None => None,
            },
        };
        match due_at {
            Some(due) => due.nanos <= now.nanos,
            None => true,
        }
    }

    /// The result of merging one access observation into this state.
    pub open spec fn spec_merge(self, observation: QuotaState) -> QuotaState {
        if observation.spec_access() == QuotaAccessState::Unknown && self.spec_access()
            != QuotaAccessState::Unknown {
            self
        } else {
            observation
        }
    }

    /// Merges one access observation; `Unknown` never erases a confirmed conclusion.
    pub fn merge_observation(self, observation: QuotaState) -> (r: QuotaState)
        ensures
            r == self.spec_merge(observation),
    {
        let observation_unknown = match observation.access {
            QuotaAccessState::Unknown => true,
            _ => false,
        };
        let self_unknown = match self.access {
            QuotaAccessState::Unknown => true,
            _ => false,
        };
        if observation_unknown && !self_unknown {
            self
        } else {
            observation
        }
    }
}

/// A confirmed quota conclusion survives any later observation except another
/// confirmed one, and merging an observation twice equals merging it once.
pub proof fn lemma_quota_merge_laws(q: QuotaState, o: QuotaState)
    ensures
        q.spec_access() != QuotaAccessState::Unknown ==> q.spec_merge(o).spec_access()
            != QuotaAccessState::Unknown,
        o.spec_access() != QuotaAccessState::Unknown ==> q.spec_merge(o) == o,
        q.spec_merge(o).spec_merge(o) == q.spec_merge(o),
        q.spec_merge(q) == q,
{
}

/// Complete input of the single status resolver.
#[derive(Debug, Clone, PartialEq, Eq)]
pub struct AccountStatusFacts {
    pub enabled: bool,
    pub credential_state: CredentialState,
    pub access_token_expires_at: Option<UnixTime>,
    pub quota: QuotaState,
    pub rate_limited_until: Option<UnixTime>,
    pub last_error_reason: Option<AccountErrorReason>,
    pub last_error_message: Option<String>,
}

/// Output of the single status resolver.
#[derive(Debug, Clone, PartialEq, Eq)]
pub struct AccountStatusProjection {
    pub status: AccountStatus,
    pub error_reason: Option<AccountErrorReason>,
    pub error_message: Option<String>,
    /// Only the `rate_limited` status carries the still-active cooldown deadline.
    pub rate_limited_until: Option<UnixTime>,
}

pub open spec fn bare_projection(status: AccountStatus) -> AccountStatusProjection {
    AccountStatusProjection { status, error_reason: None, error_message: None, rate_limited_until: None }
}

/// The default error reason of the facts: the credential state's own reason,
/// else an expired access token.
pub open spec fn credential_error(facts: AccountStatusFacts, now: UnixTime) -> Option<
    AccountErrorReason,
> {
    match facts.credential_state.spec_error_reason() {
        Some(r) => Some(r),
        None => match facts.access_token_expires_at {
            Some(e) => if e.nanos <= now.nanos {
                Some(AccountErrorReason::AccessTokenExpired)
            } else {
                None
            },
            None => None,
        },
    }
}

/// The unique, mutually exclusive status derived from independent facts:
/// disabled first, then credential errors, exhausted quota, an active rate
/// limit, and otherwise normal.
pub open spec fn resolved_status(facts: AccountStatusFacts, now: UnixTime) -> AccountStatusProjection {
    if !facts.enabled {
        bare_projection(AccountStatus::Disabled)
    } else if let Some(default_reason) = credential_error(facts, now) {
        AccountStatusProjection {
            status: AccountStatus::Error,
            error_reason: Some(
                match facts.last_error_reason {
                    Some(r) => r,
                    None => default_reason,
                },
            ),
            error_message: facts.last_error_message,
            rate_limited_until: None,
        }
    } else if facts.quota.spec_is_exhausted() {
        bare_projection(AccountStatus::QuotaExhausted)
    } else if facts.rate_limited_until matches Some(u) && u.nanos > now.nanos {
        AccountStatusProjection {
            status: AccountStatus::RateLimited,
            error_reason: None,
            error_message: None,
            rate_limited_until: facts.rate_limited_until,
        }
    } else {
        bare_projection(AccountStatus::Normal)
    }
}

fn status_projection(status: AccountStatus) -> (r: AccountStatusProjection)
    ensures
        r == bare_projection(status),
{
    AccountStatusProjection { status, error_reason: None, error_message: None, rate_limited_until: None }
}

fn clone_message(message: &Option<String>) -> (r: Option<String>)
    ensures
        r == *message,
{
    match message {
        Some(m) => Some(m.clone()),
        None => None,
    }
}

/// Derives the unique external status from independent facts.
pub fn resolve_account_status(facts: &AccountStatusFacts, now: UnixTime) -> (r:
    AccountStatusProjection)
    ensures
        r == resolved_status(*facts, now),
{
    if !facts.enabled {
        return status_projection(AccountStatus::Disabled);
    }
    let credential_error = match facts.credential_state.error_reason() {
        Some(reason) => Some(reason),
        None => match facts.access_token_expires_at {
            Some(expires_at) => if expires_at.nanos <= now.nanos {
                Some(AccountErrorReason::AccessTokenExpired)
            } else {
                None
            },
            None => None,
        },
    };
    if let Some(default_reason) = credential_error {
        let reason = match facts.last_error_reason {
            Some(r) => r,
            None => default_reason,
        };
        return AccountStatusProjection {
            status: AccountStatus::Error,
            error_reason: Some(reason),
            error_message: clone_message(&facts.last_error_message),
            rate_limited_until: None,
        };
    }
    if facts.quota.is_exhausted() {
        return status_projection(AccountStatus::QuotaExhausted);
    }
    if let Some(until) = facts.rate_limited_until {
        if until.nanos > now.nanos {
            return AccountStatusProjection {
                status: AccountStatus::RateLimited,
                error_reason: None,
                error_message: None,
                rate_limited_until: facts.rate_limited_until,
            };
        }
    }
    status_projection(AccountStatus::Normal)
}

/// Shape of every resolved status: only errors carry a reason, only rate limits
/// carry a deadline (which lies in the future), and a disabled account is
/// disabled whatever its other facts are.
pub proof fn lemma_resolved_status_shape(facts: AccountStatusFacts, now: UnixTime)
    ensures
        ({
            let p = resolved_status(facts, now);
            &&& (p.error_reason is Some <==> p.status == AccountStatus::Error)
            &&& (p.rate_limited_until is Some <==> p.status == AccountStatus::RateLimited)
            &&& (p.rate_limited_until matches Some(u) ==> u.nanos > now.nanos)
            &&& (!facts.enabled <==> p.status == AccountStatus::Disabled)
            &&& (p.status == AccountStatus::Normal ==> facts.enabled && facts.credential_state
                == CredentialState::Ready && !facts.quota.spec_is_exhausted())
        }),
{
}

} // verus!
