//! Account identifiers, scheduling knobs and credential revisions.

use vstd::prelude::*;
use vstd::string::StringSliceAdditionalSpecFns;
use vstd::utf8::encode_utf8;

use crate::text::{bytes_less, bytes_lt, text_error_of, text_is_valid, validate_text, IdentifierError};

verus! {

/// Account ids: at most 128 bytes, no control bytes or whitespace, `acct_` prefix.
pub open spec fn account_id_valid(v: Seq<char>) -> bool {
    text_is_valid(encode_utf8(v), 128, false, Some(encode_utf8("acct_"@)))
}

/// Order of account ids: byte-wise, as `String` orders them.
pub open spec fn account_id_lt(a: Seq<char>, b: Seq<char>) -> bool {
    bytes_lt(encode_utf8(a), encode_utf8(b))
}

/// The id of a `provider_accounts` row.
#[derive(Debug, Clone, PartialEq, Eq, PartialOrd, Ord, Hash)]
pub struct ProviderAccountId(String);

impl View for ProviderAccountId {
    type V = Seq<char>;

    closed spec fn view(&self) -> Seq<char> {
        self.0@
    }
}

impl ProviderAccountId {
    /// Validates and wraps an account id.
    pub fn new(value: String) -> (r: Result<ProviderAccountId, IdentifierError>)
        ensures
            r is Ok <==> account_id_valid(value@),
            r matches Ok(id) ==> id@ == value@,
            r matches Err(e) ==> text_error_of(value@, 128, false, Some("acct_"@)) == Some(e),
    {
        match validate_text(value.as_str(), 128, false, Some("acct_")) {
            Ok(()) => Ok(ProviderAccountId(value)),
            Err(e) => Err(e),
        }
    }

    pub fn as_str(&self) -> (r: &str)
        ensures
            r@ == self@,
    {
        self.0.as_str()
    }

    pub fn same_as(&self, other: &ProviderAccountId) -> (r: bool)
        ensures
            r == (self@ == other@),
    {
        self.0 == other.0
    }

    /// Strict byte-wise order of ids.
    pub fn less_than(&self, other: &ProviderAccountId) -> (r: bool)
        ensures
            r == account_id_lt(self@, other@),
    {
        bytes_less(self.0.as_str().as_bytes(), other.0.as_str().as_bytes())
    }

    pub fn duplicate(&self) -> (r: ProviderAccountId)
        ensures
            r@ == self@,
            r == *self,
    {
        ProviderAccountId(self.0.clone())
    }
}

/// Per-account override of the scheduling concurrency; always positive.
#[derive(Debug, Clone, Copy, PartialEq, Eq, Structural, PartialOrd, Ord, Hash)]
pub struct AccountConcurrencyLimit(u32);

impl AccountConcurrencyLimit {
    pub closed spec fn spec_get(self) -> u32 {
        self.0
    }

    #[verifier::type_invariant]
    spec fn positive(self) -> bool {
        self.0 > 0
    }

    /// `None` for zero.
    pub fn new(value: u32) -> (r: Option<AccountConcurrencyLimit>)
        ensures
            value == 0 ==> r is None,
            value > 0 ==> (r matches Some(l) && l.spec_get() == value),
    {
        if value == 0 {
            None
        } else {
            Some(AccountConcurrencyLimit(value))
        }
    }

    pub fn get(self) -> (r: u32)
        ensures
            r == self.spec_get(),
            r > 0,
    {
        proof {
            use_type_invariant(&self);
        }
        self.0
    }

    /// The limit as a non-zero count.
    pub fn into_non_zero(self) -> (r: u32)
        ensures
            r == self.spec_get(),
            r > 0,
    {
        self.get()
    }
}

/// Largest account weight.
pub const ACCOUNT_WEIGHT_MAX: u16 = 100;

/// Relative scheduling priority of an account, in `1..=100`.
#[derive(Debug, Clone, Copy, PartialEq, Eq, Structural, PartialOrd, Ord, Hash)]
pub struct AccountWeight(u16);

impl AccountWeight {
    pub closed spec fn spec_get(self) -> u16 {
        self.0
    }

    #[verifier::type_invariant]
    spec fn in_range(self) -> bool {
        1 <= self.0 <= ACCOUNT_WEIGHT_MAX
    }

    /// `None` outside `1..=100`.
    pub fn new(value: u16) -> (r: Option<AccountWeight>)
        ensures
            (1 <= value <= ACCOUNT_WEIGHT_MAX) ==> (r matches Some(w) && w.spec_get() == value),
            !(1 <= value <= ACCOUNT_WEIGHT_MAX) ==> r is None,
    {
        if value == 0 || value > ACCOUNT_WEIGHT_MAX {
            None
        } else {
            Some(AccountWeight(value))
        }
    }

    /// The default weight, the lowest.
    pub fn lowest() -> (r: AccountWeight)
        ensures
            r.spec_get() == 1,
    {
        AccountWeight(1)
    }

    pub fn get(self) -> (r: u16)
        ensures
            r == self.spec_get(),
            1 <= r <= ACCOUNT_WEIGHT_MAX,
    {
        proof {
            use_type_invariant(&self);
        }
        self.0
    }
}

impl Default for AccountWeight {
    fn default() -> (r: AccountWeight)
        ensures
            r.spec_get() == 1,
    {
        AccountWeight::lowest()
    }
}

/// Upstream identity that a credential rotation may replace.
#[derive(Clone, PartialEq, Eq)]
pub struct ProviderAccountIdentity {
    upstream_user_id: String,
    upstream_account_id: Option<String>,
}

impl ProviderAccountIdentity {
    pub closed spec fn spec_upstream_user_id(&self) -> String {
        self.upstream_user_id
    }

    pub closed spec fn spec_upstream_account_id(&self) -> Option<String> {
        self.upstream_account_id
    }

    pub fn new(upstream_user_id: String, upstream_account_id: Option<String>) -> (r:
        ProviderAccountIdentity)
        ensures
            r.spec_upstream_user_id() == upstream_user_id,
            r.spec_upstream_account_id() == upstream_account_id,
    {
        ProviderAccountIdentity { upstream_user_id, upstream_account_id }
    }

    pub fn upstream_user_id(&self) -> (r: &str)
        ensures
            r@ == self.spec_upstream_user_id()@,
    {
        self.upstream_user_id.as_str()
    }

    pub fn upstream_account_id(&self) -> (r: Option<&str>)
        ensures
            r is Some == self.spec_upstream_account_id() is Some,
            r is Some ==> r->0@ == self.spec_upstream_account_id()->0@,
    {
        match &self.upstream_account_id {
            Some(v) => Some(v.as_str()),
            None => None,
        }
    }
}

/// Credential value-object construction failure.
#[derive(Debug, Clone, Copy, PartialEq, Eq, Structural)]
pub enum CredentialError {
    InvalidRevision,
    RevisionOverflow,
    ProfileAccountMismatch,
    InvalidRefreshSchedule,
}

/// Positive compare-and-swap revision of `provider_accounts.credential_revision`.
#[derive(Debug, Clone, Copy, PartialEq, Eq, Structural, PartialOrd, Ord, Hash)]
pub struct CredentialRevision(u64);

impl CredentialRevision {
    pub closed spec fn spec_get(self) -> u64 {
        self.0
    }

    #[verifier::type_invariant]
    spec fn positive(self) -> bool {
        self.0 > 0
    }

    pub fn new(value: u64) -> (r: Result<CredentialRevision, CredentialError>)
        ensures
            value == 0 ==> r == Err::<CredentialRevision, CredentialError>(
                CredentialError::InvalidRevision,
            ),
            value > 0 ==> (r matches Ok(v) && v.spec_get() == value),
    {
        if value == 0 {
            Err(CredentialError::InvalidRevision)
        } else {
            Ok(CredentialRevision(value))
        }
    }

    pub fn get(self) -> (r: u64)
        ensures
            r == self.spec_get(),
            r > 0,
    {
        proof {
            use_type_invariant(&self);
        }
        self.0
    }

    /// The following revision; fails only at `u64::MAX`.
    pub fn next(self) -> (r: Result<CredentialRevision, CredentialError>)
        ensures
            self.spec_get() < u64::MAX ==> (r matches Ok(v) && v.spec_get() == self.spec_get() + 1),
            self.spec_get() == u64::MAX ==> r == Err::<CredentialRevision, CredentialError>(
                CredentialError::RevisionOverflow,
            ),
    {
        match self.0.checked_add(1) {
            Some(v) => Ok(CredentialRevision(v)),
            None => Err(CredentialError::RevisionOverflow),
        }
    }
}

} // verus!
