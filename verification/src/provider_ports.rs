//! Neutral storage facts that provider runtimes rely on, and the stable
//! per-account jitter of credential refresh times.

use vstd::prelude::*;
use vstd::string::StringSliceAdditionalSpecFns;
use vstd::utf8::encode_utf8;

use std::collections::BTreeMap;

use crate::credential::ids::{CredentialRevision, ProviderAccountId};
use crate::credential::selection::AccountRuntimeSignals;
use crate::identity::ProviderKind;
use crate::time::{TimeSpan, UnixTime, NANOS_PER_MILLI, NANOS_PER_SEC};

verus! {

/// How a provider may decide whether to retry, without seeing store internals.
#[derive(Debug, Clone, Copy, PartialEq, Eq, Structural)]
pub enum ProviderStoreErrorKind {
    Unavailable,
    InvalidData,
    Conflict,
}

/// A redacted error of a provider storage port.
#[derive(Debug, Clone, Copy, PartialEq, Eq)]
pub struct ProviderStoreError {
    kind: ProviderStoreErrorKind,
    operation: &'static str,
}

impl ProviderStoreError {
    pub closed spec fn spec_kind(&self) -> ProviderStoreErrorKind {
        self.kind
    }

    pub closed spec fn spec_operation(&self) -> Seq<char> {
        self.operation@
    }

    pub fn new(kind: ProviderStoreErrorKind, operation: &'static str) -> (r: ProviderStoreError)
        ensures
            r.spec_kind() == kind,
            r.spec_operation() == operation@,
    {
        ProviderStoreError { kind, operation }
    }

    pub fn kind(&self) -> (r: ProviderStoreErrorKind)
        ensures
            r == self.spec_kind(),
    {
        self.kind
    }

    /// The operation that failed.
    pub fn operation(&self) -> (r: &'static str)
        ensures
            r@ == self.spec_operation(),
    {
        self.operation
    }
}

fn invalid_refresh_policy(operation: &'static str) -> (r: ProviderStoreError)
    ensures
        r.spec_kind() == ProviderStoreErrorKind::InvalidData,
        r.spec_operation() == operation@,
{
    ProviderStoreError::new(ProviderStoreErrorKind::InvalidData, operation)
}

pub const FNV_OFFSET_BASIS: u64 = 0xcbf2_9ce4_8422_2325;

pub const FNV_PRIME: u64 = 0x0000_0100_0000_01b3;

/// One FNV-1a step: xor the byte in, then multiply modulo 2^64.
pub open spec fn fnv_step(h: u64, b: u8) -> u64 {
    (h ^ (b as u64)).wrapping_mul(FNV_PRIME)
}

/// FNV-1a over `s`, starting from `h`.
pub open spec fn fnv_hash(h: u64, s: Seq<u8>) -> u64
    decreases s.len(),
{
    if s.len() == 0 {
        h
    } else {
        fnv_step(fnv_hash(h, s.drop_last()), s.last())
    }
}

/// Hashing a concatenation continues from the hash of its first part.
pub proof fn lemma_fnv_hash_concat(h: u64, a: Seq<u8>, b: Seq<u8>)
    ensures
        fnv_hash(h, a + b) == fnv_hash(fnv_hash(h, a), b),
    decreases b.len(),
{
    if b.len() == 0 {
        assert(a + b =~= a);
    } else {
        lemma_fnv_hash_concat(h, a, b.drop_last());
        assert((a + b).drop_last() =~= a + b.drop_last());
        assert((a + b).last() == b.last());
    }
}

fn fnv_extend(h: u64, bytes: &[u8]) -> (r: u64)
    ensures
        r == fnv_hash(h, bytes@),
{
    let mut hash = h;
    let mut i: usize = 0;
    while i < bytes.len()
        invariant
            i <= bytes.len(),
            hash == fnv_hash(h, bytes@.take(i as int)),
        decreases bytes.len() - i,
    {
        assert(bytes@.take(i as int + 1).drop_last() =~= bytes@.take(i as int));
        hash = (hash ^ (bytes[i] as u64)).wrapping_mul(FNV_PRIME);
        i = i + 1;
    }
    assert(bytes@.take(i as int) =~= bytes@);
    hash
}

/// A stable factor in `minimum..=maximum`: the FNV-1a hash of the value's
/// bytes, a zero byte and the salt's bytes, reduced into the range.
pub open spec fn stable_factor_spec(value: Seq<u8>, salt: Seq<u8>, minimum: u32, maximum: u32) -> u32 {
    (minimum + (fnv_hash(FNV_OFFSET_BASIS, value + seq![0u8] + salt) as int) % ((maximum - minimum) + 1)) as u32
}

fn stable_factor(value: &str, salt: &str, minimum: u32, maximum: u32) -> (r: u32)
    requires
        minimum <= maximum,
    ensures
        r == stable_factor_spec(value.spec_bytes(), salt.spec_bytes(), minimum, maximum),
        minimum <= r <= maximum,
{
    let v = value.as_bytes();
    let s = salt.as_bytes();
    let zero: [u8; 1] = [0u8];
    let h1 = fnv_extend(FNV_OFFSET_BASIS, v);
    let h2 = fnv_extend(h1, zero.as_slice());
    let h3 = fnv_extend(h2, s);
    proof {
        assert(zero@ =~= seq![0u8]);
        lemma_fnv_hash_concat(FNV_OFFSET_BASIS, v@, seq![0u8]);
        lemma_fnv_hash_concat(FNV_OFFSET_BASIS, v@ + seq![0u8], s@);
    }
    let width: u64 = (maximum - minimum) as u64 + 1;
    let offset: u64 = h3 % width;
    assert(offset < width);
    minimum + offset as u32
}

/// `x`, saturated at `u64::MAX`.
pub open spec fn saturate_u64(x: int) -> int {
    if x > u64::MAX {
        u64::MAX as int
    } else {
        x
    }
}

fn saturating_mul_u64(a: u64, b: u64) -> (r: u64)
    ensures
        r == saturate_u64(a * b),
{
    match a.checked_mul(b) {
        Some(v) => v,
        None => u64::MAX,
    }
}

/// `amount` scaled by `factor` per mille with rounding, saturating as `u64`
/// arithmetic does: `(amount * factor + 500) / 1000`.
pub open spec fn per_mille_rounded(amount: int, factor: int) -> int {
    saturate_u64(saturate_u64(saturate_u64(amount) * factor) + 500) / 1000
}

fn scale_per_mille(amount: u128, factor: u32) -> (r: u64)
    ensures
        r == per_mille_rounded(amount as int, factor as int),
{
    let a: u64 = if amount > u64::MAX as u128 { u64::MAX } else { amount as u64 };
    saturating_mul_u64(a, factor as u64).saturating_add(500) / 1000
}

/// When the next refresh attempt should run, in nanoseconds since the epoch:
/// the margin in whole seconds, jittered by `factor` per mille, before the
/// expiry; right away when the jittered margin reaches past the time left
/// or the margin is below a second; nothing when the token already expired.
pub open spec fn refresh_attempt_nanos(margin: TimeSpan, factor: u32, expires_at: UnixTime, observed_at: UnixTime) -> Option<u128> {
    if expires_at.nanos < observed_at.nanos {
        None
    } else if margin.nanos / NANOS_PER_SEC == 0 {
        Some(observed_at.nanos)
    } else {
        let jittered = per_mille_rounded((margin.nanos / NANOS_PER_SEC) as int, factor as int);
        let remaining = (expires_at.nanos - observed_at.nanos) / (NANOS_PER_SEC as int);
        if jittered >= remaining {
            Some(observed_at.nanos)
        } else {
            let lead = if jittered < 1 { 1 } else { jittered };
            Some((expires_at.nanos - lead * NANOS_PER_SEC) as u128)
        }
    }
}

/// Refresh timing knobs: a positive margin before expiry and a positive
/// refresh concurrency.
#[derive(Debug, Clone, Copy, PartialEq, Eq)]
pub struct ProviderRefreshPolicy {
    margin: TimeSpan,
    concurrency: u32,
}

impl ProviderRefreshPolicy {
    #[verifier::type_invariant]
    spec fn well_formed(self) -> bool {
        self.margin.nanos > 0 && self.concurrency > 0
    }

    pub closed spec fn spec_margin(self) -> TimeSpan {
        self.margin
    }

    pub closed spec fn spec_concurrency(self) -> u32 {
        self.concurrency
    }

    /// A policy; a zero margin is refused.
    pub fn try_new(margin: TimeSpan, concurrency: u32) -> (r: Result<ProviderRefreshPolicy, ProviderStoreError>)
        requires
            concurrency > 0,
        ensures
            margin.nanos == 0 ==> (r matches Err(e) && e.spec_kind() == ProviderStoreErrorKind::InvalidData
                && e.spec_operation() == "validate refresh policy"@),
            margin.nanos > 0 ==> (r matches Ok(p) && p.spec_margin() == margin
                && p.spec_concurrency() == concurrency),
    {
        if margin.is_zero() {
            return Err(ProviderStoreError::new(ProviderStoreErrorKind::InvalidData, "validate refresh policy"));
        }
        Ok(ProviderRefreshPolicy { margin, concurrency })
    }

    pub fn margin(self) -> (r: TimeSpan)
        ensures
            r == self.spec_margin(),
            r.nanos > 0,
    {
        proof {
            use_type_invariant(&self);
        }
        self.margin
    }

    pub fn concurrency(self) -> (r: u32)
        ensures
            r == self.spec_concurrency(),
            r > 0,
    {
        proof {
            use_type_invariant(&self);
        }
        self.concurrency
    }

    /// The next refresh attempt, jittered by a stable per-account factor, so
    /// that one account and expiry give the same instant in every process.
    pub fn next_attempt_at(self, account_id: &ProviderAccountId, access_token_expires_at: UnixTime, observed_at: UnixTime) -> (r: Result<UnixTime, ProviderStoreError>)
        ensures
            ({
                let factor = stable_factor_spec(encode_utf8(account_id@), "normal".spec_bytes(), 850, 1150);
                match refresh_attempt_nanos(self.spec_margin(), factor, access_token_expires_at, observed_at) {
                    Some(n) => r == Ok::<UnixTime, ProviderStoreError>(UnixTime { nanos: n }),
                    None => r matches Err(e) && e.spec_kind() == ProviderStoreErrorKind::InvalidData
                        && e.spec_operation() == "schedule expired access token"@,
                }
            }),
    {
        let remaining = match access_token_expires_at.duration_since(observed_at) {
            Some(d) => d,
            None => {
                return Err(invalid_refresh_policy("schedule expired access token"));
            },
        };
        let base_margin_seconds = self.margin.as_secs();
        if base_margin_seconds == 0 {
            return Ok(observed_at);
        }
        let factor = stable_factor(account_id.as_str(), "normal", 850, 1150);
        let jittered_seconds = scale_per_mille(base_margin_seconds, factor);
        if jittered_seconds as u128 >= remaining.as_secs() {
            return Ok(observed_at);
        }
        let lead: u64 = if jittered_seconds < 1 { 1 } else { jittered_seconds };
        let span = TimeSpan::from_secs(lead);
        assert(lead <= (access_token_expires_at.nanos - observed_at.nanos) / (NANOS_PER_SEC as int));
        assert(lead * NANOS_PER_SEC <= access_token_expires_at.nanos - observed_at.nanos) by (nonlinear_arith)
            requires
                lead <= (access_token_expires_at.nanos - observed_at.nanos) / (NANOS_PER_SEC as int),
                access_token_expires_at.nanos >= observed_at.nanos,
        ;
        match access_token_expires_at.checked_sub(span) {
            Some(t) => Ok(t),
            None => Err(invalid_refresh_policy("schedule access token refresh")),
        }
    }
}

/// The retry instant after a temporary refresh failure: the base delay in
/// whole milliseconds, jittered by `factor` per mille and at least one
/// millisecond, after `observed_at`; nothing for a zero base delay or an
/// instant past the representable range.
pub open spec fn refresh_retry_nanos(observed_at: UnixTime, base_delay: TimeSpan, factor: u32) -> Option<u128> {
    if base_delay.nanos == 0 {
        None
    } else {
        let scaled = per_mille_rounded((base_delay.nanos / NANOS_PER_MILLI) as int, factor as int);
        let millis = if scaled < 1 { 1 } else { scaled };
        if observed_at.nanos + millis * NANOS_PER_MILLI > u128::MAX {
            None
        } else {
            Some((observed_at.nanos + millis * NANOS_PER_MILLI) as u128)
        }
    }
}

/// The durable retry instant after a temporary refresh failure; a stable
/// per-account and per-reason jitter keeps instances from retrying in step.
pub fn provider_refresh_retry_at(account_id: &ProviderAccountId, observed_at: UnixTime, base_delay: TimeSpan, reason: &'static str) -> (r: Result<UnixTime, ProviderStoreError>)
    ensures
        ({
            let factor = stable_factor_spec(encode_utf8(account_id@), reason.spec_bytes(), 800, 1200);
            match refresh_retry_nanos(observed_at, base_delay, factor) {
                Some(n) => r == Ok::<UnixTime, ProviderStoreError>(UnixTime { nanos: n }),
                None => r matches Err(e) && e.spec_kind() == ProviderStoreErrorKind::InvalidData
                    && e.spec_operation() == "schedule refresh retry"@,
            }
        }),
{
    if base_delay.is_zero() {
        return Err(invalid_refresh_policy("schedule refresh retry"));
    }
    let factor = stable_factor(account_id.as_str(), reason, 800, 1200);
    let scaled = scale_per_mille(base_delay.as_millis(), factor);
    let millis: u64 = if scaled < 1 { 1 } else { scaled };
    match observed_at.checked_add(TimeSpan::from_millis(millis)) {
        Some(t) => Ok(t),
        None => Err(invalid_refresh_policy("schedule refresh retry")),
    }
}

/// A scheduled refresh attempt never lies before the observation or after
/// the token's expiry, whatever the jitter factor.
pub proof fn lemma_refresh_attempt_within_validity(margin: TimeSpan, factor: u32, expires_at: UnixTime, observed_at: UnixTime)
    requires
        observed_at.nanos <= expires_at.nanos,
    ensures
        refresh_attempt_nanos(margin, factor, expires_at, observed_at) matches Some(n)
            && observed_at.nanos <= n <= expires_at.nanos,
{
    if margin.nanos / NANOS_PER_SEC != 0 {
        let jittered = per_mille_rounded((margin.nanos / NANOS_PER_SEC) as int, factor as int);
        let remaining = (expires_at.nanos - observed_at.nanos) / (NANOS_PER_SEC as int);
        if jittered < remaining {
            let lead = if jittered < 1 { 1 } else { jittered };
            assert(lead * NANOS_PER_SEC <= expires_at.nanos - observed_at.nanos) by (nonlinear_arith)
                requires
                    1 <= lead <= remaining,
                    remaining == (expires_at.nanos - observed_at.nanos) / (NANOS_PER_SEC as int),
                    expires_at.nanos >= observed_at.nanos,
            ;
            assert(lead * NANOS_PER_SEC >= 0) by (nonlinear_arith)
                requires
                    lead >= 1,
            ;
        }
    }
}

/// The jitter factors stay in their documented ranges, so a refresh lead
/// is 85% to 115% of the margin and a retry delay 80% to 120% of the base.
pub proof fn lemma_stable_factor_in_range(value: Seq<u8>, salt: Seq<u8>, minimum: u32, maximum: u32)
    requires
        minimum <= maximum,
    ensures
        minimum <= stable_factor_spec(value, salt, minimum, maximum) <= maximum,
{
    let h = fnv_hash(FNV_OFFSET_BASIS, value + seq![0u8] + salt) as int;
    assert(0 <= h % ((maximum - minimum) + 1) < (maximum - minimum) + 1);
}

/// A retry is scheduled at least one millisecond after the observation.
pub proof fn lemma_refresh_retry_is_later(observed_at: UnixTime, base_delay: TimeSpan, factor: u32)
    ensures
        refresh_retry_nanos(observed_at, base_delay, factor) matches Some(n)
            ==> n >= observed_at.nanos + NANOS_PER_MILLI,
{
    if base_delay.nanos != 0 {
        let scaled = per_mille_rounded((base_delay.nanos / NANOS_PER_MILLI) as int, factor as int);
        let millis = if scaled < 1 { 1 } else { scaled };
        assert(millis * NANOS_PER_MILLI >= NANOS_PER_MILLI) by (nonlinear_arith)
            requires
                millis >= 1,
        ;
    }
}

/// The complete, rebuildable scheduling state of one provider.
#[derive(Debug, Clone, PartialEq, Eq)]
pub struct ProviderSchedulingState {
    signals: BTreeMap<ProviderAccountId, AccountRuntimeSignals>,
    round_robin_cursor: u64,
}

impl ProviderSchedulingState {
    pub closed spec fn spec_signals(&self) -> BTreeMap<ProviderAccountId, AccountRuntimeSignals> {
        self.signals
    }

    pub closed spec fn spec_round_robin_cursor(&self) -> u64 {
        self.round_robin_cursor
    }

    pub fn new(signals: BTreeMap<ProviderAccountId, AccountRuntimeSignals>, round_robin_cursor: u64) -> (r: ProviderSchedulingState)
        ensures
            r.spec_signals() == signals,
            r.spec_round_robin_cursor() == round_robin_cursor,
    {
        ProviderSchedulingState { signals, round_robin_cursor }
    }

    pub fn signals(&self) -> (r: &BTreeMap<ProviderAccountId, AccountRuntimeSignals>)
        ensures
            *r == self.spec_signals(),
    {
        &self.signals
    }

    pub fn round_robin_cursor(&self) -> (r: u64)
        ensures
            r == self.spec_round_robin_cursor(),
    {
        self.round_robin_cursor
    }

}

/// The neutral facts of a request-level account lease.
#[derive(Debug, Clone, PartialEq, Eq)]
pub struct ProviderSchedulingLeaseRequest {
    provider_kind: ProviderKind,
    account_id: ProviderAccountId,
    credential_revision: CredentialRevision,
    max_concurrent: u32,
    request_interval: TimeSpan,
    deadline: UnixTime,
}

impl ProviderSchedulingLeaseRequest {
    pub closed spec fn spec_provider_kind(&self) -> ProviderKind {
        self.provider_kind
    }

    pub closed spec fn spec_account_id(&self) -> ProviderAccountId {
        self.account_id
    }

    pub closed spec fn spec_credential_revision(&self) -> CredentialRevision {
        self.credential_revision
    }

    pub closed spec fn spec_max_concurrent(&self) -> u32 {
        self.max_concurrent
    }

    pub closed spec fn spec_request_interval(&self) -> TimeSpan {
        self.request_interval
    }

    pub closed spec fn spec_deadline(&self) -> UnixTime {
        self.deadline
    }

    pub fn new(provider_kind: ProviderKind, account_id: ProviderAccountId, credential_revision: CredentialRevision, max_concurrent: u32, request_interval: TimeSpan, deadline: UnixTime) -> (r: ProviderSchedulingLeaseRequest)
        requires
            max_concurrent > 0,
        ensures
            r.spec_provider_kind() == provider_kind,
            r.spec_account_id() == account_id,
            r.spec_credential_revision() == credential_revision,
            r.spec_max_concurrent() == max_concurrent,
            r.spec_request_interval() == request_interval,
            r.spec_deadline() == deadline,
    {
        ProviderSchedulingLeaseRequest { provider_kind, account_id, credential_revision, max_concurrent, request_interval, deadline }
    }

    pub fn provider_kind(&self) -> (r: &ProviderKind)
        ensures
            *r == self.spec_provider_kind(),
    {
        &self.provider_kind
    }

    pub fn account_id(&self) -> (r: &ProviderAccountId)
        ensures
            *r == self.spec_account_id(),
    {
        &self.account_id
    }

    pub fn credential_revision(&self) -> (r: CredentialRevision)
        ensures
            r == self.spec_credential_revision(),
    {
        self.credential_revision
    }

    pub fn max_concurrent(&self) -> (r: u32)
        ensures
            r == self.spec_max_concurrent(),
    {
        self.max_concurrent
    }

    pub fn request_interval(&self) -> (r: TimeSpan)
        ensures
            r == self.spec_request_interval(),
    {
        self.request_interval
    }

    pub fn deadline(&self) -> (r: UnixTime)
        ensures
            r == self.spec_deadline(),
    {
        self.deadline
    }

}

/// The OAuth refresh concurrency all providers share.
#[derive(Debug, Clone, Copy, PartialEq, Eq)]
pub struct ProviderRefreshCapacityRequest {
    max_concurrent: u32,
}

impl ProviderRefreshCapacityRequest {
    #[verifier::type_invariant]
    spec fn well_formed(self) -> bool {
        self.max_concurrent > 0
    }

    pub closed spec fn spec_max_concurrent(&self) -> u32 {
        self.max_concurrent
    }

    pub fn new(max_concurrent: u32) -> (r: ProviderRefreshCapacityRequest)
        requires
            max_concurrent > 0,
        ensures
            r.spec_max_concurrent() == max_concurrent,
    {
        ProviderRefreshCapacityRequest { max_concurrent }
    }

    pub fn max_concurrent(&self) -> (r: u32)
        ensures
            r == self.spec_max_concurrent(),
            r > 0,
    {
        proof {
            use_type_invariant(self);
        }
        self.max_concurrent
    }

}

/// The per-account mutual exclusion of a credential refresh.
#[derive(Debug, Clone, PartialEq, Eq)]
pub struct ProviderRefreshLeaseRequest {
    account_id: ProviderAccountId,
    credential_revision: CredentialRevision,
}

impl ProviderRefreshLeaseRequest {
    pub closed spec fn spec_account_id(&self) -> ProviderAccountId {
        self.account_id
    }

    pub closed spec fn spec_credential_revision(&self) -> CredentialRevision {
        self.credential_revision
    }

    pub fn new(account_id: ProviderAccountId, credential_revision: CredentialRevision) -> (r: ProviderRefreshLeaseRequest)
        ensures
            r.spec_account_id() == account_id,
            r.spec_credential_revision() == credential_revision,
    {
        ProviderRefreshLeaseRequest { account_id, credential_revision }
    }

    pub fn account_id(&self) -> (r: &ProviderAccountId)
        ensures
            *r == self.spec_account_id(),
    {
        &self.account_id
    }

    pub fn credential_revision(&self) -> (r: CredentialRevision)
        ensures
            r == self.spec_credential_revision(),
    {
        self.credential_revision
    }

}

/// The platform, account and credential revision an opaque catalog cache entry belongs to.
#[derive(Debug, Clone, PartialEq, Eq)]
pub struct ProviderCatalogCacheKey {
    provider_kind: ProviderKind,
    account_id: ProviderAccountId,
    credential_revision: CredentialRevision,
}

impl ProviderCatalogCacheKey {
    pub closed spec fn spec_provider_kind(&self) -> ProviderKind {
        self.provider_kind
    }

    pub closed spec fn spec_account_id(&self) -> ProviderAccountId {
        self.account_id
    }

    pub closed spec fn spec_credential_revision(&self) -> CredentialRevision {
        self.credential_revision
    }

    pub fn new(provider_kind: ProviderKind, account_id: ProviderAccountId, credential_revision: CredentialRevision) -> (r: ProviderCatalogCacheKey)
        ensures
            r.spec_provider_kind() == provider_kind,
            r.spec_account_id() == account_id,
            r.spec_credential_revision() == credential_revision,
    {
        ProviderCatalogCacheKey { provider_kind, account_id, credential_revision }
    }

    pub fn provider_kind(&self) -> (r: &ProviderKind)
        ensures
            *r == self.spec_provider_kind(),
    {
        &self.provider_kind
    }

    pub fn account_id(&self) -> (r: &ProviderAccountId)
        ensures
            *r == self.spec_account_id(),
    {
        &self.account_id
    }

    pub fn credential_revision(&self) -> (r: CredentialRevision)
        ensures
            r == self.spec_credential_revision(),
    {
        self.credential_revision
    }

}

/// A temporary cooldown: only the scheduling deadline; the reason stays with the account's durable state.
#[derive(Debug, Clone, PartialEq, Eq)]
pub struct ProviderCooldown {
    account_id: ProviderAccountId,
    credential_revision: CredentialRevision,
    until: UnixTime,
}

impl ProviderCooldown {
    pub closed spec fn spec_account_id(&self) -> ProviderAccountId {
        self.account_id
    }

    pub closed spec fn spec_credential_revision(&self) -> CredentialRevision {
        self.credential_revision
    }

    pub closed spec fn spec_until(&self) -> UnixTime {
        self.until
    }

    pub fn new(account_id: ProviderAccountId, credential_revision: CredentialRevision, until: UnixTime) -> (r: ProviderCooldown)
        ensures
            r.spec_account_id() == account_id,
            r.spec_credential_revision() == credential_revision,
            r.spec_until() == until,
    {
        ProviderCooldown { account_id, credential_revision, until }
    }

    pub fn account_id(&self) -> (r: &ProviderAccountId)
        ensures
            *r == self.spec_account_id(),
    {
        &self.account_id
    }

    pub fn credential_revision(&self) -> (r: CredentialRevision)
        ensures
            r == self.spec_credential_revision(),
    {
        self.credential_revision
    }

    pub fn until(&self) -> (r: UnixTime)
        ensures
            r == self.spec_until(),
    {
        self.until
    }

}

/// The three leases a provider runtime holds; a refresh holds both the
/// global capacity lease and the account's exclusive lease.
#[derive(Debug, Clone, PartialEq, Eq)]
pub enum ProviderLeaseRequest {
    Scheduling(ProviderSchedulingLeaseRequest),
    RefreshCapacity(ProviderRefreshCapacityRequest),
    Refresh(ProviderRefreshLeaseRequest),
}

/// A byte allowed in a session affinity key: lower-case ASCII letters,
/// digits, `-` and `_`.
pub open spec fn affinity_key_byte(b: u8) -> bool {
    (97 <= b <= 122) || (48 <= b <= 57) || b == 45 || b == 95
}

/// A valid session affinity key: 1 to 128 bytes, each of them allowed.
pub open spec fn affinity_key_valid(s: Seq<u8>) -> bool {
    0 < s.len() <= 128 && forall|i: int| 0 <= i < s.len() ==> affinity_key_byte(#[trigger] s[i])
}

/// An irreversible affinity key the provider derived from a raw session
/// anchor. It has no `Debug`.
#[derive(Clone, PartialEq, Eq, PartialOrd, Ord, Hash)]
pub struct ProviderSessionAffinityKey(String);

impl View for ProviderSessionAffinityKey {
    type V = Seq<char>;

    closed spec fn view(&self) -> Seq<char> {
        self.0@
    }
}

impl ProviderSessionAffinityKey {
    /// Validates and wraps a key.
    pub fn try_new(value: String) -> (r: Result<ProviderSessionAffinityKey, ProviderStoreError>)
        ensures
            r is Ok <==> affinity_key_valid(encode_utf8(value@)),
            r matches Ok(k) ==> k@ == value@,
            r matches Err(e) ==> e.spec_kind() == ProviderStoreErrorKind::InvalidData
                && e.spec_operation() == "validate provider session affinity key"@,
    {
        let b = value.as_str().as_bytes();
        let mut ok = 0 < b.len() && b.len() <= 128;
        let mut i: usize = 0;
        while ok && i < b.len()
            invariant
                i <= b.len(),
                b@ == encode_utf8(value@),
                ok ==> 0 < b.len() <= 128,
                ok ==> forall|j: int| 0 <= j < i ==> affinity_key_byte(#[trigger] b@[j]),
                !ok ==> !affinity_key_valid(b@),
            decreases b.len() - i,
        {
            let c = b[i];
            if !((97 <= c && c <= 122) || (48 <= c && c <= 57) || c == 45 || c == 95) {
                assert(!affinity_key_byte(b@[i as int]));
                ok = false;
            }
            i = i + 1;
        }
        if !ok {
            return Err(ProviderStoreError::new(
                ProviderStoreErrorKind::InvalidData,
                "validate provider session affinity key",
            ));
        }
        Ok(ProviderSessionAffinityKey(value))
    }

    /// The key as the store keeps it.
    pub fn expose_to_store(&self) -> (r: &str)
        ensures
            r@ == self@,
    {
        self.0.as_str()
    }
}

/// A raw OAuth pending-flow binding, 1 to 512 bytes, which lives only
/// between the provider and the store. It has no `Debug`.
#[derive(Clone, PartialEq, Eq)]
pub struct OAuthPendingBinding(String);

impl View for OAuthPendingBinding {
    type V = Seq<char>;

    closed spec fn view(&self) -> Seq<char> {
        self.0@
    }
}

impl OAuthPendingBinding {
    /// Validates and wraps a binding.
    pub fn try_new(value: String) -> (r: Result<OAuthPendingBinding, ProviderStoreError>)
        ensures
            r is Ok <==> 0 < encode_utf8(value@).len() <= 512,
            r matches Ok(k) ==> k@ == value@,
            r matches Err(e) ==> e.spec_kind() == ProviderStoreErrorKind::InvalidData
                && e.spec_operation() == "validate OAuth pending binding"@,
    {
        let n = value.as_str().as_bytes().len();
        if n == 0 || n > 512 {
            return Err(ProviderStoreError::new(
                ProviderStoreErrorKind::InvalidData,
                "validate OAuth pending binding",
            ));
        }
        Ok(OAuthPendingBinding(value))
    }

    /// The binding as the store keeps it.
    pub fn expose_to_store(&self) -> (r: &str)
        ensures
            r@ == self@,
    {
        self.0.as_str()
    }
}

/// Whether a pending OAuth flow was stored or already existed.
#[derive(Debug, Clone, Copy, PartialEq, Eq, Structural)]
pub enum OAuthPendingPutOutcome {
    Stored,
    AlreadyExists,
}

} // verus!
