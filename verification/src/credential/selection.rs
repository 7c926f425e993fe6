//! Request-level account eligibility and the single account selector of a target.

use vstd::prelude::*;

use crate::concurrency::ConcurrencyQueuePolicy;
use crate::credential::smart_scheduling::SmartSchedulingConfig;
use vstd::utf8::encode_utf8;

use crate::credential::account::ProviderAccount;
use crate::credential::quotient::{quotient_key, rounded_quotient_key};
use crate::credential::ids::{account_id_lt, ProviderAccountId};
use crate::credential::ranking::{
    count_where, lemma_count_add_one, lemma_count_ext, lemma_count_positive, lemma_count_witness,
    lemma_count_zero,
};
use crate::credential::state::{resolved_status, AccountStatus};
use crate::text::{lemma_bytes_lt_order, lemma_encode_injective, str_equal};
use crate::time::{TimeSpan, UnixTime};

verus! {

/// Stable values of `runtime_settings.rotation_strategy`.
#[derive(Debug, Clone, Copy, PartialEq, Eq, Structural, Hash)]
pub enum RotationStrategy {
    Smart,
    QuotaResetPriority,
    RoundRobin,
    Sticky,
}

impl RotationStrategy {
    /// The stable wire and storage name.
    pub open spec fn spec_name(self) -> Seq<char> {
        match self {
            RotationStrategy::Smart => "smart"@,
            RotationStrategy::QuotaResetPriority => "quota_reset_priority"@,
            RotationStrategy::RoundRobin => "round_robin"@,
            RotationStrategy::Sticky => "sticky"@,
        }
    }

    pub fn as_str(self) -> (r: &'static str)
        ensures
            r@ == self.spec_name(),
    {
        match self {
            RotationStrategy::Smart => "smart",
            RotationStrategy::QuotaResetPriority => "quota_reset_priority",
            RotationStrategy::RoundRobin => "round_robin",
            RotationStrategy::Sticky => "sticky",
        }
    }

    /// Parses a stable name; any other text is `None`.
    pub fn parse(value: &str) -> (r: Option<RotationStrategy>)
        ensures
            r matches Some(x) ==> value@ == x.spec_name(),
            r is None ==> forall|x: RotationStrategy| value@ != #[trigger] x.spec_name(),
    {
        if str_equal(value, "smart") {
            return Some(RotationStrategy::Smart);
        }
        if str_equal(value, "quota_reset_priority") {
            return Some(RotationStrategy::QuotaResetPriority);
        }
        if str_equal(value, "round_robin") {
            return Some(RotationStrategy::RoundRobin);
        }
        if str_equal(value, "sticky") {
            return Some(RotationStrategy::Sticky);
        }
        assert forall|x: RotationStrategy| value@ != #[trigger] x.spec_name() by {
            match x {
                RotationStrategy::Smart => {},
                RotationStrategy::QuotaResetPriority => {},
                RotationStrategy::RoundRobin => {},
                RotationStrategy::Sticky => {},
            }
        }
        None
    }
}

/// Distinct values of [`RotationStrategy`] have distinct stable names, so parsing a
/// value's name gives that value back.
pub proof fn lemma_rotation_strategy_names_distinct(x: RotationStrategy, y: RotationStrategy)
    ensures
        x.spec_name() == y.spec_name() ==> x == y,
{
    reveal_strlit("smart");
    reveal_strlit("quota_reset_priority");
    reveal_strlit("round_robin");
    reveal_strlit("sticky");
    match x {
        RotationStrategy::Smart => match y {
            RotationStrategy::Smart => {},
            RotationStrategy::QuotaResetPriority => { assert("smart"@.len() != "quota_reset_priority"@.len()); },
            RotationStrategy::RoundRobin => { assert("smart"@.len() != "round_robin"@.len()); },
            RotationStrategy::Sticky => { assert("smart"@.len() != "sticky"@.len()); },
        },
        RotationStrategy::QuotaResetPriority => match y {
            RotationStrategy::Smart => { assert("quota_reset_priority"@.len() != "smart"@.len()); },
            RotationStrategy::QuotaResetPriority => {},
            RotationStrategy::RoundRobin => { assert("quota_reset_priority"@.len() != "round_robin"@.len()); },
            RotationStrategy::Sticky => { assert("quota_reset_priority"@.len() != "sticky"@.len()); },
        },
        RotationStrategy::RoundRobin => match y {
            RotationStrategy::Smart => { assert("round_robin"@.len() != "smart"@.len()); },
            RotationStrategy::QuotaResetPriority => { assert("round_robin"@.len() != "quota_reset_priority"@.len()); },
            RotationStrategy::RoundRobin => {},
            RotationStrategy::Sticky => { assert("round_robin"@.len() != "sticky"@.len()); },
        },
        RotationStrategy::Sticky => match y {
            RotationStrategy::Smart => { assert("sticky"@.len() != "smart"@.len()); },
            RotationStrategy::QuotaResetPriority => { assert("sticky"@.len() != "quota_reset_priority"@.len()); },
            RotationStrategy::RoundRobin => { assert("sticky"@.len() != "round_robin"@.len()); },
            RotationStrategy::Sticky => {},
        },
    }
}

/// The scheduling policy frozen from `runtime_settings` into one request plan.
#[derive(Debug, Clone, Copy, PartialEq, Eq)]
pub struct AccountSelectionPolicy {
    strategy: RotationStrategy,
    smart_scheduling: SmartSchedulingConfig,
    max_concurrent_per_account: u32,
    request_interval: TimeSpan,
    queue_policy: ConcurrencyQueuePolicy,
}

impl AccountSelectionPolicy {
    #[verifier::type_invariant]
    spec fn positive_concurrency(self) -> bool {
        self.max_concurrent_per_account > 0
    }

    pub closed spec fn spec_strategy(self) -> RotationStrategy {
        self.strategy
    }

    pub closed spec fn spec_max_concurrent(self) -> u32 {
        self.max_concurrent_per_account
    }

    pub closed spec fn spec_request_interval(self) -> TimeSpan {
        self.request_interval
    }

    pub closed spec fn spec_smart_scheduling(self) -> SmartSchedulingConfig {
        self.smart_scheduling
    }

    pub closed spec fn spec_queue_policy(self) -> ConcurrencyQueuePolicy {
        self.queue_policy
    }

    pub fn new(strategy: RotationStrategy, max_concurrent_per_account: u32, request_interval: TimeSpan) -> (r:
        AccountSelectionPolicy)
        requires
            max_concurrent_per_account > 0,
        ensures
            r.spec_strategy() == strategy,
            r.spec_max_concurrent() == max_concurrent_per_account,
            r.spec_request_interval() == request_interval,
            r.spec_smart_scheduling().spec_weights() == seq![10u8, 8u8, 10u8, 5u8, 0u8, 0u8],
            !r.spec_smart_scheduling().spec_prefer_higher_weight(),
            r.spec_queue_policy().max_waiting == 0,
            r.spec_queue_policy().timeout.nanos == 0,
    {
        AccountSelectionPolicy {
            strategy,
            smart_scheduling: SmartSchedulingConfig::default(),
            max_concurrent_per_account,
            request_interval,
            queue_policy: ConcurrencyQueuePolicy::default(),
        }
    }

    /// Sets the policy for waiting on account capacity.
    pub fn with_queue(self, policy: ConcurrencyQueuePolicy) -> (r: AccountSelectionPolicy)
        ensures
            r.spec_queue_policy() == policy,
            r.spec_strategy() == self.spec_strategy(),
            r.spec_max_concurrent() == self.spec_max_concurrent(),
            r.spec_request_interval() == self.spec_request_interval(),
            r.spec_smart_scheduling() == self.spec_smart_scheduling(),
    {
        proof {
            use_type_invariant(&self);
        }
        AccountSelectionPolicy { queue_policy: policy, ..self }
    }

    pub fn queue_policy(self) -> (r: ConcurrencyQueuePolicy)
        ensures
            r == self.spec_queue_policy(),
    {
        self.queue_policy
    }

    /// Sets the smart scheduling weights.
    pub fn with_smart_scheduling(self, config: SmartSchedulingConfig) -> (r: AccountSelectionPolicy)
        ensures
            r.spec_smart_scheduling() == config,
            r.spec_strategy() == self.spec_strategy(),
            r.spec_max_concurrent() == self.spec_max_concurrent(),
            r.spec_request_interval() == self.spec_request_interval(),
            r.spec_queue_policy() == self.spec_queue_policy(),
    {
        proof {
            use_type_invariant(&self);
        }
        AccountSelectionPolicy { smart_scheduling: config, ..self }
    }

    pub fn smart_scheduling(self) -> (r: SmartSchedulingConfig)
        ensures
            r == self.spec_smart_scheduling(),
    {
        self.smart_scheduling
    }

    pub fn strategy(self) -> (r: RotationStrategy)
        ensures
            r == self.spec_strategy(),
    {
        self.strategy
    }

    /// The default per-account concurrency; never zero.
    pub fn max_concurrent_per_account(self) -> (r: u32)
        ensures
            r == self.spec_max_concurrent(),
            r > 0,
    {
        proof {
            use_type_invariant(&self);
        }
        self.max_concurrent_per_account
    }

    pub fn request_interval(self) -> (r: TimeSpan)
        ensures
            r == self.spec_request_interval(),
    {
        self.request_interval
    }
}

/// Rebuildable runtime signals: concurrency facts from the store and quota
/// facts as the provider interprets them.
#[derive(Debug, Clone, Copy, PartialEq, Eq, Structural)]
pub struct AccountRuntimeSignals {
    pub in_flight: u32,
    pub last_started_at: Option<UnixTime>,
    pub quota_reset_at: Option<UnixTime>,
    pub quota_remaining_rank: Option<u64>,
    pub rate_limited_until: Option<UnixTime>,
    pub failure_rate_basis_points: Option<u16>,
    pub first_output_latency_ms: Option<u64>,
}

/// Neutral feedback of one real upstream attempt for smart scheduling.
#[derive(Debug, Clone, Copy, PartialEq, Eq, Structural)]
pub enum AccountAttemptFeedback {
    Succeeded { first_output_ms: Option<u64> },
    Failed { first_output_ms: Option<u64> },
    /// The account refused for lack of capacity; it counts as a failure with
    /// a lighter weight.
    CapacityRejected { first_output_ms: Option<u64> },
}

/// Neutral scheduling facts a provider projects from its private quota document.
#[derive(Debug, Clone, Copy, PartialEq, Eq, Structural)]
pub struct AccountQuotaSignals {
    reset_at: Option<UnixTime>,
    remaining_rank: Option<u64>,
}

impl AccountQuotaSignals {
    pub closed spec fn spec_reset_at(self) -> Option<UnixTime> {
        self.reset_at
    }

    pub closed spec fn spec_remaining_rank(self) -> Option<u64> {
        self.remaining_rank
    }

    pub fn new(reset_at: Option<UnixTime>, remaining_rank: Option<u64>) -> (r: AccountQuotaSignals)
        ensures
            r.spec_reset_at() == reset_at,
            r.spec_remaining_rank() == remaining_rank,
    {
        AccountQuotaSignals { reset_at, remaining_rank }
    }

    pub fn reset_at(self) -> (r: Option<UnixTime>)
        ensures
            r == self.spec_reset_at(),
    {
        self.reset_at
    }

    pub fn remaining_rank(self) -> (r: Option<u64>)
        ensures
            r == self.spec_remaining_rank(),
    {
        self.remaining_rank
    }
}

impl AccountRuntimeSignals {
    /// Overlays the provider's quota projection when there is one.
    pub fn with_provider_quota(self, quota: Option<AccountQuotaSignals>) -> (r: AccountRuntimeSignals)
        ensures
            quota matches Some(q) ==> r == (AccountRuntimeSignals {
                quota_reset_at: q.spec_reset_at(),
                quota_remaining_rank: q.spec_remaining_rank(),
                ..self
            }),
            quota is None ==> r == self,
    {
        let mut s = self;
        if let Some(q) = quota {
            s.quota_reset_at = q.reset_at;
            s.quota_remaining_rank = q.remaining_rank;
        }
        s
    }

    pub fn with_rate_limit(self, rate_limited_until: Option<UnixTime>) -> (r: AccountRuntimeSignals)
        ensures
            r == (AccountRuntimeSignals { rate_limited_until, ..self }),
    {
        let mut s = self;
        s.rate_limited_until = rate_limited_until;
        s
    }

    pub fn with_runtime_health(
        self,
        failure_rate_basis_points: Option<u16>,
        first_output_latency_ms: Option<u64>,
    ) -> (r: AccountRuntimeSignals)
        ensures
            r == (AccountRuntimeSignals {
                failure_rate_basis_points,
                first_output_latency_ms,
                ..self
            }),
    {
        let mut s = self;
        s.failure_rate_basis_points = failure_rate_basis_points;
        s.first_output_latency_ms = first_output_latency_ms;
        s
    }
}

/// Persisted account facts combined with rebuildable runtime signals.
#[derive(Debug, Clone, PartialEq, Eq)]
pub struct AccountCandidate {
    pub account: ProviderAccount,
    pub signals: AccountRuntimeSignals,
}

/// The accounts a client key may use.
#[derive(Debug, Clone, PartialEq, Eq)]
pub struct AccountScope {
    pub allowed: Vec<ProviderAccountId>,
}

/// Whether `ids` holds an id with text `id`.
pub open spec fn ids_contain(ids: Seq<ProviderAccountId>, id: Seq<char>) -> bool {
    exists|k: int| 0 <= k < ids.len() && #[trigger] ids[k]@ == id
}

fn ids_contains(ids: &Vec<ProviderAccountId>, id: &ProviderAccountId) -> (r: bool)
    ensures
        r == ids_contain(ids@, id@),
{
    let mut k: usize = 0;
    while k < ids.len()
        invariant
            k <= ids.len(),
            forall|j: int| 0 <= j < k ==> #[trigger] ids@[j]@ != id@,
        decreases ids.len() - k,
    {
        if ids[k].same_as(id) {
            return true;
        }
        k = k + 1;
    }
    false
}

impl AccountScope {
    pub fn allows(&self, id: &ProviderAccountId) -> (r: bool)
        ensures
            r == ids_contain(self.allowed@, id@),
    {
        ids_contains(&self.allowed, id)
    }
}

/// Whether local eligibility projections apply to a selection.
#[derive(Debug, Clone, Copy, PartialEq, Eq, Structural)]
pub enum AccountEligibilityPolicy {
    Enforce,
    BypassForDiagnostic,
}

impl Default for AccountEligibilityPolicy {
    fn default() -> (r: AccountEligibilityPolicy)
        ensures
            r == AccountEligibilityPolicy::Enforce,
    {
        AccountEligibilityPolicy::Enforce
    }
}

impl AccountEligibilityPolicy {
    pub fn bypasses_local_eligibility(self) -> (r: bool)
        ensures
            r == (self == AccountEligibilityPolicy::BypassForDiagnostic),
    {
        match self {
            AccountEligibilityPolicy::BypassForDiagnostic => true,
            AccountEligibilityPolicy::Enforce => false,
        }
    }
}

/// The global policy snapshot of one account selection.
#[derive(Debug, Clone)]
pub struct AccountSelectionContext {
    pub policy: AccountSelectionPolicy,
    pub now: UnixTime,
    pub excluded_accounts: Vec<ProviderAccountId>,
    pub preferred_account: Option<ProviderAccountId>,
    /// Whether an eligible preferred account wins over the persisted weights
    /// of the others.
    pub preferred_account_overrides_weight: bool,
    pub round_robin_cursor: u64,
    pub eligibility: AccountEligibilityPolicy,
    pub account_scope: Option<AccountScope>,
}

/// The constraint that kept a candidate out of the scheduling pool.
#[derive(Debug, Clone, Copy, PartialEq, Eq, Structural)]
pub enum AccountSchedulingBlocker {
    OutsideClientScope,
    LocalAvailability,
    Excluded,
    ConcurrencyLimit,
    RequestInterval,
    LowerWeight,
}

/// What happened to the preferred account in one selection.
#[derive(Debug, Clone, Copy, PartialEq, Eq, Structural)]
pub enum PreferredAccountSelection {
    NotRequested,
    Hit,
    Missing,
    Blocked(AccountSchedulingBlocker),
    /// The preferred account was selectable, but a scheduling policy picked another.
    OverriddenByPolicy,
}

/// The request interval has passed since `last` started.
pub open spec fn interval_elapsed(ctx: AccountSelectionContext, last: UnixTime) -> bool {
    last.nanos <= ctx.now.nanos && ctx.now.nanos - last.nanos >= ctx.policy.spec_request_interval().nanos
}

/// The first constraint, in a fixed order, that blocks `c` under `ctx`.
pub open spec fn spec_blocker(c: AccountCandidate, ctx: AccountSelectionContext) -> Option<
    AccountSchedulingBlocker,
> {
    if ctx.account_scope matches Some(scope) && !ids_contain(scope.allowed@, c.account.spec_id()@) {
        Some(AccountSchedulingBlocker::OutsideClientScope)
    } else if ctx.eligibility != AccountEligibilityPolicy::BypassForDiagnostic && resolved_status(
        c.account.spec_status_facts(c.signals.rate_limited_until),
        ctx.now,
    ).status != AccountStatus::Normal {
        Some(AccountSchedulingBlocker::LocalAvailability)
    } else if ids_contain(ctx.excluded_accounts@, c.account.spec_id()@) {
        Some(AccountSchedulingBlocker::Excluded)
    } else if c.signals.in_flight >= c.account.spec_effective_concurrency(
        ctx.policy.spec_max_concurrent(),
    ) {
        Some(AccountSchedulingBlocker::ConcurrencyLimit)
    } else if c.signals.last_started_at matches Some(l) && !interval_elapsed(ctx, l) {
        Some(AccountSchedulingBlocker::RequestInterval)
    } else {
        None
    }
}


// ---------------------------------------------------------------------------
// Orders used by the rotation strategies
// ---------------------------------------------------------------------------

pub open spec fn cid(cs: Seq<AccountCandidate>, i: int) -> Seq<char> {
    cs[i].account.spec_id()@
}

/// Candidates by account id, ties broken by position.
pub open spec fn id_before(cs: Seq<AccountCandidate>, i: int, j: int) -> bool {
    account_id_lt(cid(cs, i), cid(cs, j)) || (cid(cs, i) == cid(cs, j) && i < j)
}

pub proof fn lemma_id_order(cs: Seq<AccountCandidate>, i: int, j: int, k: int)
    ensures
        !id_before(cs, i, i),
        id_before(cs, i, j) ==> !id_before(cs, j, i),
        i != j ==> id_before(cs, i, j) || id_before(cs, j, i),
        id_before(cs, i, j) && id_before(cs, j, k) ==> id_before(cs, i, k),
{
    let a = encode_utf8(cid(cs, i));
    let b = encode_utf8(cid(cs, j));
    let c = encode_utf8(cid(cs, k));
    lemma_bytes_lt_order(a, b, c);
    lemma_bytes_lt_order(b, a, c);
    lemma_bytes_lt_order(a, c, b);
    if a == b {
        lemma_encode_injective(cid(cs, i), cid(cs, j));
    }
    if b == c {
        lemma_encode_injective(cid(cs, j), cid(cs, k));
    }
    if a == c {
        lemma_encode_injective(cid(cs, i), cid(cs, k));
    }
}

/// Position of candidate `i` among the members, ordered by account id.
pub open spec fn id_rank(cs: Seq<AccountCandidate>, member: spec_fn(int) -> bool, i: int) -> nat {
    count_where(|j: int| member(j) && id_before(cs, j, i), cs.len() as int)
}

proof fn lemma_id_rank_ext(cs: Seq<AccountCandidate>, f: spec_fn(int) -> bool, g: spec_fn(int) -> bool, i: int)
    requires
        forall|j: int| 0 <= j < cs.len() ==> #[trigger] f(j) == g(j),
    ensures
        id_rank(cs, f, i) == id_rank(cs, g, i),
        member_count(cs, f) == member_count(cs, g),
{
    lemma_count_ext(|j: int| f(j) && id_before(cs, j, i), |j: int| g(j) && id_before(cs, j, i), cs.len() as int);
    lemma_count_ext(f, g, cs.len() as int);
}

pub open spec fn member_count(cs: Seq<AccountCandidate>, member: spec_fn(int) -> bool) -> nat {
    count_where(member, cs.len() as int)
}

pub open spec fn time_opt_lt(a: Option<UnixTime>, b: Option<UnixTime>) -> bool {
    match (a, b) {
        (None, Some(_)) => true,
        (Some(x), Some(y)) => x.nanos < y.nanos,
        _ => false,
    }
}

/// Known reset times first, earliest first.
pub open spec fn reset_lt(a: Option<UnixTime>, b: Option<UnixTime>) -> bool {
    match (a, b) {
        (Some(_), None) => true,
        (Some(x), Some(y)) => x.nanos < y.nanos,
        _ => false,
    }
}

pub open spec fn limit_of(cs: Seq<AccountCandidate>, ctx: AccountSelectionContext, i: int) -> u32 {
    cs[i].account.spec_effective_concurrency(ctx.policy.spec_max_concurrent())
}

/// Capacity use of `i`: its in-flight requests over its concurrency limit,
/// rounded to the nearest double, as an exact key (see [`quotient_key`]).
pub open spec fn util_of(cs: Seq<AccountCandidate>, ctx: AccountSelectionContext, i: int) -> nat {
    quotient_key(cs[i].signals.in_flight as nat, limit_of(cs, ctx, i) as nat)
}

/// Capacity use of `i` below that of `j`, as the rounded quotients compare.
pub open spec fn util_lt(cs: Seq<AccountCandidate>, ctx: AccountSelectionContext, i: int, j: int) -> bool {
    util_of(cs, ctx, i) < util_of(cs, ctx, j)
}

/// Capacity use of `i` and `j` round to the same value.
pub open spec fn util_eq(cs: Seq<AccountCandidate>, ctx: AccountSelectionContext, i: int, j: int) -> bool {
    util_of(cs, ctx, i) == util_of(cs, ctx, j)
}

/// Quota-reset-priority order: earliest known reset, lowest capacity use,
/// least recently started, account id, position.
pub open spec fn qrp_before(cs: Seq<AccountCandidate>, ctx: AccountSelectionContext, i: int, j: int) -> bool {
    let (ri, rj) = (cs[i].signals.quota_reset_at, cs[j].signals.quota_reset_at);
    let (li, lj) = (cs[i].signals.last_started_at, cs[j].signals.last_started_at);
    reset_lt(ri, rj) || (ri == rj && (util_lt(cs, ctx, i, j) || (util_eq(cs, ctx, i, j) && (
    time_opt_lt(li, lj) || (li == lj && id_before(cs, i, j))))))
}

/// Sticky order: most recently started first (never-started last), then id, position.
pub open spec fn sticky_before(cs: Seq<AccountCandidate>, i: int, j: int) -> bool {
    let (li, lj) = (cs[i].signals.last_started_at, cs[j].signals.last_started_at);
    time_opt_lt(lj, li) || (li == lj && id_before(cs, i, j))
}

proof fn lemma_time_opt_order(a: Option<UnixTime>, b: Option<UnixTime>, c: Option<UnixTime>)
    ensures
        !time_opt_lt(a, a),
        time_opt_lt(a, b) ==> !time_opt_lt(b, a),
        a != b ==> time_opt_lt(a, b) || time_opt_lt(b, a),
        time_opt_lt(a, b) && time_opt_lt(b, c) ==> time_opt_lt(a, c),
        !reset_lt(a, a),
        reset_lt(a, b) ==> !reset_lt(b, a),
        a != b ==> reset_lt(a, b) || reset_lt(b, a),
        reset_lt(a, b) && reset_lt(b, c) ==> reset_lt(a, c),
{
}

pub proof fn lemma_qrp_order(cs: Seq<AccountCandidate>, ctx: AccountSelectionContext, i: int, j: int, k: int)
    ensures
        !qrp_before(cs, ctx, i, i),
        qrp_before(cs, ctx, i, j) ==> !qrp_before(cs, ctx, j, i),
        i != j ==> qrp_before(cs, ctx, i, j) || qrp_before(cs, ctx, j, i),
        qrp_before(cs, ctx, i, j) && qrp_before(cs, ctx, j, k) ==> qrp_before(cs, ctx, i, k),
{
    let (ri, rj, rk) = (cs[i].signals.quota_reset_at, cs[j].signals.quota_reset_at, cs[k].signals.quota_reset_at);
    let (li, lj, lk) = (cs[i].signals.last_started_at, cs[j].signals.last_started_at, cs[k].signals.last_started_at);
    lemma_time_opt_order(ri, rj, rk);
    lemma_time_opt_order(rj, ri, rk);
    lemma_time_opt_order(li, lj, lk);
    lemma_time_opt_order(lj, li, lk);
    lemma_id_order(cs, i, j, k);
}

pub proof fn lemma_sticky_order(cs: Seq<AccountCandidate>, i: int, j: int, k: int)
    ensures
        !sticky_before(cs, i, i),
        sticky_before(cs, i, j) ==> !sticky_before(cs, j, i),
        i != j ==> sticky_before(cs, i, j) || sticky_before(cs, j, i),
        sticky_before(cs, i, j) && sticky_before(cs, j, k) ==> sticky_before(cs, i, k),
{
    let (li, lj, lk) = (cs[i].signals.last_started_at, cs[j].signals.last_started_at, cs[k].signals.last_started_at);
    lemma_time_opt_order(lk, lj, li);
    lemma_time_opt_order(li, lj, lk);
    lemma_id_order(cs, i, j, k);
}


// ---------------------------------------------------------------------------
// Eligibility, weight and the preferred account
// ---------------------------------------------------------------------------

pub open spec fn is_eligible(cs: Seq<AccountCandidate>, ctx: AccountSelectionContext, i: int) -> bool {
    spec_blocker(cs[i], ctx) is None
}

pub open spec fn weight_of(cs: Seq<AccountCandidate>, i: int) -> u16 {
    cs[i].account.spec_weight().spec_get()
}

/// Highest weight among eligible candidates in `[0, n)` (zero when none).
pub open spec fn max_weight_upto(cs: Seq<AccountCandidate>, ctx: AccountSelectionContext, n: int) -> u16
    decreases n,
{
    if n <= 0 {
        0
    } else {
        let m = max_weight_upto(cs, ctx, n - 1);
        if is_eligible(cs, ctx, n - 1) && weight_of(cs, n - 1) > m {
            weight_of(cs, n - 1)
        } else {
            m
        }
    }
}

pub open spec fn top_weight(cs: Seq<AccountCandidate>, ctx: AccountSelectionContext) -> u16 {
    max_weight_upto(cs, ctx, cs.len() as int)
}

/// The scheduling pool: eligible candidates of the highest eligible weight.
pub open spec fn in_pool(cs: Seq<AccountCandidate>, ctx: AccountSelectionContext, i: int) -> bool {
    0 <= i < cs.len() && is_eligible(cs, ctx, i) && weight_of(cs, i) == top_weight(cs, ctx)
}

pub open spec fn pool_fn(cs: Seq<AccountCandidate>, ctx: AccountSelectionContext) -> spec_fn(int) -> bool {
    |j: int| in_pool(cs, ctx, j)
}

proof fn lemma_max_weight(cs: Seq<AccountCandidate>, ctx: AccountSelectionContext, n: int)
    requires
        0 <= n <= cs.len(),
    ensures
        forall|i: int| 0 <= i < n && is_eligible(cs, ctx, i) ==> weight_of(cs, i) <= max_weight_upto(
            cs,
            ctx,
            n,
        ),
        (exists|i: int| 0 <= i < n && is_eligible(cs, ctx, i)) ==> exists|i: int|
            0 <= i < n && is_eligible(cs, ctx, i) && weight_of(cs, i) == max_weight_upto(cs, ctx, n),
    decreases n,
{
    if n > 0 {
        lemma_max_weight(cs, ctx, n - 1);
        if exists|i: int| 0 <= i < n && is_eligible(cs, ctx, i) {
            if !is_eligible(cs, ctx, n - 1) {
                let i = choose|i: int| 0 <= i < n && is_eligible(cs, ctx, i);
                assert(i < n - 1);
            } else if !(weight_of(cs, n - 1) > max_weight_upto(cs, ctx, n - 1)) {
                if !exists|i: int| 0 <= i < n - 1 && is_eligible(cs, ctx, i) {
                    lemma_max_weight_zero(cs, ctx, n - 1);
                }
            }
        }
    }
}

proof fn lemma_max_weight_zero(cs: Seq<AccountCandidate>, ctx: AccountSelectionContext, n: int)
    requires
        0 <= n <= cs.len(),
        forall|i: int| 0 <= i < n ==> !is_eligible(cs, ctx, i),
    ensures
        max_weight_upto(cs, ctx, n) == 0,
    decreases n,
{
    if n > 0 {
        lemma_max_weight_zero(cs, ctx, n - 1);
    }
}

/// First position whose account id is `id`, among `[0, n)`.
pub open spec fn first_with_id(cs: Seq<AccountCandidate>, id: Seq<char>, n: int) -> Option<int>
    decreases n,
{
    if n <= 0 {
        None
    } else {
        match first_with_id(cs, id, n - 1) {
            Some(k) => Some(k),
            None => if cid(cs, n - 1) == id {
                Some(n - 1)
            } else {
                None
            },
        }
    }
}

proof fn lemma_first_with_id(cs: Seq<AccountCandidate>, id: Seq<char>, n: int)
    requires
        0 <= n <= cs.len(),
    ensures
        first_with_id(cs, id, n) matches Some(k) ==> 0 <= k < n && cid(cs, k) == id,
        first_with_id(cs, id, n) is None ==> forall|k: int| 0 <= k < n ==> cid(cs, k) != id,
    decreases n,
{
    if n > 0 {
        lemma_first_with_id(cs, id, n - 1);
    }
}

/// Outcome for the preferred account, when every eligible account is known.
pub open spec fn preferred_eligibility(cs: Seq<AccountCandidate>, ctx: AccountSelectionContext) -> PreferredAccountSelection {
    match ctx.preferred_account {
        None => PreferredAccountSelection::NotRequested,
        Some(p) => match first_with_id(cs, p@, cs.len() as int) {
            None => PreferredAccountSelection::Missing,
            Some(k) => match spec_blocker(cs[k], ctx) {
                Some(b) => PreferredAccountSelection::Blocked(b),
                None => PreferredAccountSelection::Hit,
            },
        },
    }
}

/// Whether a lower persisted weight keeps an eligible preferred account
/// out: unless the context lets it override weights, or always under a
/// smart policy that prefers higher weights.
pub open spec fn weight_blocks_preferred(ctx: AccountSelectionContext) -> bool {
    !ctx.preferred_account_overrides_weight || (ctx.policy.spec_strategy() == RotationStrategy::Smart
        && ctx.policy.spec_smart_scheduling().spec_prefer_higher_weight())
}

/// What the built-in selection does with the preferred account.
pub open spec fn preferred_decision(cs: Seq<AccountCandidate>, ctx: AccountSelectionContext) -> PreferredAccountSelection {
    match ctx.preferred_account {
        None => PreferredAccountSelection::NotRequested,
        Some(p) => match first_with_id(cs, p@, cs.len() as int) {
            None => PreferredAccountSelection::Missing,
            Some(k) => match spec_blocker(cs[k], ctx) {
                Some(b) => PreferredAccountSelection::Blocked(b),
                None => if weight_blocks_preferred(ctx) && weight_of(cs, k) < top_weight(cs, ctx) {
                    PreferredAccountSelection::Blocked(AccountSchedulingBlocker::LowerWeight)
                } else {
                    PreferredAccountSelection::Hit
                },
            },
        },
    }
}

/// Highest smart key among pool members in `[0, n)`.
pub open spec fn smart_best_upto(cs: Seq<AccountCandidate>, ctx: AccountSelectionContext, keys: Seq<u64>, n: int) -> u64
    decreases n,
{
    if n <= 0 {
        0
    } else {
        let m = smart_best_upto(cs, ctx, keys, n - 1);
        if in_pool(cs, ctx, n - 1) && keys[n - 1] > m {
            keys[n - 1]
        } else {
            m
        }
    }
}

/// The best-scored pool members of the smart strategy.
pub open spec fn smart_group_fn(cs: Seq<AccountCandidate>, ctx: AccountSelectionContext, keys: Seq<u64>) -> spec_fn(int) -> bool {
    |j: int| in_pool(cs, ctx, j) && keys[j] == smart_best_upto(cs, ctx, keys, cs.len() as int)
}

proof fn lemma_smart_best(cs: Seq<AccountCandidate>, ctx: AccountSelectionContext, keys: Seq<u64>, n: int)
    requires
        0 <= n <= cs.len(),
    ensures
        (exists|i: int| 0 <= i < n && in_pool(cs, ctx, i)) ==> exists|i: int|
            0 <= i < n && in_pool(cs, ctx, i) && keys[i] == smart_best_upto(cs, ctx, keys, n),
    decreases n,
{
    if n > 0 {
        lemma_smart_best(cs, ctx, keys, n - 1);
        if exists|i: int| 0 <= i < n && in_pool(cs, ctx, i) {
            if !in_pool(cs, ctx, n - 1) {
                let i = choose|i: int| 0 <= i < n && in_pool(cs, ctx, i);
                assert(i < n - 1);
            } else if !(keys[n - 1] > smart_best_upto(cs, ctx, keys, n - 1)) {
                if !exists|i: int| 0 <= i < n - 1 && in_pool(cs, ctx, i) {
                    lemma_smart_best_zero(cs, ctx, keys, n - 1);
                }
            }
        }
    }
}

proof fn lemma_smart_best_zero(cs: Seq<AccountCandidate>, ctx: AccountSelectionContext, keys: Seq<u64>, n: int)
    requires
        0 <= n <= cs.len(),
        forall|i: int| 0 <= i < n ==> !in_pool(cs, ctx, i),
    ensures
        smart_best_upto(cs, ctx, keys, n) == 0,
    decreases n,
{
    if n > 0 {
        lemma_smart_best_zero(cs, ctx, keys, n - 1);
    }
}

/// The pick of the configured rotation strategy among the pool.
pub open spec fn strategy_choice(
    cs: Seq<AccountCandidate>,
    ctx: AccountSelectionContext,
    keys: Seq<u64>,
    idx: int,
) -> bool {
    match ctx.policy.spec_strategy() {
        RotationStrategy::QuotaResetPriority => in_pool(cs, ctx, idx) && forall|j: int|
            #[trigger] in_pool(cs, ctx, j) && j != idx ==> qrp_before(cs, ctx, idx, j),
        RotationStrategy::Sticky => in_pool(cs, ctx, idx) && forall|j: int|
            #[trigger] in_pool(cs, ctx, j) && j != idx ==> sticky_before(cs, idx, j),
        RotationStrategy::RoundRobin => in_pool(cs, ctx, idx) && id_rank(cs, pool_fn(cs, ctx), idx)
            == (ctx.round_robin_cursor as nat) % member_count(cs, pool_fn(cs, ctx)),
        RotationStrategy::Smart => smart_group_fn(cs, ctx, keys)(idx) && id_rank(
            cs,
            smart_group_fn(cs, ctx, keys),
            idx,
        ) == (ctx.round_robin_cursor as nat) % member_count(cs, smart_group_fn(cs, ctx, keys)),
    }
}


// ---------------------------------------------------------------------------
// The selector
// ---------------------------------------------------------------------------

/// One complete selection, with the preferred-account outcome kept for telemetry.
#[derive(Debug, Clone, Copy)]
pub struct AccountSelection<'a> {
    candidate: &'a AccountCandidate,
    index: usize,
    preferred: PreferredAccountSelection,
}

impl<'a> AccountSelection<'a> {
    pub closed spec fn spec_candidate(self) -> AccountCandidate {
        *self.candidate
    }

    pub closed spec fn spec_index(self) -> usize {
        self.index
    }

    pub closed spec fn spec_preferred(self) -> PreferredAccountSelection {
        self.preferred
    }

    pub fn candidate(self) -> (r: &'a AccountCandidate)
        ensures
            *r == self.spec_candidate(),
    {
        self.candidate
    }

    /// Position of the chosen candidate in the slice it was chosen from.
    pub fn index(self) -> (r: usize)
        ensures
            r == self.spec_index(),
    {
        self.index
    }

    pub fn preferred(self) -> (r: PreferredAccountSelection)
        ensures
            r == self.spec_preferred(),
    {
        self.preferred
    }
}


/// `sel` is what the built-in selection gives: the preferred account when it
/// is eligible and of the highest eligible weight, otherwise the rotation
/// strategy's pick, with what happened to the preferred account.
pub open spec fn builtin_selection<'a>(
    cs: Seq<AccountCandidate>,
    ctx: AccountSelectionContext,
    keys: Seq<u64>,
    sel: AccountSelection<'a>,
) -> bool {
    &&& sel.spec_index() < cs.len()
    &&& sel.spec_candidate() == cs[sel.spec_index() as int]
    &&& preferred_decision(cs, ctx) == PreferredAccountSelection::Hit ==> sel.spec_preferred()
        == PreferredAccountSelection::Hit && first_with_id(cs, ctx.preferred_account->0@, cs.len() as int)
        == Some(sel.spec_index() as int)
    &&& preferred_decision(cs, ctx) != PreferredAccountSelection::Hit ==> sel.spec_preferred()
        == preferred_decision(cs, ctx) && strategy_choice(cs, ctx, keys, sel.spec_index() as int)
}

/// The single account ordering of a target.
#[derive(Debug, Default, Clone, Copy)]
pub struct AccountSelector;

fn id_before_exec(cs: &[AccountCandidate], i: usize, j: usize) -> (r: bool)
    requires
        i < cs@.len(),
        j < cs@.len(),
    ensures
        r == id_before(cs@, i as int, j as int),
{
    let a = cs[i].account.id();
    let b = cs[j].account.id();
    a.less_than(b) || (a.same_as(b) && i < j)
}

fn time_opt_lt_exec(a: Option<UnixTime>, b: Option<UnixTime>) -> (r: bool)
    ensures
        r == time_opt_lt(a, b),
{
    match (a, b) {
        (None, Some(_)) => true,
        (Some(x), Some(y)) => x.nanos < y.nanos,
        _ => false,
    }
}

fn time_opt_eq_exec(a: Option<UnixTime>, b: Option<UnixTime>) -> (r: bool)
    ensures
        r == (a == b),
{
    match (a, b) {
        (None, None) => true,
        (Some(x), Some(y)) => x.nanos == y.nanos,
        _ => false,
    }
}

fn reset_lt_exec(a: Option<UnixTime>, b: Option<UnixTime>) -> (r: bool)
    ensures
        r == reset_lt(a, b),
{
    match (a, b) {
        (Some(_), None) => true,
        (Some(x), Some(y)) => x.nanos < y.nanos,
        _ => false,
    }
}

fn qrp_before_exec(cs: &[AccountCandidate], ctx: &AccountSelectionContext, lims: &Vec<u32>, i: usize, j: usize) -> (r: bool)
    requires
        i < cs@.len(),
        j < cs@.len(),
        lims@.len() == cs@.len(),
        forall|k: int| 0 <= k < cs@.len() ==> #[trigger] lims@[k] == limit_of(cs@, *ctx, k),
        forall|k: int| 0 <= k < cs@.len() ==> limit_of(cs@, *ctx, k) > 0,
    ensures
        r == qrp_before(cs@, *ctx, i as int, j as int),
{
    let ri = cs[i].signals.quota_reset_at;
    let rj = cs[j].signals.quota_reset_at;
    if reset_lt_exec(ri, rj) {
        return true;
    }
    if !time_opt_eq_exec(ri, rj) {
        return false;
    }
    let ui = rounded_quotient_key(cs[i].signals.in_flight, lims[i]);
    let uj = rounded_quotient_key(cs[j].signals.in_flight, lims[j]);
    if ui < uj {
        return true;
    }
    if ui != uj {
        return false;
    }
    let li = cs[i].signals.last_started_at;
    let lj = cs[j].signals.last_started_at;
    if time_opt_lt_exec(li, lj) {
        return true;
    }
    if !time_opt_eq_exec(li, lj) {
        return false;
    }
    id_before_exec(cs, i, j)
}

fn sticky_before_exec(cs: &[AccountCandidate], i: usize, j: usize) -> (r: bool)
    requires
        i < cs@.len(),
        j < cs@.len(),
    ensures
        r == sticky_before(cs@, i as int, j as int),
{
    let li = cs[i].signals.last_started_at;
    let lj = cs[j].signals.last_started_at;
    if time_opt_lt_exec(lj, li) {
        return true;
    }
    if !time_opt_eq_exec(li, lj) {
        return false;
    }
    id_before_exec(cs, i, j)
}

fn count_mask(mask: &Vec<bool>) -> (r: usize)
    ensures
        r == count_where(|j: int| mask@[j], mask@.len() as int),
{
    let ghost m = |j: int| mask@[j];
    let mut n: usize = 0;
    let mut k: usize = 0;
    while k < mask.len()
        invariant
            k <= mask.len(),
            n <= k,
            m == (|j: int| mask@[j]),
            n == count_where(m, k as int),
        decreases mask.len() - k,
    {
        if mask[k] {
            n = n + 1;
        }
        k = k + 1;
    }
    n
}

/// The member that comes first in id order.
fn first_in_id_order(cs: &[AccountCandidate], mask: &Vec<bool>) -> (r: usize)
    requires
        mask@.len() == cs@.len(),
        exists|j: int| 0 <= j < cs@.len() && mask@[j],
    ensures
        r < cs@.len(),
        mask@[r as int],
        forall|j: int| 0 <= j < cs@.len() && mask@[j] && j != r ==> id_before(cs@, r as int, j),
{
    let mut best: Option<usize> = None;
    let mut k: usize = 0;
    while k < cs.len()
        invariant
            k <= cs@.len(),
            mask@.len() == cs@.len(),
            best is None ==> forall|j: int| 0 <= j < k ==> !mask@[j],
            best matches Some(b) ==> (b < k && mask@[b as int] && forall|j: int|
                0 <= j < k && mask@[j] && j != b ==> id_before(cs@, b as int, j)),
        decreases cs@.len() - k,
    {
        if mask[k] {
            match best {
                None => {
                    best = Some(k);
                },
                Some(b) => {
                    if id_before_exec(cs, k, b) {
                        proof {
                            assert forall|j: int| 0 <= j < k + 1 && mask@[j] && j != k implies id_before(
                                cs@,
                                k as int,
                                j,
                            ) by {
                                lemma_id_order(cs@, k as int, b as int, j);
                            }
                        }
                        best = Some(k);
                    } else {
                        proof {
                            lemma_id_order(cs@, b as int, k as int, b as int);
                        }
                    }
                },
            }
        }
        k = k + 1;
    }
    match best {
        Some(b) => b,
        None => {
            proof {
                let w = choose|j: int| 0 <= j < cs@.len() && mask@[j];
                assert(!mask@[w]);
            }
            0
        },
    }
}

/// The member that comes next after `cur` in id order.
fn next_in_id_order(cs: &[AccountCandidate], mask: &Vec<bool>, cur: usize) -> (r: usize)
    requires
        mask@.len() == cs@.len(),
        cur < cs@.len(),
        exists|j: int| 0 <= j < cs@.len() && mask@[j] && id_before(cs@, cur as int, j),
    ensures
        r < cs@.len(),
        mask@[r as int],
        id_before(cs@, cur as int, r as int),
        forall|j: int|
            0 <= j < cs@.len() && mask@[j] && id_before(cs@, cur as int, j) && j != r ==> id_before(
                cs@,
                r as int,
                j,
            ),
{
    let mut best: Option<usize> = None;
    let mut k: usize = 0;
    while k < cs.len()
        invariant
            k <= cs@.len(),
            cur < cs@.len(),
            mask@.len() == cs@.len(),
            best is None ==> forall|j: int| 0 <= j < k ==> !(mask@[j] && id_before(cs@, cur as int, j)),
            best matches Some(b) ==> (b < k && mask@[b as int] && id_before(cs@, cur as int, b as int)
                && forall|j: int|
                0 <= j < k && mask@[j] && id_before(cs@, cur as int, j) && j != b ==> id_before(
                    cs@,
                    b as int,
                    j,
                )),
        decreases cs@.len() - k,
    {
        if mask[k] && id_before_exec(cs, cur, k) {
            match best {
                None => {
                    best = Some(k);
                },
                Some(b) => {
                    if id_before_exec(cs, k, b) {
                        proof {
                            assert forall|j: int|
                                0 <= j < k + 1 && mask@[j] && id_before(cs@, cur as int, j) && j
                                    != k implies id_before(cs@, k as int, j) by {
                                lemma_id_order(cs@, k as int, b as int, j);
                            }
                        }
                        best = Some(k);
                    } else {
                        proof {
                            lemma_id_order(cs@, b as int, k as int, b as int);
                        }
                    }
                },
            }
        }
        k = k + 1;
    }
    match best {
        Some(b) => b,
        None => {
            proof {
                let w = choose|j: int| 0 <= j < cs@.len() && mask@[j] && id_before(cs@, cur as int, j);
                assert(!(mask@[w] && id_before(cs@, cur as int, w)));
            }
            0
        },
    }
}

/// The member whose position in id order is `cursor` modulo the member count.
fn nth_in_id_order(cs: &[AccountCandidate], mask: &Vec<bool>, cursor: u64) -> (r: usize)
    requires
        mask@.len() == cs@.len(),
        exists|j: int| 0 <= j < cs@.len() && mask@[j],
    ensures
        r < cs@.len(),
        mask@[r as int],
        id_rank(cs@, |j: int| mask@[j], r as int) == (cursor as nat) % member_count(
            cs@,
            |j: int| mask@[j],
        ),
{
    let ghost m = |j: int| mask@[j];
    let ghost n = cs@.len() as int;
    let size = count_mask(mask);
    proof {
        let w = choose|j: int| 0 <= j < cs@.len() && mask@[j];
        lemma_count_positive(m, n, w);
    }
    let target: u64 = cursor % (size as u64);
    let mut cur = first_in_id_order(cs, mask);
    proof {
        assert forall|j: int| 0 <= j < n implies !(#[trigger] m(j) && id_before(cs@, j, cur as int)) by {
            lemma_id_order(cs@, j, cur as int, j);
        }
        lemma_count_zero(|j: int| m(j) && id_before(cs@, j, cur as int), n);
    }
    let mut t: u64 = 0;
    while t < target
        invariant
            t <= target,
            (target as int) < (size as int),
            size == count_where(m, n),
            n == cs@.len(),
            m == (|j: int| mask@[j]),
            mask@.len() == cs@.len(),
            cur < cs@.len(),
            mask@[cur as int],
            count_where(|j: int| m(j) && id_before(cs@, j, cur as int), n) == t,
        decreases target - t,
    {
        let ghost c = cur as int;
        let ghost before_c = |j: int| m(j) && id_before(cs@, j, c);
        proof {
            // Some member lies after `cur`: otherwise every other member is before it.
            if !exists|j: int| 0 <= j < n && mask@[j] && id_before(cs@, c, j) {
                assert forall|j: int| 0 <= j < n implies #[trigger] m(j) == (before_c(j) || j == c) by {
                    lemma_id_order(cs@, j, c, j);
                    if m(j) && j != c {
                        assert(!id_before(cs@, c, j));
                    }
                }
                lemma_id_order(cs@, c, c, c);
                lemma_count_add_one(m, before_c, c, n);
                assert(false);
            }
        }
        let next = next_in_id_order(cs, mask, cur);
        proof {
            let s = next as int;
            let before_s = |j: int| m(j) && id_before(cs@, j, s);
            assert forall|j: int| 0 <= j < n implies #[trigger] before_s(j) == (before_c(j) || j == c) by {
                lemma_id_order(cs@, j, c, s);
                lemma_id_order(cs@, c, j, s);
                lemma_id_order(cs@, j, s, c);
                if before_s(j) && j != c && !before_c(j) {
                    assert(id_before(cs@, c, j));
                    assert(id_before(cs@, s, j));
                }
            }
            lemma_id_order(cs@, c, c, c);
            lemma_count_add_one(before_s, before_c, c, n);
        }
        cur = next;
        t = t + 1;
    }
    proof {
        lemma_count_ext(|j: int| m(j) && id_before(cs@, j, cur as int), |j: int| mask@[j] && id_before(cs@, j, cur as int), n);
    }
    cur
}


fn first_by_qrp(cs: &[AccountCandidate], ctx: &AccountSelectionContext, lims: &Vec<u32>, mask: &Vec<bool>) -> (r: usize)
    requires
        mask@.len() == cs@.len(),
        lims@.len() == cs@.len(),
        forall|k: int| 0 <= k < cs@.len() ==> #[trigger] lims@[k] == limit_of(cs@, *ctx, k),
        forall|k: int| 0 <= k < cs@.len() ==> limit_of(cs@, *ctx, k) > 0,
        exists|j: int| 0 <= j < cs@.len() && mask@[j],
    ensures
        r < cs@.len(),
        mask@[r as int],
        forall|j: int| 0 <= j < cs@.len() && mask@[j] && j != r ==> qrp_before(cs@, *ctx, r as int, j),
{
    let mut best: Option<usize> = None;
    let mut k: usize = 0;
    while k < cs.len()
        invariant
            k <= cs@.len(),
            mask@.len() == cs@.len(),
            lims@.len() == cs@.len(),
            forall|i: int| 0 <= i < cs@.len() ==> #[trigger] lims@[i] == limit_of(cs@, *ctx, i),
            forall|i: int| 0 <= i < cs@.len() ==> limit_of(cs@, *ctx, i) > 0,
            best is None ==> forall|j: int| 0 <= j < k ==> !mask@[j],
            best matches Some(b) ==> (b < k && mask@[b as int] && forall|j: int|
                0 <= j < k && mask@[j] && j != b ==> qrp_before(cs@, *ctx, b as int, j)),
        decreases cs@.len() - k,
    {
        if mask[k] {
            match best {
                None => {
                    best = Some(k);
                },
                Some(b) => {
                    if qrp_before_exec(cs, ctx, lims, k, b) {
                        proof {
                            assert forall|j: int| 0 <= j < k + 1 && mask@[j] && j != k implies qrp_before(
                                cs@,
                                *ctx,
                                k as int,
                                j,
                            ) by {
                                lemma_qrp_order(cs@, *ctx, k as int, b as int, j);
                            }
                        }
                        best = Some(k);
                    } else {
                        proof {
                            lemma_qrp_order(cs@, *ctx, b as int, k as int, b as int);
                        }
                    }
                },
            }
        }
        k = k + 1;
    }
    match best {
        Some(b) => b,
        None => {
            proof {
                let w = choose|j: int| 0 <= j < cs@.len() && mask@[j];
                assert(!mask@[w]);
            }
            0
        },
    }
}

fn first_by_sticky(cs: &[AccountCandidate], mask: &Vec<bool>) -> (r: usize)
    requires
        mask@.len() == cs@.len(),
        exists|j: int| 0 <= j < cs@.len() && mask@[j],
    ensures
        r < cs@.len(),
        mask@[r as int],
        forall|j: int| 0 <= j < cs@.len() && mask@[j] && j != r ==> sticky_before(cs@, r as int, j),
{
    let mut best: Option<usize> = None;
    let mut k: usize = 0;
    while k < cs.len()
        invariant
            k <= cs@.len(),
            mask@.len() == cs@.len(),
            best is None ==> forall|j: int| 0 <= j < k ==> !mask@[j],
            best matches Some(b) ==> (b < k && mask@[b as int] && forall|j: int|
                0 <= j < k && mask@[j] && j != b ==> sticky_before(cs@, b as int, j)),
        decreases cs@.len() - k,
    {
        if mask[k] {
            match best {
                None => {
                    best = Some(k);
                },
                Some(b) => {
                    if sticky_before_exec(cs, k, b) {
                        proof {
                            assert forall|j: int| 0 <= j < k + 1 && mask@[j] && j != k implies sticky_before(
                                cs@,
                                k as int,
                                j,
                            ) by {
                                lemma_sticky_order(cs@, k as int, b as int, j);
                            }
                        }
                        best = Some(k);
                    } else {
                        proof {
                            lemma_sticky_order(cs@, b as int, k as int, b as int);
                        }
                    }
                },
            }
        }
        k = k + 1;
    }
    match best {
        Some(b) => b,
        None => {
            proof {
                let w = choose|j: int| 0 <= j < cs@.len() && mask@[j];
                assert(!mask@[w]);
            }
            0
        },
    }
}

/// The candidates a scheduling policy may choose from: the eligible ones, in order.
pub open spec fn policy_pool(candidates: Seq<AccountCandidate>, context: AccountSelectionContext) -> Seq<AccountCandidate> {
    candidates.filter(|c: AccountCandidate| spec_blocker(c, context) is None)
}

impl AccountSelector {
    /// The first constraint, in a fixed order, that keeps `candidate` out of the pool.
    pub fn scheduling_blocker(&self, candidate: &AccountCandidate, context: &AccountSelectionContext) -> (r:
        Option<AccountSchedulingBlocker>)
        ensures
            r == spec_blocker(*candidate, *context),
    {
        if let Some(scope) = &context.account_scope {
            if !scope.allows(candidate.account.id()) {
                return Some(AccountSchedulingBlocker::OutsideClientScope);
            }
        }
        if !context.eligibility.bypasses_local_eligibility() {
            let status = candidate.account.status_projection(
                context.now,
                candidate.signals.rate_limited_until,
            ).status;
            match status {
                AccountStatus::Normal => {},
                _ => {
                    return Some(AccountSchedulingBlocker::LocalAvailability);
                },
            }
        }
        if ids_contains(&context.excluded_accounts, candidate.account.id()) {
            return Some(AccountSchedulingBlocker::Excluded);
        }
        let limit = candidate.account.effective_concurrency(context.policy.max_concurrent_per_account());
        if candidate.signals.in_flight >= limit {
            return Some(AccountSchedulingBlocker::ConcurrencyLimit);
        }
        if let Some(last_started) = candidate.signals.last_started_at {
            let elapsed_enough = match context.now.duration_since(last_started) {
                Some(elapsed) => elapsed.nanos >= context.policy.request_interval().nanos,
                None => false,
            };
            if !elapsed_enough {
                return Some(AccountSchedulingBlocker::RequestInterval);
            }
        }
        None
    }

    /// Every eligible candidate, in order: the ones a scheduling policy may
    /// choose from. Weight tiers are left to the policy's host.
    pub fn policy_candidates<'a>(&self, candidates: &'a [AccountCandidate], context: &AccountSelectionContext) -> (r:
        Vec<&'a AccountCandidate>)
        ensures
            r@.len() == policy_pool(candidates@, *context).len(),
            forall|j: int| 0 <= j < r@.len() ==> *r@[j] == policy_pool(candidates@, *context)[j],
    {
        let mut out: Vec<&'a AccountCandidate> = Vec::new();
        let mut k: usize = 0;
        while k < candidates.len()
            invariant
                k <= candidates@.len(),
                out@.len() == policy_pool(candidates@.take(k as int), *context).len(),
                forall|j: int| 0 <= j < out@.len() ==> *out@[j] == policy_pool(candidates@.take(k as int), *context)[j],
            decreases candidates@.len() - k,
        {
            let ghost before = candidates@.take(k as int);
            proof {
                assert(candidates@.take(k as int + 1) =~= before.push(candidates@[k as int]));
                before.lemma_filter_push(candidates@[k as int], |c: AccountCandidate| spec_blocker(c, *context) is None);
            }
            if self.scheduling_blocker(&candidates[k], context).is_none() {
                out.push(&candidates[k]);
            }
            k = k + 1;
        }
        proof {
            assert(candidates@.take(candidates@.len() as int) =~= candidates@);
        }
        out
    }

    /// Which candidates are in the scheduling pool: eligible and of the highest eligible weight.
    pub fn pool_members(&self, candidates: &[AccountCandidate], context: &AccountSelectionContext) -> (r:
        Vec<bool>)
        ensures
            r@.len() == candidates@.len(),
            forall|i: int| 0 <= i < candidates@.len() ==> r@[i] == in_pool(candidates@, *context, i),
    {
        let cs = candidates;
        let mut eligible: Vec<bool> = Vec::new();
        let mut top: u16 = 0;
        let mut k: usize = 0;
        while k < cs.len()
            invariant
                k <= cs@.len(),
                eligible@.len() == k,
                forall|i: int| 0 <= i < k ==> eligible@[i] == is_eligible(cs@, *context, i),
                top == max_weight_upto(cs@, *context, k as int),
            decreases cs@.len() - k,
        {
            let ok = self.scheduling_blocker(&cs[k], context).is_none();
            if ok && cs[k].account.weight().get() > top {
                top = cs[k].account.weight().get();
            }
            eligible.push(ok);
            k = k + 1;
        }
        let mut pool: Vec<bool> = Vec::new();
        let mut k: usize = 0;
        while k < cs.len()
            invariant
                k <= cs@.len(),
                eligible@.len() == cs@.len(),
                forall|i: int| 0 <= i < cs@.len() ==> eligible@[i] == is_eligible(cs@, *context, i),
                top == top_weight(cs@, *context),
                pool@.len() == k,
                forall|i: int| 0 <= i < k ==> pool@[i] == in_pool(cs@, *context, i),
            decreases cs@.len() - k,
        {
            pool.push(eligible[k] && cs[k].account.weight().get() == top);
            k = k + 1;
        }
        pool
    }

    /// Chooses one candidate for the request.
    ///
    /// The preferred account wins when it is eligible and of the highest
    /// eligible weight; otherwise the rotation strategy picks among the pool.
    /// For the smart strategy, `smart_keys[i]` is candidate `i`'s smart score
    /// mapped to an integer in score order; only pool members' keys matter.
    pub fn select<'a>(
        &self,
        candidates: &'a [AccountCandidate],
        context: &AccountSelectionContext,
        smart_keys: &[u64],
    ) -> (r: Option<AccountSelection<'a>>)
        requires
            context.policy.spec_strategy() == RotationStrategy::Smart ==> smart_keys@.len()
                == candidates@.len(),
        ensures
            (forall|i: int| 0 <= i < candidates@.len() ==> !is_eligible(candidates@, *context, i))
                ==> r is None,
            (exists|i: int| 0 <= i < candidates@.len() && is_eligible(candidates@, *context, i))
                ==> (r matches Some(sel) && builtin_selection(candidates@, *context, smart_keys@, sel)),
    {
        let cs = candidates;
        let ghost s = cs@;
        let ghost ctx = *context;
        let pool = self.pool_members(cs, context);
        let mut any = false;
        let mut k: usize = 0;
        while k < cs.len()
            invariant
                k <= cs@.len(),
                pool@.len() == cs@.len(),
                !any ==> forall|i: int| 0 <= i < k ==> !pool@[i],
                any ==> exists|i: int| 0 <= i < cs@.len() && pool@[i],
            decreases cs@.len() - k,
        {
            if pool[k] {
                any = true;
            }
            k = k + 1;
        }
        proof {
            lemma_max_weight(s, ctx, s.len() as int);
            if exists|i: int| 0 <= i < s.len() && is_eligible(s, ctx, i) {
                let w = choose|i: int|
                    0 <= i < s.len() && is_eligible(s, ctx, i) && weight_of(s, i) == top_weight(s, ctx);
                assert(pool@[w]);
            }
        }
        if !any {
            proof {
                assert forall|i: int| 0 <= i < s.len() implies !is_eligible(s, ctx, i) by {
                    if is_eligible(s, ctx, i) {
                        let w = choose|i: int|
                            0 <= i < s.len() && is_eligible(s, ctx, i) && weight_of(s, i) == top_weight(s, ctx);
                        assert(pool@[w]);
                    }
                }
            }
            return None;
        }
        let top = {
            let mut t: u16 = 0;
            let mut k: usize = 0;
            while k < cs.len()
                invariant
                    k <= cs@.len(),
                    pool@.len() == cs@.len(),
                    forall|i: int| 0 <= i < cs@.len() ==> pool@[i] == in_pool(cs@, *context, i),
                    forall|i: int| 0 <= i < k && pool@[i] ==> t == top_weight(cs@, *context),
                    (forall|i: int| 0 <= i < k ==> !pool@[i]) ==> t == 0,
                decreases cs@.len() - k,
            {
                if pool[k] {
                    t = cs[k].account.weight().get();
                }
                k = k + 1;
            }
            t
        };
        assert(top == top_weight(s, ctx));
        let preferred = match &context.preferred_account {
            None => PreferredAccountSelection::NotRequested,
            Some(p) => {
                let mut found: Option<usize> = None;
                let mut k: usize = 0;
                while k < cs.len()
                    invariant
                        k <= cs@.len(),
                        found is None <==> first_with_id(cs@, p@, k as int) is None,
                        found matches Some(f) ==> first_with_id(cs@, p@, k as int) == Some(f as int),
                    decreases cs@.len() - k,
                {
                    if found.is_none() && cs[k].account.id().same_as(p) {
                        found = Some(k);
                    }
                    k = k + 1;
                }
                match found {
                    None => PreferredAccountSelection::Missing,
                    Some(k) => {
                        proof {
                            lemma_first_with_id(s, p@, s.len() as int);
                        }
                        match self.scheduling_blocker(&cs[k], context) {
                            Some(b) => PreferredAccountSelection::Blocked(b),
                            None => {
                                let prefer_higher = match context.policy.strategy() {
                                    RotationStrategy::Smart => context.policy.smart_scheduling().prefer_higher_weight(),
                                    _ => false,
                                };
                                if (!context.preferred_account_overrides_weight || prefer_higher)
                                    && cs[k].account.weight().get() < top {
                                    PreferredAccountSelection::Blocked(AccountSchedulingBlocker::LowerWeight)
                                } else {
                                    return Some(
                                        AccountSelection {
                                            candidate: &cs[k],
                                            index: k,
                                            preferred: PreferredAccountSelection::Hit,
                                        },
                                    );
                                }
                            },
                        }
                    },
                }
            },
        };
        assert(preferred == preferred_decision(s, ctx));
        proof {
            lemma_count_ext(|j: int| pool@[j], pool_fn(s, ctx), s.len() as int);
        }
        let index = match context.policy.strategy() {
            RotationStrategy::QuotaResetPriority => {
                let default_concurrency = context.policy.max_concurrent_per_account();
                let mut lims: Vec<u32> = Vec::new();
                let mut k: usize = 0;
                while k < cs.len()
                    invariant
                        k <= cs@.len(),
                        default_concurrency == context.policy.spec_max_concurrent(),
                        default_concurrency > 0,
                        lims@.len() == k,
                        forall|i: int| 0 <= i < k ==> #[trigger] lims@[i] == limit_of(cs@, *context, i),
                        forall|i: int| 0 <= i < k ==> limit_of(cs@, *context, i) > 0,
                    decreases cs@.len() - k,
                {
                    lims.push(cs[k].account.effective_concurrency(default_concurrency));
                    k = k + 1;
                }
                let i = first_by_qrp(cs, context, &lims, &pool);
                assert forall|j: int| #[trigger] in_pool(s, ctx, j) && j != i implies qrp_before(
                    s,
                    ctx,
                    i as int,
                    j,
                ) by {
                    assert(pool@[j]);
                }
                assert(strategy_choice(s, ctx, smart_keys@, i as int));
                i
            },
            RotationStrategy::RoundRobin => {
                let i = nth_in_id_order(cs, &pool, context.round_robin_cursor);
                proof {
                    let f = |j: int| pool@[j];
                    assert forall|j: int| 0 <= j < s.len() implies #[trigger] f(j) == pool_fn(s, ctx)(j) by {}
                    lemma_id_rank_ext(s, f, pool_fn(s, ctx), i as int);
                    assert(in_pool(s, ctx, i as int));
                }
                assert(strategy_choice(s, ctx, smart_keys@, i as int));
                i
            },
            RotationStrategy::Smart => {
                let mut best: u64 = 0;
                let mut k: usize = 0;
                while k < cs.len()
                    invariant
                        k <= cs@.len(),
                        smart_keys@.len() == cs@.len(),
                        pool@.len() == cs@.len(),
                        forall|i: int| 0 <= i < cs@.len() ==> pool@[i] == in_pool(cs@, *context, i),
                        best == smart_best_upto(cs@, *context, smart_keys@, k as int),
                    decreases cs@.len() - k,
                {
                    if pool[k] && smart_keys[k] > best {
                        best = smart_keys[k];
                    }
                    k = k + 1;
                }
                let mut group: Vec<bool> = Vec::new();
                let mut k: usize = 0;
                while k < cs.len()
                    invariant
                        k <= cs@.len(),
                        smart_keys@.len() == cs@.len(),
                        pool@.len() == cs@.len(),
                        forall|i: int| 0 <= i < cs@.len() ==> pool@[i] == in_pool(cs@, *context, i),
                        best == smart_best_upto(cs@, *context, smart_keys@, cs@.len() as int),
                        group@.len() == k,
                        forall|i: int| 0 <= i < k ==> group@[i] == smart_group_fn(cs@, *context, smart_keys@)(i),
                    decreases cs@.len() - k,
                {
                    group.push(pool[k] && smart_keys[k] == best);
                    k = k + 1;
                }
                proof {
                    lemma_smart_best(s, ctx, smart_keys@, s.len() as int);
                    let w = choose|i: int|
                        0 <= i < s.len() && in_pool(s, ctx, i) && smart_keys@[i] == smart_best_upto(
                            s,
                            ctx,
                            smart_keys@,
                            s.len() as int,
                        );
                    assert(group@[w]);
                }
                let i = nth_in_id_order(cs, &group, context.round_robin_cursor);
                proof {
                    let f = |j: int| group@[j];
                    let g = smart_group_fn(s, ctx, smart_keys@);
                    assert forall|j: int| 0 <= j < s.len() implies #[trigger] f(j) == g(j) by {}
                    lemma_id_rank_ext(s, f, g, i as int);
                    assert(g(i as int));
                }
                assert(strategy_choice(s, ctx, smart_keys@, i as int));
                i
            },
            RotationStrategy::Sticky => {
                let i = first_by_sticky(cs, &pool);
                assert forall|j: int| #[trigger] in_pool(s, ctx, j) && j != i implies sticky_before(
                    s,
                    i as int,
                    j,
                ) by {
                    assert(pool@[j]);
                }
                assert(strategy_choice(s, ctx, smart_keys@, i as int));
                i
            },
        };
        Some(AccountSelection { candidate: &cs[index], index, preferred })
    }
}

/// A candidate whose slots count towards the capacity of the request's
/// account pool: one not kept out by the client scope, local availability
/// or an explicit exclusion.
pub open spec fn counts_for_capacity(c: AccountCandidate, ctx: AccountSelectionContext) -> bool {
    match spec_blocker(c, ctx) {
        Some(AccountSchedulingBlocker::OutsideClientScope) => false,
        Some(AccountSchedulingBlocker::LocalAvailability) => false,
        Some(AccountSchedulingBlocker::Excluded) => false,
        _ => true,
    }
}

/// In-flight requests and concurrency slots of the counted candidates among
/// the first `n`, each summed with `u64` saturation.
pub open spec fn capacity_totals(cs: Seq<AccountCandidate>, ctx: AccountSelectionContext, n: int) -> (u64, u64)
    decreases n,
{
    if n <= 0 {
        (0, 0)
    } else {
        let (used, total) = capacity_totals(cs, ctx, n - 1);
        if counts_for_capacity(cs[n - 1], ctx) {
            (
                used.saturating_add(cs[n - 1].signals.in_flight as u64),
                total.saturating_add(limit_of(cs, ctx, n - 1) as u64),
            )
        } else {
            (used, total)
        }
    }
}

pub open spec fn min_u64(a: u64, b: u64) -> u64 {
    if a < b {
        a
    } else {
        b
    }
}

/// The schedulable concurrency slots one account selection saw; the used
/// slots include the request that was just admitted.
#[derive(Debug, Clone, Copy, PartialEq, Eq, Structural)]
pub struct AccountCapacitySnapshot {
    used_slots: u64,
    total_slots: u64,
}

impl Default for AccountCapacitySnapshot {
    fn default() -> (r: AccountCapacitySnapshot)
        ensures
            r.spec_used_slots() == 0 && r.spec_total_slots() == 0,
    {
        AccountCapacitySnapshot { used_slots: 0, total_slots: 0 }
    }
}

impl AccountCapacitySnapshot {
    pub closed spec fn spec_used_slots(self) -> u64 {
        self.used_slots
    }

    pub closed spec fn spec_total_slots(self) -> u64 {
        self.total_slots
    }

    pub fn used_slots(self) -> (r: u64)
        ensures
            r == self.spec_used_slots(),
    {
        self.used_slots
    }

    pub fn total_slots(self) -> (r: u64)
        ensures
            r == self.spec_total_slots(),
    {
        self.total_slots
    }

    /// Counts one more acquired request, never beyond the total.
    pub fn with_acquired_request(self) -> (r: AccountCapacitySnapshot)
        ensures
            r.spec_total_slots() == self.spec_total_slots(),
            r.spec_used_slots() == min_u64(self.spec_used_slots().saturating_add(1), self.spec_total_slots()),
    {
        let used = self.used_slots.saturating_add(1);
        let used = if used < self.total_slots { used } else { self.total_slots };
        AccountCapacitySnapshot { used_slots: used, total_slots: self.total_slots }
    }
}

impl AccountSelector {
    /// The concurrency capacity of the accounts that fit this selection's
    /// constraints, for request-level observation; `None` when they offer
    /// no slot at all.
    pub fn capacity_snapshot(&self, candidates: &[AccountCandidate], context: &AccountSelectionContext) -> (r: Option<AccountCapacitySnapshot>)
        ensures
            ({
                let (used, total) = capacity_totals(candidates@, *context, candidates@.len() as int);
                if total > 0 {
                    r matches Some(snap) && snap.spec_used_slots() == min_u64(used, total)
                        && snap.spec_total_slots() == total
                } else {
                    r is None
                }
            }),
    {
        let mut used: u64 = 0;
        let mut total: u64 = 0;
        let mut i: usize = 0;
        while i < candidates.len()
            invariant
                i <= candidates@.len(),
                (used, total) == capacity_totals(candidates@, *context, i as int),
            decreases candidates@.len() - i,
        {
            let c = &candidates[i];
            let counted = match self.scheduling_blocker(c, context) {
                Some(AccountSchedulingBlocker::OutsideClientScope) => false,
                Some(AccountSchedulingBlocker::LocalAvailability) => false,
                Some(AccountSchedulingBlocker::Excluded) => false,
                _ => true,
            };
            if counted {
                let capacity = c.account.effective_concurrency(context.policy.max_concurrent_per_account());
                used = used.saturating_add(c.signals.in_flight as u64);
                total = total.saturating_add(capacity as u64);
            }
            i = i + 1;
        }
        if total > 0 {
            Some(AccountCapacitySnapshot { used_slots: if used < total { used } else { total }, total_slots: total })
        } else {
            None
        }
    }
}

/// A candidate that may wait for capacity: only local concurrency and the
/// request interval keep it out; permissions, invalid credentials, quota
/// and upstream cooldowns exclude it at once.
pub open spec fn is_waitable(cs: Seq<AccountCandidate>, ctx: AccountSelectionContext, i: int) -> bool {
    match spec_blocker(cs[i], ctx) {
        None => true,
        Some(AccountSchedulingBlocker::ConcurrencyLimit) => true,
        Some(AccountSchedulingBlocker::RequestInterval) => true,
        _ => false,
    }
}

pub open spec fn not_preferred(cs: Seq<AccountCandidate>, ctx: AccountSelectionContext, i: int) -> bool {
    !(ctx.preferred_account matches Some(p) && p@ == cid(cs, i))
}

/// Waiting order: the preferred account first, then higher weight, then
/// ascending id, then candidate position.
pub open spec fn wait_before(cs: Seq<AccountCandidate>, ctx: AccountSelectionContext, i: int, j: int) -> bool {
    if not_preferred(cs, ctx, i) != not_preferred(cs, ctx, j) {
        !not_preferred(cs, ctx, i)
    } else if weight_of(cs, i) != weight_of(cs, j) {
        weight_of(cs, i) > weight_of(cs, j)
    } else {
        id_before(cs, i, j)
    }
}

/// Under the enforcing eligibility policy, an account of the client's scope
/// that is disabled, out of quota, rate limited past now, or otherwise not
/// in the `Normal` status is held back as locally unavailable, whatever its
/// load or exclusion.
pub proof fn lemma_unavailable_account_is_blocked(c: AccountCandidate, ctx: AccountSelectionContext)
    requires
        ctx.eligibility == AccountEligibilityPolicy::Enforce,
        ctx.account_scope matches Some(scope) ==> ids_contain(scope.allowed@, c.account.spec_id()@),
    ensures
        !c.account.spec_enabled() ==> spec_blocker(c, ctx) == Some(AccountSchedulingBlocker::LocalAvailability),
        c.account.spec_quota().spec_is_exhausted() ==> spec_blocker(c, ctx) == Some(
            AccountSchedulingBlocker::LocalAvailability,
        ),
        (c.signals.rate_limited_until matches Some(u) && u.nanos > ctx.now.nanos) ==> spec_blocker(c, ctx) == Some(
            AccountSchedulingBlocker::LocalAvailability,
        ),
        resolved_status(c.account.spec_status_facts(c.signals.rate_limited_until), ctx.now).status
            != AccountStatus::Normal ==> spec_blocker(c, ctx) == Some(AccountSchedulingBlocker::LocalAvailability),
{
}

/// Under the enforcing eligibility policy an eligible candidate is one the
/// client may use, enabled, with quota, not rate limited past now, not
/// excluded, and below its concurrency limit.
pub proof fn lemma_eligible_account_is_available(cs: Seq<AccountCandidate>, ctx: AccountSelectionContext, i: int)
    requires
        0 <= i < cs.len(),
        is_eligible(cs, ctx, i),
    ensures
        ctx.account_scope matches Some(scope) ==> ids_contain(scope.allowed@, cid(cs, i)),
        !ids_contain(ctx.excluded_accounts@, cid(cs, i)),
        cs[i].signals.in_flight < cs[i].account.spec_effective_concurrency(ctx.policy.spec_max_concurrent()),
        ctx.eligibility == AccountEligibilityPolicy::Enforce ==> {
            &&& cs[i].account.spec_enabled()
            &&& !cs[i].account.spec_quota().spec_is_exhausted()
            &&& !(cs[i].signals.rate_limited_until matches Some(u) && u.nanos > ctx.now.nanos)
            &&& resolved_status(cs[i].account.spec_status_facts(cs[i].signals.rate_limited_until), ctx.now).status
                == AccountStatus::Normal
        },
{
    if ctx.eligibility == AccountEligibilityPolicy::Enforce {
        if !(ctx.account_scope matches Some(scope) && !ids_contain(scope.allowed@, cid(cs, i))) {
            lemma_unavailable_account_is_blocked(cs[i], ctx);
        }
    }
}

/// The account a built-in selection returns is always eligible.
pub proof fn lemma_selected_is_eligible<'a>(
    cs: Seq<AccountCandidate>,
    ctx: AccountSelectionContext,
    keys: Seq<u64>,
    sel: AccountSelection<'a>,
)
    requires
        builtin_selection(cs, ctx, keys, sel),
    ensures
        is_eligible(cs, ctx, sel.spec_index() as int),
{
    if preferred_decision(cs, ctx) == PreferredAccountSelection::Hit {
        let k = first_with_id(cs, ctx.preferred_account->0@, cs.len() as int)->0;
        assert(spec_blocker(cs[k], ctx) is None);
    } else {
        let idx = sel.spec_index() as int;
        match ctx.policy.spec_strategy() {
            RotationStrategy::Smart => {
                assert(smart_group_fn(cs, ctx, keys)(idx));
            },
            _ => {},
        }
    }
}

/// Only a candidate held back by load (its concurrency limit or the request
/// interval) or not held back at all is worth waiting for: under the
/// enforcing eligibility policy a disabled, out-of-quota, rate-limited or
/// otherwise unavailable account, an excluded one and one outside the
/// client's scope never are.
pub proof fn lemma_waitable_account_is_available(cs: Seq<AccountCandidate>, ctx: AccountSelectionContext, i: int)
    requires
        0 <= i < cs.len(),
        is_waitable(cs, ctx, i),
    ensures
        ctx.account_scope matches Some(scope) ==> ids_contain(scope.allowed@, cid(cs, i)),
        !ids_contain(ctx.excluded_accounts@, cid(cs, i)),
        ctx.eligibility == AccountEligibilityPolicy::Enforce ==> {
            &&& cs[i].account.spec_enabled()
            &&& !cs[i].account.spec_quota().spec_is_exhausted()
            &&& !(cs[i].signals.rate_limited_until matches Some(u) && u.nanos > ctx.now.nanos)
            &&& resolved_status(cs[i].account.spec_status_facts(cs[i].signals.rate_limited_until), ctx.now).status
                == AccountStatus::Normal
        },
        spec_blocker(cs[i], ctx) != Some(AccountSchedulingBlocker::LocalAvailability),
        spec_blocker(cs[i], ctx) != Some(AccountSchedulingBlocker::Excluded),
        spec_blocker(cs[i], ctx) != Some(AccountSchedulingBlocker::OutsideClientScope),
{
    if ctx.eligibility == AccountEligibilityPolicy::Enforce {
        if !(ctx.account_scope matches Some(scope) && !ids_contain(scope.allowed@, cid(cs, i))) {
            lemma_unavailable_account_is_blocked(cs[i], ctx);
        }
    }
}

/// The waiting order is a strict total order of candidate positions.
pub proof fn lemma_wait_order(cs: Seq<AccountCandidate>, ctx: AccountSelectionContext, i: int, j: int, k: int)
    ensures
        !wait_before(cs, ctx, i, i),
        wait_before(cs, ctx, i, j) ==> !wait_before(cs, ctx, j, i),
        i != j ==> wait_before(cs, ctx, i, j) || wait_before(cs, ctx, j, i),
        wait_before(cs, ctx, i, j) && wait_before(cs, ctx, j, k) ==> wait_before(cs, ctx, i, k),
{
    lemma_id_order(cs, i, j, k);
}

/// `order` lists exactly the waitable candidates, each once, in waiting order.
pub open spec fn wait_order(cs: Seq<AccountCandidate>, ctx: AccountSelectionContext, order: Seq<int>) -> bool {
    &&& forall|a: int| 0 <= a < order.len() ==> 0 <= #[trigger] order[a] < cs.len() && is_waitable(cs, ctx, order[a])
    &&& forall|a: int, b: int| 0 <= a < b < order.len() ==> wait_before(cs, ctx, #[trigger] order[a], #[trigger] order[b])
    &&& forall|i: int| 0 <= i < cs.len() && #[trigger] is_waitable(cs, ctx, i) ==> exists|a: int| 0 <= a < order.len() && order[a] == i
}

fn wait_before_exec(cs: &[AccountCandidate], ctx: &AccountSelectionContext, i: usize, j: usize) -> (r: bool)
    requires
        i < cs@.len(),
        j < cs@.len(),
    ensures
        r == wait_before(cs@, *ctx, i as int, j as int),
{
    let np_i = match &ctx.preferred_account {
        Some(p) => !p.same_as(cs[i].account.id()),
        None => true,
    };
    let np_j = match &ctx.preferred_account {
        Some(p) => !p.same_as(cs[j].account.id()),
        None => true,
    };
    if np_i != np_j {
        return !np_i;
    }
    let wi = cs[i].account.weight().get();
    let wj = cs[j].account.weight().get();
    if wi != wj {
        return wi > wj;
    }
    id_before_exec(cs, i, j)
}

fn insert_in_wait_order(cs: &[AccountCandidate], ctx: &AccountSelectionContext, order: &mut Vec<usize>, k: usize)
    requires
        k < cs@.len(),
        forall|a: int| 0 <= a < old(order)@.len() ==> #[trigger] old(order)@[a] < k,
        forall|a: int, b: int| 0 <= a < b < old(order)@.len()
            ==> wait_before(cs@, *ctx, #[trigger] old(order)@[a] as int, #[trigger] old(order)@[b] as int),
    ensures
        forall|a: int| 0 <= a < final(order)@.len() ==> #[trigger] final(order)@[a] <= k,
        forall|a: int, b: int| 0 <= a < b < final(order)@.len()
            ==> wait_before(cs@, *ctx, #[trigger] final(order)@[a] as int, #[trigger] final(order)@[b] as int),
        forall|x: usize| final(order)@.contains(x) <==> (old(order)@.contains(x) || x == k),
{
    let n = order.len();
    let mut p: usize = 0;
    while p < n && !wait_before_exec(cs, ctx, k, order[p])
        invariant
            p <= n,
            n == order@.len(),
            k < cs@.len(),
            forall|a: int| 0 <= a < n ==> #[trigger] order@[a] < k,
            forall|a: int| 0 <= a < p ==> !wait_before(cs@, *ctx, k as int, #[trigger] order@[a] as int),
        decreases n - p,
    {
        p = p + 1;
    }
    let ghost old_order = order@;
    order.insert(p, k);
    proof {
        let s = order@;
        assert(s =~= old_order.insert(p as int, k));
        assert forall|a: int, b: int| 0 <= a < b < s.len() implies wait_before(cs@, *ctx, #[trigger] s[a] as int, #[trigger] s[b] as int) by {
            if b < p {
                assert(s[a] == old_order[a] && s[b] == old_order[b]);
            } else if b == p {
                assert(s[a] == old_order[a]);
                assert(old_order[a] < k);
                lemma_wait_order(cs@, *ctx, k as int, old_order[a] as int, k as int);
            } else if a < p {
                assert(s[a] == old_order[a] && s[b] == old_order[b - 1]);
            } else if a == p {
                assert(s[b] == old_order[b - 1]);
                lemma_wait_order(cs@, *ctx, k as int, old_order[p as int] as int, old_order[b - 1] as int);
                if b - 1 > p {
                    assert(wait_before(cs@, *ctx, old_order[p as int] as int, old_order[b - 1] as int));
                }
            } else {
                assert(s[a] == old_order[a - 1] && s[b] == old_order[b - 1]);
            }
        }
        assert forall|x: usize| s.contains(x) <==> (old_order.contains(x) || x == k) by {
            if s.contains(x) {
                let j = choose|j: int| 0 <= j < s.len() && s[j] == x;
                if j < p {
                    assert(old_order[j] == x);
                } else if j > p {
                    assert(old_order[j - 1] == x);
                }
            }
            if old_order.contains(x) {
                let j = choose|j: int| 0 <= j < old_order.len() && old_order[j] == x;
                if j < p {
                    assert(s[j] == x);
                } else {
                    assert(s[j + 1] == x);
                }
            }
            if x == k {
                assert(s[p as int] == x);
            }
        }
    }
}

impl AccountSelector {
    /// The accounts worth waiting for, in waiting order: the preferred one
    /// first, then by descending weight and ascending id. Only local
    /// concurrency and the request interval can be waited out.
    pub fn wait_candidates(&self, candidates: &[AccountCandidate], context: &AccountSelectionContext) -> (r: Vec<ProviderAccountId>)
        ensures
            exists|order: Seq<int>|
                wait_order(candidates@, *context, order) && r@.len() == order.len()
                    && forall|a: int| 0 <= a < order.len() ==> (#[trigger] r@[a])@ == cid(candidates@, order[a]),
    {
        let cs = candidates;
        let mut order: Vec<usize> = Vec::new();
        let mut k: usize = 0;
        while k < cs.len()
            invariant
                k <= cs@.len(),
                forall|a: int| 0 <= a < order@.len() ==> #[trigger] order@[a] < k && is_waitable(cs@, *context, order@[a] as int),
                forall|a: int, b: int| 0 <= a < b < order@.len()
                    ==> wait_before(cs@, *context, #[trigger] order@[a] as int, #[trigger] order@[b] as int),
                forall|i: int| 0 <= i < k && #[trigger] is_waitable(cs@, *context, i) ==> order@.contains(i as usize),
            decreases cs@.len() - k,
        {
            let waitable = match self.scheduling_blocker(&cs[k], context) {
                None => true,
                Some(AccountSchedulingBlocker::ConcurrencyLimit) => true,
                Some(AccountSchedulingBlocker::RequestInterval) => true,
                _ => false,
            };
            if waitable {
                let ghost before = order@;
                insert_in_wait_order(cs, context, &mut order, k);
                proof {
                    assert forall|a: int| 0 <= a < order@.len() implies #[trigger] order@[a] < k + 1 && is_waitable(cs@, *context, order@[a] as int) by {
                        assert(order@.contains(order@[a]));
                        if order@[a] != k {
                            assert(before.contains(order@[a]));
                            let j = choose|j: int| 0 <= j < before.len() && before[j] == order@[a];
                            assert(before[j] < k);
                        }
                    }
                    assert forall|i: int| 0 <= i < k + 1 && #[trigger] is_waitable(cs@, *context, i) implies order@.contains(i as usize) by {
                        if i < k {
                            assert(before.contains(i as usize));
                        }
                    }
                }
            }
            k = k + 1;
        }
        let mut ids: Vec<ProviderAccountId> = Vec::new();
        let mut a: usize = 0;
        while a < order.len()
            invariant
                a <= order@.len(),
                forall|x: int| 0 <= x < order@.len() ==> #[trigger] order@[x] < cs@.len(),
                ids@.len() == a,
                forall|x: int| 0 <= x < a ==> (#[trigger] ids@[x])@ == cid(cs@, order@[x] as int),
            decreases order@.len() - a,
        {
            ids.push(cs[order[a]].account.id().duplicate());
            a = a + 1;
        }
        let ghost witness = Seq::new(order@.len(), |x: int| order@[x] as int);
        assert forall|i: int| 0 <= i < cs@.len() && #[trigger] is_waitable(cs@, *context, i) implies exists|x: int| 0 <= x < witness.len() && witness[x] == i by {
            assert(order@.contains(i as usize));
            let x = choose|x: int| 0 <= x < order@.len() && order@[x] == i as usize;
            assert(witness[x] == i);
        }
        assert(wait_order(cs@, *context, witness));
        ids
    }
}

/// What the selection records about the preferred account when a scheduling
/// policy picked `account_id`.
pub open spec fn policy_preferred(cs: Seq<AccountCandidate>, ctx: AccountSelectionContext, account_id: Seq<char>) -> PreferredAccountSelection {
    if preferred_eligibility(cs, ctx) == PreferredAccountSelection::Hit && !(ctx.preferred_account matches Some(p) && p@ == account_id) {
        PreferredAccountSelection::OverriddenByPolicy
    } else {
        preferred_eligibility(cs, ctx)
    }
}

fn find_by_id(cs: &[AccountCandidate], id: &ProviderAccountId) -> (r: Option<usize>)
    ensures
        r is None <==> first_with_id(cs@, id@, cs@.len() as int) is None,
        r matches Some(k) ==> first_with_id(cs@, id@, cs@.len() as int) == Some(k as int),
{
    let mut found: Option<usize> = None;
    let mut k: usize = 0;
    while k < cs.len()
        invariant
            k <= cs@.len(),
            found is None <==> first_with_id(cs@, id@, k as int) is None,
            found matches Some(f) ==> first_with_id(cs@, id@, k as int) == Some(f as int),
        decreases cs@.len() - k,
    {
        if found.is_none() && cs[k].account.id().same_as(id) {
            found = Some(k);
        }
        k = k + 1;
    }
    found
}

impl AccountSelector {
    /// What happens to the requested preferred account, by eligibility
    /// alone: not requested, missing, blocked, or selectable.
    pub fn preferred_selection(&self, candidates: &[AccountCandidate], context: &AccountSelectionContext) -> (r: PreferredAccountSelection)
        ensures
            r == preferred_eligibility(candidates@, *context),
    {
        let cs = candidates;
        match &context.preferred_account {
            None => PreferredAccountSelection::NotRequested,
            Some(p) => match find_by_id(cs, p) {
                None => PreferredAccountSelection::Missing,
                Some(k) => {
                    proof {
                        lemma_first_with_id(cs@, p@, cs@.len() as int);
                    }
                    match self.scheduling_blocker(&cs[k], context) {
                        Some(b) => PreferredAccountSelection::Blocked(b),
                        None => PreferredAccountSelection::Hit,
                    }
                },
            },
        }
    }

    /// Checks an account a scheduling policy picked with the same
    /// eligibility rules, keeping what happened to the preferred account.
    pub fn select_policy_candidate<'a>(&self, candidates: &'a [AccountCandidate], context: &AccountSelectionContext, account_id: &ProviderAccountId) -> (r: Option<AccountSelection<'a>>)
        ensures
            match first_with_id(candidates@, account_id@, candidates@.len() as int) {
                None => r is None,
                Some(k) => if spec_blocker(candidates@[k], *context) is Some {
                    r is None
                } else {
                    r matches Some(sel) && sel.spec_index() == k && sel.spec_candidate() == candidates@[k]
                        && sel.spec_preferred() == policy_preferred(candidates@, *context, account_id@)
                },
            },
    {
        let k = match find_by_id(candidates, account_id) {
            Some(k) => k,
            None => {
                return None;
            },
        };
        proof {
            lemma_first_with_id(candidates@, account_id@, candidates@.len() as int);
        }
        if self.scheduling_blocker(&candidates[k], context).is_some() {
            return None;
        }
        let preferred = self.preferred_selection(candidates, context);
        let overridden = match preferred {
            PreferredAccountSelection::Hit => match &context.preferred_account {
                Some(p) => !p.same_as(account_id),
                None => true,
            },
            _ => false,
        };
        let preferred = if overridden { PreferredAccountSelection::OverriddenByPolicy } else { preferred };
        Some(AccountSelection { candidate: &candidates[k], index: k, preferred })
    }
}

} // verus!
