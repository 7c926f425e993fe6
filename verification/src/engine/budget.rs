//! Per-key USD limits and the costs already incurred against them.

use vstd::prelude::*;

use crate::accounting::Decimal;
use crate::engine::ModelRequestId;
use crate::policy::ClientApiKeyId;
use crate::time::UnixTime;

verus! {

/// Daily and weekly USD limits of a key; zero means not limited.
#[derive(Debug, Clone, Copy, PartialEq, Eq, Structural)]
pub struct ClientBudgetLimits {
    pub daily_usd: Decimal,
    pub weekly_usd: Decimal,
}

impl Default for ClientBudgetLimits {
    fn default() -> (r: ClientBudgetLimits)
        ensures
            r.daily_usd@ == 0 && r.weekly_usd@ == 0,
    {
        ClientBudgetLimits { daily_usd: Decimal::zero(), weekly_usd: Decimal::zero() }
    }
}

impl ClientBudgetLimits {
    /// Whether either limit is set.
    pub fn is_limited(self) -> (r: bool)
        ensures
            r == (self.daily_usd@ != 0 || self.weekly_usd@ != 0),
    {
        self.daily_usd.scaled() != 0 || self.weekly_usd.scaled() != 0
    }
}

/// A key's limits, what it used, and when the windows reset.
#[derive(Debug, Clone, PartialEq, Eq, Structural)]
pub struct ClientBudgetStatus {
    pub limits: ClientBudgetLimits,
    pub daily_used_usd: Decimal,
    pub weekly_used_usd: Decimal,
    pub daily_resets_at: Option<UnixTime>,
    pub weekly_resets_at: Option<UnixTime>,
}

impl Default for ClientBudgetStatus {
    fn default() -> (r: ClientBudgetStatus)
        ensures
            r.limits.daily_usd@ == 0 && r.limits.weekly_usd@ == 0,
            r.daily_used_usd@ == 0 && r.weekly_used_usd@ == 0,
            r.daily_resets_at is None && r.weekly_resets_at is None,
    {
        ClientBudgetStatus {
            limits: ClientBudgetLimits::default(),
            daily_used_usd: Decimal::zero(),
            weekly_used_usd: Decimal::zero(),
            daily_resets_at: None,
            weekly_resets_at: None,
        }
    }
}

/// The cost a request incurred, retries included; an attempt without a
/// known cost counts as zero.
#[derive(Debug, Clone)]
pub struct ClientBudgetCharge {
    pub key_id: ClientApiKeyId,
    pub request_id: ModelRequestId,
    pub amount_usd: Decimal,
    pub completed_at: UnixTime,
}

/// The budget store is unavailable.
#[derive(Debug, Clone, Copy, PartialEq, Eq, Structural)]
pub struct ClientBudgetError;

} // verus!
