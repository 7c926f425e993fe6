//! Smart scheduling weights, kept in fixed tenths so that snapshots compare
//! exactly; floating point appears only on the wire and in scoring.

use vstd::prelude::*;

verus! {

/// The wire names of the six weights, in their order.
pub open spec fn weight_field_name(i: int) -> Seq<char> {
    if i == 0 {
        "loadWeight"@
    } else if i == 1 {
        "quotaWeight"@
    } else if i == 2 {
        "healthWeight"@
    } else if i == 3 {
        "latencyWeight"@
    } else if i == 4 {
        "resetWeight"@
    } else {
        "queueWeight"@
    }
}

fn weight_field(i: usize) -> (r: &'static str)
    requires
        i < 6,
    ensures
        r@ == weight_field_name(i as int),
{
    if i == 0 {
        "loadWeight"
    } else if i == 1 {
        "quotaWeight"
    } else if i == 2 {
        "healthWeight"
    } else if i == 3 {
        "latencyWeight"
    } else if i == 4 {
        "resetWeight"
    } else {
        "queueWeight"
    }
}

/// Why smart scheduling weights were refused.
#[derive(Debug, Clone, Copy, PartialEq, Eq)]
pub enum SmartSchedulingConfigError {
    /// The named weight is not between 0 and 10 with at most one decimal place.
    InvalidWeight(&'static str),
    /// Every weight is zero.
    EmptyWeights,
}

/// Smart scheduling weights in tenths (0 to 100 each) for load, remaining
/// quota, health, first-output latency, quota reset and queue pressure, and
/// whether a higher persisted account weight wins ties.
#[derive(Debug, Clone, Copy, PartialEq, Eq)]
pub struct SmartSchedulingConfig {
    weights: [u8; 6],
    prefer_higher_weight: bool,
}

impl Default for SmartSchedulingConfig {
    fn default() -> (r: SmartSchedulingConfig)
        ensures
            r.spec_weights() == seq![10u8, 8u8, 10u8, 5u8, 0u8, 0u8],
            !r.spec_prefer_higher_weight(),
    {
        let r = SmartSchedulingConfig { weights: [10, 8, 10, 5, 0, 0], prefer_higher_weight: false };
        assert(r.weights@ =~= seq![10u8, 8u8, 10u8, 5u8, 0u8, 0u8]);
        r
    }
}

impl SmartSchedulingConfig {
    pub closed spec fn spec_weights(self) -> Seq<u8> {
        self.weights@
    }

    pub closed spec fn spec_prefer_higher_weight(self) -> bool {
        self.prefer_higher_weight
    }

    /// Weights given in tenths; each must be at most 100 (ten), and at least
    /// one must be positive. The first weight out of range is named.
    pub fn from_tenths(tenths: [u8; 6], prefer_higher_weight: bool) -> (r: Result<SmartSchedulingConfig, SmartSchedulingConfigError>)
        ensures
            (forall|i: int| 0 <= i < 6 ==> tenths@[i] <= 100) && (exists|i: int| 0 <= i < 6 && tenths@[i] > 0)
                ==> (r matches Ok(c) && c.spec_weights() == tenths@
                    && c.spec_prefer_higher_weight() == prefer_higher_weight),
            r matches Err(SmartSchedulingConfigError::InvalidWeight(field)) ==> exists|i: int|
                0 <= i < 6 && tenths@[i] > 100 && field@ == weight_field_name(i)
                    && forall|j: int| 0 <= j < i ==> tenths@[j] <= 100,
            r matches Err(SmartSchedulingConfigError::EmptyWeights) ==> forall|i: int| 0 <= i < 6 ==> tenths@[i] == 0,
            (exists|i: int| 0 <= i < 6 && tenths@[i] > 100) ==> r matches Err(SmartSchedulingConfigError::InvalidWeight(_)),
            (forall|i: int| 0 <= i < 6 ==> tenths@[i] == 0) ==> r matches Err(SmartSchedulingConfigError::EmptyWeights),
    {
        let mut i: usize = 0;
        let mut any_positive = false;
        while i < 6
            invariant
                i <= 6,
                tenths@.len() == 6,
                forall|j: int| 0 <= j < i ==> tenths@[j] <= 100,
                any_positive == exists|j: int| 0 <= j < i && tenths@[j] > 0,
            decreases 6 - i,
        {
            if tenths[i] > 100 {
                return Err(SmartSchedulingConfigError::InvalidWeight(weight_field(i)));
            }
            if tenths[i] > 0 {
                any_positive = true;
            }
            i = i + 1;
        }
        if !any_positive {
            return Err(SmartSchedulingConfigError::EmptyWeights);
        }
        Ok(SmartSchedulingConfig { weights: tenths, prefer_higher_weight })
    }

    /// The weights in tenths, in their fixed order.
    pub fn weight_tenths(self) -> (r: [u8; 6])
        ensures
            r@ == self.spec_weights(),
    {
        self.weights
    }

    pub fn prefer_higher_weight(self) -> (r: bool)
        ensures
            r == self.spec_prefer_higher_weight(),
    {
        self.prefer_higher_weight
    }
}

} // verus!
