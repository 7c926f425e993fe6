//! Neutral health facts that stores, the core and the host expose to probes.

use vstd::prelude::*;

verus! {

/// The meaning of one health probe's answer.
#[derive(Debug, Clone, PartialEq, Eq)]
pub enum HealthState {
    Healthy,
    Degraded(String),
    Unhealthy(String),
}

/// The current state of one worker as the host supervisor observes it.
#[derive(Debug, Clone, Copy, PartialEq, Eq, Structural)]
pub enum WorkerRuntimeState {
    Starting,
    AcquiringLease,
    Standby,
    Running,
    Idle,
    BackingOff,
    Stopped,
    Disabled,
}

} // verus!
