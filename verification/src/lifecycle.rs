//! Connection registration, drain and cancellation between host and API.

use vstd::prelude::*;

verus! {

/// The process is draining; no new connection may register.
#[derive(Debug, Clone, Copy, PartialEq, Eq, Structural)]
pub struct ConnectionDraining;

} // verus!
