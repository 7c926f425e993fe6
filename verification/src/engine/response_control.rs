//! Interrupt signals of the current execution's response.

use vstd::prelude::*;

verus! {

/// Why a control frame could not act on the current execution; it names
/// no other response.
#[derive(Debug, Clone, Copy, PartialEq, Eq, Structural)]
pub enum ResponseInterruptError {
    Unavailable,
    ResponseMismatch,
}

} // verus!
