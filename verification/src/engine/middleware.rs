//! The onion middleware contract of data-plane requests and responses. The
//! core keeps identity, routing, account leases, send facts, retries,
//! metering and settlement; none of them is handed to a plugin.

use vstd::prelude::*;

use std::collections::BTreeSet;

use crate::credential::ids::ProviderAccountId;
use crate::engine::{ClientTransport, EngineError, ModelRequestId};
use crate::error::{GatewayError, ProviderError};
use crate::identity::ProviderKind;
use crate::operation::{Feature, OperationKind};

verus! {

/// Where a middleware is mounted in one logical request.
#[derive(Debug, Clone, Copy, PartialEq, Eq, Structural)]
pub enum MiddlewareMount {
    /// Around the client request; runs once per logical request.
    Request,
    /// Inside a managed provider attempt; set up again for every real retry.
    Attempt,
}

/// The host boundary of a middleware body chunk.
#[derive(Debug, Clone, Copy, PartialEq, Eq, Structural)]
pub enum MiddlewareFraming {
    /// One complete JSON document.
    JsonDocument,
    /// One complete SSE event, with the blank line that ends it.
    SseEvent,
    /// Raw bytes with no UTF-8 or message boundary promised.
    RawBytes,
}

/// A multi-valued HTTP header allowed into the middleware contract. It has
/// no `Debug`, so that values stay out of logs.
#[derive(Clone, PartialEq, Eq)]
pub struct MiddlewareHeader {
    name: String,
    value: Vec<u8>,
}

impl MiddlewareHeader {
    pub closed spec fn spec_name(&self) -> Seq<char> {
        self.name@
    }

    pub closed spec fn spec_value(&self) -> Seq<u8> {
        self.value@
    }

    pub fn new(name: String, value: Vec<u8>) -> (r: MiddlewareHeader)
        ensures
            r.spec_name() == name@,
            r.spec_value() == value@,
    {
        MiddlewareHeader { name, value }
    }

    pub fn name(&self) -> (r: &str)
        ensures
            r@ == self.spec_name(),
    {
        self.name.as_str()
    }

    pub fn value(&self) -> (r: &[u8])
        ensures
            r@ == self.spec_value(),
    {
        self.value.as_slice()
    }

    pub fn into_parts(self) -> (r: (String, Vec<u8>))
        ensures
            r.0@ == self.spec_name(),
            r.1@ == self.spec_value(),
    {
        (self.name, self.value)
    }
}

/// Which features a middleware layer declares it handled or requires; the
/// requirements in the body itself stay in force.
#[derive(Debug, Clone, Default, PartialEq, Eq)]
pub struct MiddlewareCapabilityDeclaration {
    pub handled: BTreeSet<Feature>,
    pub required: BTreeSet<Feature>,
}

/// Where a middleware call happens and what it targets, without the
/// authorising principal.
pub struct MiddlewareTarget {
    pub request_id: ModelRequestId,
    pub mount: MiddlewareMount,
    /// The attempt, counting from one, for attempt-mounted middleware.
    pub attempt_index: Option<u32>,
    pub operation: Option<OperationKind>,
    pub endpoint: String,
    pub transport: ClientTransport,
    pub provider: Option<ProviderKind>,
    pub model: Option<String>,
    pub account_id: Option<ProviderAccountId>,
}

/// A failure of the middleware chain; domain errors keep their own type.
pub enum MiddlewareError {
    Rejected,
    Fault,
    InvalidState,
    Gateway(GatewayError),
    Engine(EngineError),
    Provider(ProviderError),
}

/// A middleware generation was already registered.
#[derive(Debug, Clone, Copy, PartialEq, Eq, Structural)]
pub struct MiddlewareRegistrationError;

} // verus!
