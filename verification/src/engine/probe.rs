//! The results of an administrator's account connectivity test.

use vstd::prelude::*;

use crate::error::{ClientVisibleUpstreamResponse, GatewayError, GatewayErrorKind};
use crate::event::GatewayEvent;
use crate::text::copy_bytes;

verus! {

/// The text a successful probe produced.
#[derive(Debug, Clone, PartialEq, Eq)]
pub struct AccountProbeResult {
    pub text: Vec<String>,
}

/// The text of every text increment among `events`, in order.
pub open spec fn text_deltas(events: Seq<GatewayEvent>) -> Seq<Seq<char>>
    decreases events.len(),
{
    if events.len() == 0 {
        Seq::empty()
    } else {
        let earlier = text_deltas(events.drop_last());
        match events.last() {
            GatewayEvent::TextDelta(d) => earlier.push(d.text@),
            _ => earlier,
        }
    }
}

impl AccountProbeResult {
    /// The result of a probe whose stream produced the canonical `events`:
    /// the text of each text increment, in order; other events add nothing.
    pub fn from_events(events: &[GatewayEvent]) -> (r: AccountProbeResult)
        ensures
            r.text@.map_values(|t: String| t@) == text_deltas(events@),
    {
        let mut text: Vec<String> = Vec::new();
        let mut i: usize = 0;
        while i < events.len()
            invariant
                i <= events.len(),
                text@.map_values(|t: String| t@) == text_deltas(events@.take(i as int)),
            decreases events.len() - i,
        {
            proof {
                assert(events@.take(i as int + 1).drop_last() =~= events@.take(i as int));
            }
            match &events[i] {
                GatewayEvent::TextDelta(d) => {
                    let piece = d.text.clone();
                    text.push(piece);
                },
                _ => {},
            }
            proof {
                assert(text@.map_values(|t: String| t@) =~= text_deltas(events@.take(i as int + 1)));
            }
            i = i + 1;
        }
        proof {
            assert(events@.take(events.len() as int) =~= events@);
        }
        AccountProbeResult { text }
    }
}

/// The raw upstream failure response shown only to the current connection
/// test. It has no `Debug`.
#[derive(PartialEq, Eq)]
pub struct AccountProbeUpstreamResponse {
    status: u16,
    content_type: Option<Vec<u8>>,
    body: Vec<u8>,
}

impl AccountProbeUpstreamResponse {
    pub closed spec fn spec_status(&self) -> u16 {
        self.status
    }

    pub closed spec fn spec_content_type(&self) -> Option<Seq<u8>> {
        match self.content_type {
            Some(c) => Some(c@),
            None => None,
        }
    }

    pub closed spec fn spec_body(&self) -> Seq<u8> {
        self.body@
    }

    /// Copies the status, content type and body of a client-visible response.
    pub fn from_client_response(response: &ClientVisibleUpstreamResponse) -> (r: AccountProbeUpstreamResponse)
        ensures
            r.spec_status() == response.spec_status(),
            r.spec_content_type() == response.spec_content_type(),
            r.spec_body() == response.spec_body(),
    {
        let content_type = match response.content_type() {
            Some(c) => Some(copy_bytes(c)),
            None => None,
        };
        AccountProbeUpstreamResponse { status: response.status(), content_type, body: copy_bytes(response.body()) }
    }

    pub fn status(&self) -> (r: u16)
        ensures
            r == self.spec_status(),
    {
        self.status
    }

    pub fn content_type(&self) -> (r: Option<&[u8]>)
        ensures
            r is Some == self.spec_content_type() is Some,
            r is Some ==> r->0@ == self.spec_content_type()->0,
    {
        match &self.content_type {
            Some(c) => Some(c.as_slice()),
            None => None,
        }
    }

    pub fn body(&self) -> (r: &[u8])
        ensures
            r@ == self.spec_body(),
    {
        self.body.as_slice()
    }
}

/// The terminal error of a connection test: the stable gateway
/// classification, and the source response shown only to this request.
pub struct AccountProbeError {
    gateway: GatewayError,
    upstream_response: Option<AccountProbeUpstreamResponse>,
}

impl AccountProbeError {
    pub closed spec fn spec_gateway(&self) -> GatewayError {
        self.gateway
    }

    pub closed spec fn spec_upstream_response(&self) -> Option<AccountProbeUpstreamResponse> {
        self.upstream_response
    }

    pub fn new(gateway: GatewayError, upstream_response: Option<AccountProbeUpstreamResponse>) -> (r: AccountProbeError)
        ensures
            r.spec_gateway() == gateway,
            r.spec_upstream_response() == upstream_response,
    {
        AccountProbeError { gateway, upstream_response }
    }

    pub fn kind(&self) -> (r: GatewayErrorKind)
        ensures
            r == self.spec_gateway().spec_kind(),
    {
        self.gateway.kind()
    }

    pub fn client_message(&self) -> (r: &str)
        ensures
            r@ == (match self.spec_gateway().spec_client_visible_upstream_error() {
                Some(e) => e.spec_message(),
                None => self.spec_gateway().spec_message(),
            }),
    {
        self.gateway.client_message()
    }

    pub fn client_error_type(&self) -> (r: Option<&str>)
        ensures
            (match self.spec_gateway().spec_client_visible_upstream_error() {
                Some(e) => match e.spec_error_type() {
                    Some(t) => r is Some && r->0@ == t,
                    None => r is None,
                },
                None => r is None,
            }),
    {
        self.gateway.client_error_type()
    }

    pub fn client_error_code(&self) -> (r: Option<&str>)
        ensures
            (match self.spec_gateway().spec_client_visible_upstream_error() {
                Some(e) => match e.spec_code() {
                    Some(c) => r is Some && r->0@ == c,
                    None => r is None,
                },
                None => r is None,
            }),
    {
        self.gateway.client_error_code()
    }

    pub fn upstream_response(&self) -> (r: Option<&AccountProbeUpstreamResponse>)
        ensures
            r is Some == self.spec_upstream_response() is Some,
            r is Some ==> *r->0 == self.spec_upstream_response()->0,
    {
        match &self.upstream_response {
            Some(u) => Some(u),
            None => None,
        }
    }
}

impl From<GatewayError> for AccountProbeError {
    fn from(gateway: GatewayError) -> (r: AccountProbeError) {
        AccountProbeError::new(gateway, None)
    }
}

impl vstd::std_specs::convert::FromSpecImpl<GatewayError> for AccountProbeError {
    open spec fn obeys_from_spec() -> bool {
        true
    }

    closed spec fn from_spec(gateway: GatewayError) -> AccountProbeError {
        AccountProbeError { gateway, upstream_response: None }
    }
}

} // verus!
