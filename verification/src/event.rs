//! The single canonical event boundary between providers and client protocols.

use vstd::prelude::*;
use vstd::string::StringSliceAdditionalSpecFns;
use vstd::utf8::encode_utf8;

use std::collections::BTreeMap;

use crate::accounting::{CalculatedCost, ProviderReportedCost, Usage};
use crate::text::{trim_spec, trim_str};

verus! {

broadcast use vstd::laws_cmp::group_laws_cmp, vstd::std_specs::btree::group_btree_axioms;

/// Stable metadata of one response.
#[derive(Debug, Clone, PartialEq, Eq)]
pub struct ResponseMeta {
    response_id: String,
    model: Option<String>,
    finish_reason: Option<FinishReason>,
}

impl ResponseMeta {
    pub closed spec fn spec_response_id(&self) -> Seq<char> {
        self.response_id@
    }

    pub closed spec fn spec_model(&self) -> Option<Seq<char>> {
        match self.model {
            Some(m) => Some(m@),
            None => None,
        }
    }

    pub closed spec fn spec_finish_reason(&self) -> Option<FinishReason> {
        self.finish_reason
    }

    /// Response metadata that names the model.
    pub fn new(response_id: String, model: String) -> (r: ResponseMeta)
        ensures
            r.spec_response_id() == response_id@,
            r.spec_model() == Some(model@),
            r.spec_finish_reason() is None,
    {
        ResponseMeta { response_id, model: Some(model), finish_reason: None }
    }

    /// Response metadata of a provider-native endpoint, which names no model.
    pub fn for_provider_endpoint(response_id: String) -> (r: ResponseMeta)
        ensures
            r.spec_response_id() == response_id@,
            r.spec_model() is None,
            r.spec_finish_reason() is None,
    {
        ResponseMeta { response_id, model: None, finish_reason: None }
    }

    pub fn with_finish_reason(self, finish_reason: FinishReason) -> (r: ResponseMeta)
        ensures
            r.spec_response_id() == self.spec_response_id(),
            r.spec_model() == self.spec_model(),
            r.spec_finish_reason() == Some(finish_reason),
    {
        let mut m = self;
        m.finish_reason = Some(finish_reason);
        m
    }

    /// The provider-native response id the client sees.
    pub fn response_id(&self) -> (r: &str)
        ensures
            r@ == self.spec_response_id(),
    {
        self.response_id.as_str()
    }

    /// The model name shown to the client.
    pub fn model(&self) -> (r: Option<&str>)
        ensures
            r is Some == self.spec_model() is Some,
            r is Some ==> r->0@ == self.spec_model()->0,
    {
        match &self.model {
            Some(m) => Some(m.as_str()),
            None => None,
        }
    }

    pub fn finish_reason(&self) -> (r: Option<FinishReason>)
        ensures
            r == self.spec_finish_reason(),
    {
        self.finish_reason
    }
}

/// The normalised reason a response ended.
#[derive(Debug, Clone, Copy, PartialEq, Eq, Structural, Hash)]
#[non_exhaustive]
pub enum FinishReason {
    /// Stopped normally.
    Stop,
    /// Reached the length limit.
    Length,
    /// Emitted a tool call.
    ToolCall,
    /// Stopped by a content policy.
    ContentFilter,
    /// A complete terminal state of no other category.
    Other,
}

/// The category of an output content item.
#[derive(Debug, Clone, Copy, PartialEq, Eq, Structural, Hash)]
#[non_exhaustive]
pub enum ContentKind {
    Text,
    Reasoning,
    ToolCall,
    Image,
    Audio,
}

/// A newly declared output content item.
#[derive(Debug, Clone, Copy, PartialEq, Eq, Structural)]
pub struct ContentItem {
    index: u32,
    kind: ContentKind,
}

impl ContentItem {
    pub closed spec fn spec_index(&self) -> u32 {
        self.index
    }

    pub closed spec fn spec_kind(&self) -> ContentKind {
        self.kind
    }

    pub fn new(index: u32, kind: ContentKind) -> (r: ContentItem)
        ensures
            r.spec_index() == index,
            r.spec_kind() == kind,
    {
        ContentItem { index, kind }
    }

    pub fn index(&self) -> (r: u32)
        ensures
            r == self.spec_index(),
    {
        self.index
    }

    pub fn kind(&self) -> (r: ContentKind)
        ensures
            r == self.spec_kind(),
    {
        self.kind
    }
}

/// A text increment. It has no `Debug`, so that text cannot reach logs.
#[derive(Clone, PartialEq, Eq)]
pub struct TextDelta {
    pub content_index: u32,
    pub text: String,
}

/// A reasoning increment. It has no `Debug`, so that text cannot reach logs.
#[derive(Clone, PartialEq, Eq)]
pub struct ReasoningDelta {
    pub content_index: u32,
    pub text: String,
}

/// A tool call increment. It has no `Debug`, so that arguments cannot reach logs.
#[derive(Clone, PartialEq, Eq)]
pub struct ToolCallDelta {
    pub content_index: u32,
    /// The stable tool call id.
    pub call_id: String,
    /// The tool name, which the first increment may carry.
    pub name: Option<String>,
    /// An increment of the JSON arguments string.
    pub arguments_delta: String,
}

/// Whether a WebSocket request used a new connection or one reused from the pool.
#[derive(Debug, Clone, Copy, PartialEq, Eq, Structural, Hash)]
pub enum WebSocketPoolKind {
    New,
    Reuse,
}

impl WebSocketPoolKind {
    /// The stable wire and storage name.
    pub open spec fn spec_name(self) -> Seq<char> {
        match self {
            WebSocketPoolKind::New => "new"@,
            WebSocketPoolKind::Reuse => "reuse"@,
        }
    }

    pub fn as_str(self) -> (r: &'static str)
        ensures
            r@ == self.spec_name(),
    {
        match self {
            WebSocketPoolKind::New => "new",
            WebSocketPoolKind::Reuse => "reuse",
        }
    }
}

/// Distinct values of [`WebSocketPoolKind`] have distinct stable names, so parsing a
/// value's name gives that value back.
pub proof fn lemma_web_socket_pool_kind_names_distinct(x: WebSocketPoolKind, y: WebSocketPoolKind)
    ensures
        x.spec_name() == y.spec_name() ==> x == y,
{
    reveal_strlit("new");
    reveal_strlit("reuse");
    match x {
        WebSocketPoolKind::New => match y {
            WebSocketPoolKind::New => {},
            WebSocketPoolKind::Reuse => { assert("new"@.len() != "reuse"@.len()); },
        },
        WebSocketPoolKind::Reuse => match y {
            WebSocketPoolKind::New => { assert("reuse"@.len() != "new"@.len()); },
            WebSocketPoolKind::Reuse => {},
        },
    }
}

/// The HTTP version of an upstream response.
#[derive(Debug, Clone, Copy, PartialEq, Eq, Structural, Hash)]
pub enum UpstreamHttpVersion {
    Unknown,
    Http09,
    Http10,
    Http11,
    Http2,
    Http3,
}

impl UpstreamHttpVersion {
    /// The stable wire and storage name.
    pub open spec fn spec_name(self) -> Seq<char> {
        match self {
            UpstreamHttpVersion::Unknown => "unknown"@,
            UpstreamHttpVersion::Http09 => "HTTP/0.9"@,
            UpstreamHttpVersion::Http10 => "HTTP/1.0"@,
            UpstreamHttpVersion::Http11 => "HTTP/1.1"@,
            UpstreamHttpVersion::Http2 => "HTTP/2"@,
            UpstreamHttpVersion::Http3 => "HTTP/3"@,
        }
    }

    pub fn as_str(self) -> (r: &'static str)
        ensures
            r@ == self.spec_name(),
    {
        match self {
            UpstreamHttpVersion::Unknown => "unknown",
            UpstreamHttpVersion::Http09 => "HTTP/0.9",
            UpstreamHttpVersion::Http10 => "HTTP/1.0",
            UpstreamHttpVersion::Http11 => "HTTP/1.1",
            UpstreamHttpVersion::Http2 => "HTTP/2",
            UpstreamHttpVersion::Http3 => "HTTP/3",
        }
    }
}

/// Distinct values of [`UpstreamHttpVersion`] have distinct stable names, so parsing a
/// value's name gives that value back.
pub proof fn lemma_upstream_http_version_names_distinct(x: UpstreamHttpVersion, y: UpstreamHttpVersion)
    ensures
        x.spec_name() == y.spec_name() ==> x == y,
{
    reveal_strlit("unknown");
    reveal_strlit("HTTP/0.9");
    reveal_strlit("HTTP/1.0");
    reveal_strlit("HTTP/1.1");
    reveal_strlit("HTTP/2");
    reveal_strlit("HTTP/3");
    match x {
        UpstreamHttpVersion::Unknown => match y {
            UpstreamHttpVersion::Unknown => {},
            UpstreamHttpVersion::Http09 => { assert("unknown"@.len() != "HTTP/0.9"@.len()); },
            UpstreamHttpVersion::Http10 => { assert("unknown"@.len() != "HTTP/1.0"@.len()); },
            UpstreamHttpVersion::Http11 => { assert("unknown"@.len() != "HTTP/1.1"@.len()); },
            UpstreamHttpVersion::Http2 => { assert("unknown"@.len() != "HTTP/2"@.len()); },
            UpstreamHttpVersion::Http3 => { assert("unknown"@.len() != "HTTP/3"@.len()); },
        },
        UpstreamHttpVersion::Http09 => match y {
            UpstreamHttpVersion::Unknown => { assert("HTTP/0.9"@.len() != "unknown"@.len()); },
            UpstreamHttpVersion::Http09 => {},
            UpstreamHttpVersion::Http10 => { assert("HTTP/0.9"@[5] != "HTTP/1.0"@[5]); },
            UpstreamHttpVersion::Http11 => { assert("HTTP/0.9"@[5] != "HTTP/1.1"@[5]); },
            UpstreamHttpVersion::Http2 => { assert("HTTP/0.9"@.len() != "HTTP/2"@.len()); },
            UpstreamHttpVersion::Http3 => { assert("HTTP/0.9"@.len() != "HTTP/3"@.len()); },
        },
        UpstreamHttpVersion::Http10 => match y {
            UpstreamHttpVersion::Unknown => { assert("HTTP/1.0"@.len() != "unknown"@.len()); },
            UpstreamHttpVersion::Http09 => { assert("HTTP/1.0"@[5] != "HTTP/0.9"@[5]); },
            UpstreamHttpVersion::Http10 => {},
            UpstreamHttpVersion::Http11 => { assert("HTTP/1.0"@[7] != "HTTP/1.1"@[7]); },
            UpstreamHttpVersion::Http2 => { assert("HTTP/1.0"@.len() != "HTTP/2"@.len()); },
            UpstreamHttpVersion::Http3 => { assert("HTTP/1.0"@.len() != "HTTP/3"@.len()); },
        },
        UpstreamHttpVersion::Http11 => match y {
            UpstreamHttpVersion::Unknown => { assert("HTTP/1.1"@.len() != "unknown"@.len()); },
            UpstreamHttpVersion::Http09 => { assert("HTTP/1.1"@[5] != "HTTP/0.9"@[5]); },
            UpstreamHttpVersion::Http10 => { assert("HTTP/1.1"@[7] != "HTTP/1.0"@[7]); },
            UpstreamHttpVersion::Http11 => {},
            UpstreamHttpVersion::Http2 => { assert("HTTP/1.1"@.len() != "HTTP/2"@.len()); },
            UpstreamHttpVersion::Http3 => { assert("HTTP/1.1"@.len() != "HTTP/3"@.len()); },
        },
        UpstreamHttpVersion::Http2 => match y {
            UpstreamHttpVersion::Unknown => { assert("HTTP/2"@.len() != "unknown"@.len()); },
            UpstreamHttpVersion::Http09 => { assert("HTTP/2"@.len() != "HTTP/0.9"@.len()); },
            UpstreamHttpVersion::Http10 => { assert("HTTP/2"@.len() != "HTTP/1.0"@.len()); },
            UpstreamHttpVersion::Http11 => { assert("HTTP/2"@.len() != "HTTP/1.1"@.len()); },
            UpstreamHttpVersion::Http2 => {},
            UpstreamHttpVersion::Http3 => { assert("HTTP/2"@[5] != "HTTP/3"@[5]); },
        },
        UpstreamHttpVersion::Http3 => match y {
            UpstreamHttpVersion::Unknown => { assert("HTTP/3"@.len() != "unknown"@.len()); },
            UpstreamHttpVersion::Http09 => { assert("HTTP/3"@.len() != "HTTP/0.9"@.len()); },
            UpstreamHttpVersion::Http10 => { assert("HTTP/3"@.len() != "HTTP/1.0"@.len()); },
            UpstreamHttpVersion::Http11 => { assert("HTTP/3"@.len() != "HTTP/1.1"@.len()); },
            UpstreamHttpVersion::Http2 => { assert("HTTP/3"@[5] != "HTTP/2"@[5]); },
            UpstreamHttpVersion::Http3 => {},
        },
    }
}

/// ASCII upper-casing of one byte, as `to_ascii_uppercase` does.
pub open spec fn ascii_upper(b: u8) -> u8 {
    if 97 <= b <= 122 {
        (b - 32) as u8
    } else {
        b
    }
}

/// `a`, upper-cased byte by byte in ASCII, equals `name`.
pub open spec fn ascii_upper_eq(a: Seq<u8>, name: Seq<u8>) -> bool {
    a.len() == name.len() && forall|i: int| 0 <= i < a.len() ==> ascii_upper(#[trigger] a[i]) == name[i]
}

fn ascii_upper_equals(a: &[u8], name: &str) -> (r: bool)
    ensures
        r == ascii_upper_eq(a@, name.spec_bytes()),
{
    let n = name.as_bytes();
    if a.len() != n.len() {
        return false;
    }
    let mut i: usize = 0;
    while i < a.len()
        invariant
            i <= a.len(),
            a.len() == n.len(),
            n@ == name.spec_bytes(),
            forall|j: int| 0 <= j < i ==> ascii_upper(#[trigger] a@[j]) == n@[j],
        decreases a.len() - i,
    {
        let c = a[i];
        let u: u8 = if 97 <= c && c <= 122 { c - 32 } else { c };
        if u != n[i] {
            return false;
        }
        i = i + 1;
    }
    true
}

/// The version that [`UpstreamHttpVersion::parse`] reads from the trimmed
/// UTF-8 bytes `t`, compared without ASCII case.
pub open spec fn http_version_of(t: Seq<u8>) -> Option<UpstreamHttpVersion> {
    if ascii_upper_eq(t, encode_utf8("HTTP/0.9"@)) || ascii_upper_eq(t, encode_utf8("0.9"@)) {
        Some(UpstreamHttpVersion::Http09)
    } else if ascii_upper_eq(t, encode_utf8("HTTP/1.0"@)) || ascii_upper_eq(t, encode_utf8("HTTP/1"@))
        || ascii_upper_eq(t, encode_utf8("1.0"@)) {
        Some(UpstreamHttpVersion::Http10)
    } else if ascii_upper_eq(t, encode_utf8("HTTP/1.1"@)) || ascii_upper_eq(t, encode_utf8("1.1"@)) {
        Some(UpstreamHttpVersion::Http11)
    } else if ascii_upper_eq(t, encode_utf8("HTTP/2"@)) || ascii_upper_eq(t, encode_utf8("HTTP/2.0"@))
        || ascii_upper_eq(t, encode_utf8("2"@)) || ascii_upper_eq(t, encode_utf8("2.0"@)) {
        Some(UpstreamHttpVersion::Http2)
    } else if ascii_upper_eq(t, encode_utf8("HTTP/3"@)) || ascii_upper_eq(t, encode_utf8("HTTP/3.0"@))
        || ascii_upper_eq(t, encode_utf8("3"@)) || ascii_upper_eq(t, encode_utf8("3.0"@)) {
        Some(UpstreamHttpVersion::Http3)
    } else {
        None
    }
}

impl UpstreamHttpVersion {
    /// Parses a protocol version as the transport spells it, ignoring
    /// surrounding whitespace and ASCII case. `Unknown` is never parsed.
    pub fn parse(value: &str) -> (r: Option<UpstreamHttpVersion>)
        ensures
            r == http_version_of(encode_utf8(trim_spec(value@))),
    {
        let t = trim_str(value).as_bytes();
        if ascii_upper_equals(t, "HTTP/0.9") || ascii_upper_equals(t, "0.9") {
            Some(UpstreamHttpVersion::Http09)
        } else if ascii_upper_equals(t, "HTTP/1.0") || ascii_upper_equals(t, "HTTP/1")
            || ascii_upper_equals(t, "1.0") {
            Some(UpstreamHttpVersion::Http10)
        } else if ascii_upper_equals(t, "HTTP/1.1") || ascii_upper_equals(t, "1.1") {
            Some(UpstreamHttpVersion::Http11)
        } else if ascii_upper_equals(t, "HTTP/2") || ascii_upper_equals(t, "HTTP/2.0")
            || ascii_upper_equals(t, "2") || ascii_upper_equals(t, "2.0") {
            Some(UpstreamHttpVersion::Http2)
        } else if ascii_upper_equals(t, "HTTP/3") || ascii_upper_equals(t, "HTTP/3.0")
            || ascii_upper_equals(t, "3") || ascii_upper_equals(t, "3.0") {
            Some(UpstreamHttpVersion::Http3)
        } else {
            None
        }
    }
}

/// Stage timings measured at the provider transport boundary, in milliseconds.
#[derive(Debug, Clone, Copy, Default, PartialEq, Eq, Structural)]
pub struct ProviderResponseTimings {
    pub transport_decision_wait_ms: Option<u64>,
    pub connect_ms: Option<u64>,
    pub headers_ms: Option<u64>,
    pub first_event_ms: Option<u64>,
    pub first_reasoning_ms: Option<u64>,
    pub first_text_ms: Option<u64>,
    pub first_token_ms: Option<u64>,
    pub provider_processing_ms: Option<u64>,
}

/// Whether `text` parses as JSON whose top-level value is an object.
pub uninterp spec fn json_text_is_object(text: Seq<char>) -> bool;

/// `serde_json::from_str::<Value>` on `text`, asking only whether it
/// succeeded with an object. The result depends on the text alone.
#[verifier::external_body]
fn parses_as_json_object(text: &str) -> (r: bool)
    ensures
        r == json_text_is_object(text@),
{
    match serde_json::from_str::<serde_json::Value>(text) {
        Ok(serde_json::Value::Object(_)) => true,
        Ok(_) => false,
        Err(_) => false,
    }
}

/// The largest provider response metadata, in bytes.
pub const PROVIDER_RESPONSE_METADATA_MAX_BYTES: usize = 32768;

/// A provider-filtered response observation: a bounded JSON object whose
/// fields only its provider interprets.
#[derive(Clone, PartialEq, Eq)]
pub struct ProviderResponseMetadata(String);

impl View for ProviderResponseMetadata {
    type V = Seq<char>;

    closed spec fn view(&self) -> Seq<char> {
        self.0@
    }
}

impl ProviderResponseMetadata {
    /// Keeps `json` when it is at most 32 KiB and a JSON object.
    pub fn new(json: String) -> (r: Option<ProviderResponseMetadata>)
        ensures
            r is Some <==> (encode_utf8(json@).len() <= PROVIDER_RESPONSE_METADATA_MAX_BYTES
                && json_text_is_object(json@)),
            r matches Some(m) ==> m@ == json@,
    {
        if json.as_str().as_bytes().len() > PROVIDER_RESPONSE_METADATA_MAX_BYTES {
            return None;
        }
        if parses_as_json_object(json.as_str()) {
            Some(ProviderResponseMetadata(json))
        } else {
            None
        }
    }

    /// The opaque JSON text, for the persistence adapter.
    pub fn as_json(&self) -> (r: &str)
        ensures
            r@ == self@,
    {
        self.0.as_str()
    }
}

/// An opaque response header a provider filtered for the client adapter.
#[derive(Clone, PartialEq, Eq)]
pub struct ProviderResponseHeader {
    name: String,
    value: Vec<u8>,
}

impl ProviderResponseHeader {
    pub closed spec fn spec_name(&self) -> Seq<char> {
        self.name@
    }

    pub closed spec fn spec_value(&self) -> Seq<u8> {
        self.value@
    }

    /// Keeps the name and value as the provider delivered them.
    pub fn new(name: String, value: Vec<u8>) -> (r: ProviderResponseHeader)
        ensures
            r.spec_name() == name@,
            r.spec_value() == value@,
    {
        ProviderResponseHeader { name, value }
    }

    pub fn name(&self) -> (r: &str)
        ensures
            r@ == self.spec_name(),
    {
        self.name.as_str()
    }

    pub fn value(&self) -> (r: &[u8])
        ensures
            r@ == self.spec_value(),
    {
        self.value.as_slice()
    }
}

/// The stable events every provider must emit.
#[derive(Clone, PartialEq)]
#[non_exhaustive]
pub enum GatewayEvent {
    /// The response started; it must be the first event.
    Started(ResponseMeta),
    /// Declares a content item that later increments write into.
    ContentAdded(ContentItem),
    TextDelta(TextDelta),
    ReasoningDelta(ReasoningDelta),
    ToolCallDelta(ToolCallDelta),
    /// Normalised usage.
    Usage(Usage),
    /// The cost the provider domain computed from the model and final usage.
    CalculatedCost(CalculatedCost),
    /// The billed total the provider reported; a later value replaces an earlier one.
    ProviderCost(ProviderReportedCost),
    /// The response completed; it must be the last event.
    Completed(ResponseMeta),
}

/// An ordering fault of canonical events.
#[derive(Debug, Clone, Copy, PartialEq, Eq, Structural)]
pub enum EventSequenceError {
    /// The first event is not `Started`.
    MissingStarted,
    /// `Started` came twice.
    DuplicateStarted,
    /// A content index was added twice.
    DuplicateContent { index: u32 },
    /// An increment refers to a missing content item or one of another kind.
    InvalidDeltaTarget { index: u32 },
    /// An event came after `Completed`.
    EventAfterCompleted,
    /// The stream ended before `Completed`.
    MissingCompleted,
}

/// The abstract state of sequencing: started, completed, and the declared
/// content items by index.
pub type SequenceView = (bool, bool, Map<u32, ContentKind>);

/// The empty state a validator starts in.
pub open spec fn initial_sequence() -> SequenceView {
    (false, false, Map::empty())
}

/// The content index `index` was declared with kind `kind`.
pub open spec fn declared_as(content: Map<u32, ContentKind>, index: u32, kind: ContentKind) -> bool {
    content.contains_key(index) && content[index] == kind
}

/// What observing `e` in state `s` reports.
pub open spec fn observe_outcome(s: SequenceView, e: GatewayEvent) -> Result<(), EventSequenceError> {
    if s.1 {
        Err(EventSequenceError::EventAfterCompleted)
    } else if !s.0 && !(e is Started) {
        Err(EventSequenceError::MissingStarted)
    } else {
        match e {
            GatewayEvent::Started(_) => if s.0 {
                Err(EventSequenceError::DuplicateStarted)
            } else {
                Ok(())
            },
            GatewayEvent::ContentAdded(item) => if s.2.contains_key(item.spec_index()) {
                Err(EventSequenceError::DuplicateContent { index: item.spec_index() })
            } else {
                Ok(())
            },
            GatewayEvent::TextDelta(d) => if declared_as(s.2, d.content_index, ContentKind::Text) {
                Ok(())
            } else {
                Err(EventSequenceError::InvalidDeltaTarget { index: d.content_index })
            },
            GatewayEvent::ReasoningDelta(d) => if declared_as(s.2, d.content_index, ContentKind::Reasoning) {
                Ok(())
            } else {
                Err(EventSequenceError::InvalidDeltaTarget { index: d.content_index })
            },
            GatewayEvent::ToolCallDelta(d) => if declared_as(s.2, d.content_index, ContentKind::ToolCall) {
                Ok(())
            } else {
                Err(EventSequenceError::InvalidDeltaTarget { index: d.content_index })
            },
            GatewayEvent::Usage(_) => Ok(()),
            GatewayEvent::CalculatedCost(_) => Ok(()),
            GatewayEvent::ProviderCost(_) => Ok(()),
            GatewayEvent::Completed(_) => Ok(()),
        }
    }
}

/// The state after observing `e` in state `s`. A repeated content index
/// still replaces the declared kind before it is reported.
pub open spec fn observe_next(s: SequenceView, e: GatewayEvent) -> SequenceView {
    if s.1 || (!s.0 && !(e is Started)) {
        s
    } else {
        match e {
            GatewayEvent::Started(_) => (true, s.1, s.2),
            GatewayEvent::ContentAdded(item) => (s.0, s.1, s.2.insert(item.spec_index(), item.spec_kind())),
            GatewayEvent::Completed(_) => (s.0, true, s.2),
            _ => s,
        }
    }
}

/// What [`EventSequenceValidator::finish`] reports in state `s`.
pub open spec fn finish_outcome(s: SequenceView) -> Result<(), EventSequenceError> {
    if !s.0 {
        Err(EventSequenceError::MissingStarted)
    } else if !s.1 {
        Err(EventSequenceError::MissingCompleted)
    } else {
        Ok(())
    }
}

/// The state after observing `events` in order from the initial state.
pub open spec fn run_events(events: Seq<GatewayEvent>) -> SequenceView
    decreases events.len(),
{
    if events.len() == 0 {
        initial_sequence()
    } else {
        observe_next(run_events(events.drop_last()), events.last())
    }
}

/// Every event of `events` was accepted when it was observed.
pub open spec fn all_accepted(events: Seq<GatewayEvent>) -> bool {
    forall|i: int| 0 <= i < events.len() ==> #[trigger] observe_outcome(run_events(events.take(i)), events[i]) is Ok
}

/// An incremental checker of canonical event order.
#[derive(Debug)]
pub struct EventSequenceValidator {
    started: bool,
    completed: bool,
    content: BTreeMap<u32, ContentKind>,
}

impl View for EventSequenceValidator {
    type V = SequenceView;

    closed spec fn view(&self) -> SequenceView {
        (self.started, self.completed, self.content@)
    }
}

impl Default for EventSequenceValidator {
    fn default() -> (r: EventSequenceValidator)
        ensures
            r@ == initial_sequence(),
    {
        EventSequenceValidator::new()
    }
}

impl EventSequenceValidator {
    /// An empty validator.
    pub fn new() -> (r: EventSequenceValidator)
        ensures
            r@ == initial_sequence(),
    {
        EventSequenceValidator { started: false, completed: false, content: BTreeMap::new() }
    }

    /// Checks one event and advances the state.
    pub fn observe(&mut self, event: &GatewayEvent) -> (r: Result<(), EventSequenceError>)
        ensures
            r == observe_outcome(old(self)@, *event),
            final(self)@ == observe_next(old(self)@, *event),
    {
        if self.completed {
            return Err(EventSequenceError::EventAfterCompleted);
        }
        let is_started = match event {
            GatewayEvent::Started(_) => true,
            _ => false,
        };
        if !self.started && !is_started {
            return Err(EventSequenceError::MissingStarted);
        }
        match event {
            GatewayEvent::Started(_) => {
                if self.started {
                    return Err(EventSequenceError::DuplicateStarted);
                }
                self.started = true;
            },
            GatewayEvent::ContentAdded(item) => {
                if self.content.insert(item.index(), item.kind()).is_some() {
                    return Err(EventSequenceError::DuplicateContent { index: item.index() });
                }
            },
            GatewayEvent::TextDelta(delta) => {
                return self.require_content(delta.content_index, ContentKind::Text);
            },
            GatewayEvent::ReasoningDelta(delta) => {
                return self.require_content(delta.content_index, ContentKind::Reasoning);
            },
            GatewayEvent::ToolCallDelta(delta) => {
                return self.require_content(delta.content_index, ContentKind::ToolCall);
            },
            GatewayEvent::Usage(_) | GatewayEvent::CalculatedCost(_) | GatewayEvent::ProviderCost(_) => {},
            GatewayEvent::Completed(_) => {
                self.completed = true;
            },
        }
        Ok(())
    }

    /// Checks that the stream ended normally with `Completed`.
    pub fn finish(&self) -> (r: Result<(), EventSequenceError>)
        ensures
            r == finish_outcome(self@),
    {
        if !self.started {
            return Err(EventSequenceError::MissingStarted);
        }
        if !self.completed {
            return Err(EventSequenceError::MissingCompleted);
        }
        Ok(())
    }

    fn require_content(&self, index: u32, expected: ContentKind) -> (r: Result<(), EventSequenceError>)
        ensures
            r == (if declared_as(self@.2, index, expected) {
                Ok(())
            } else {
                Err(EventSequenceError::InvalidDeltaTarget { index })
            }),
    {
        match self.content.get(&index) {
            Some(kind) => if *kind == expected {
                Ok(())
            } else {
                Err(EventSequenceError::InvalidDeltaTarget { index })
            },
            None => Err(EventSequenceError::InvalidDeltaTarget { index }),
        }
    }
}

/// The content item an increment writes into, with the kind it requires.
pub open spec fn delta_target(e: GatewayEvent) -> Option<(u32, ContentKind)> {
    match e {
        GatewayEvent::TextDelta(d) => Some((d.content_index, ContentKind::Text)),
        GatewayEvent::ReasoningDelta(d) => Some((d.content_index, ContentKind::Reasoning)),
        GatewayEvent::ToolCallDelta(d) => Some((d.content_index, ContentKind::ToolCall)),
        _ => None,
    }
}

/// `e` declares content index `index` with `kind`.
pub open spec fn adds_content(e: GatewayEvent, index: u32, kind: ContentKind) -> bool {
    match e {
        GatewayEvent::ContentAdded(item) => item.spec_index() == index && item.spec_kind() == kind,
        _ => false,
    }
}

/// One of the first `n` events declared content index `index` with `kind`.
pub open spec fn declared_before(events: Seq<GatewayEvent>, n: int, index: u32, kind: ContentKind) -> bool {
    exists|j: int| 0 <= j < n && #[trigger] adds_content(events[j], index, kind)
}

proof fn lemma_run_step(events: Seq<GatewayEvent>, n: int)
    requires
        0 < n <= events.len(),
    ensures
        run_events(events.take(n)) == observe_next(run_events(events.take(n - 1)), events[n - 1]),
{
    assert(events.take(n).drop_last() =~= events.take(n - 1));
    assert(events.take(n).last() == events[n - 1]);
}

proof fn lemma_accepted_prefix(events: Seq<GatewayEvent>, n: int)
    requires
        all_accepted(events),
        0 <= n <= events.len(),
    ensures
        run_events(events.take(n)).0 == (n > 0),
        n > 0 ==> events[0] is Started,
        forall|i: int| 0 < i < n ==> !(#[trigger] events[i] is Started),
        run_events(events.take(n)).1 == (n > 0 && events[n - 1] is Completed),
        forall|i: int| 0 <= i < n - 1 ==> !(#[trigger] events[i] is Completed),
        forall|k: u32, kind: ContentKind|
            #[trigger] declared_as(run_events(events.take(n)).2, k, kind) ==> declared_before(events, n, k, kind),
        forall|j: int, k: u32, kind: ContentKind|
            0 <= j < n && #[trigger] adds_content(events[j], k, kind) ==> declared_as(run_events(events.take(n)).2, k, kind),
    decreases n,
{
    if n == 0 {
        assert(events.take(0) =~= Seq::<GatewayEvent>::empty());
    } else {
        lemma_accepted_prefix(events, n - 1);
        lemma_run_step(events, n);
        let prev = run_events(events.take(n - 1));
        let e = events[n - 1];
        assert(observe_outcome(run_events(events.take(n - 1)), events[n - 1]) is Ok);
        assert forall|k: u32, kind: ContentKind|
            #[trigger] declared_as(run_events(events.take(n)).2, k, kind) implies declared_before(events, n, k, kind) by {
            match e {
                GatewayEvent::ContentAdded(item) => {
                    if k == item.spec_index() {
                        assert(adds_content(events[n - 1], k, kind));
                    } else {
                        assert(declared_as(prev.2, k, kind));
                        let j = choose|j: int| 0 <= j < n - 1 && #[trigger] adds_content(events[j], k, kind);
                        assert(adds_content(events[j], k, kind));
                    }
                },
                _ => {
                    assert(declared_as(prev.2, k, kind));
                    let j = choose|j: int| 0 <= j < n - 1 && #[trigger] adds_content(events[j], k, kind);
                    assert(adds_content(events[j], k, kind));
                },
            }
        }
        assert forall|j: int, k: u32, kind: ContentKind|
            0 <= j < n && #[trigger] adds_content(events[j], k, kind) implies declared_as(run_events(events.take(n)).2, k, kind) by {
            if j < n - 1 {
                assert(declared_as(prev.2, k, kind));
                match e {
                    GatewayEvent::ContentAdded(item) => {
                        assert(item.spec_index() != k);
                    },
                    _ => {},
                }
            }
        }
    }
}

/// Once `Completed` was observed, every further event is refused as coming
/// after it, and the state no longer changes.
pub proof fn lemma_completed_is_final(s: SequenceView, e: GatewayEvent)
    requires
        s.1,
    ensures
        observe_outcome(s, e) == Err::<(), EventSequenceError>(EventSequenceError::EventAfterCompleted),
        observe_next(s, e) == s,
{
}

/// A stream whose every event was accepted and whose validator then
/// finishes without error starts with `Started`, ends with `Completed`, and
/// has neither `Started` after its first event nor `Completed` before its last.
pub proof fn lemma_accepted_stream_is_framed(events: Seq<GatewayEvent>)
    requires
        all_accepted(events),
        finish_outcome(run_events(events)) is Ok,
    ensures
        events.len() > 0,
        events[0] is Started,
        events.last() is Completed,
        forall|i: int| 0 < i < events.len() ==> !(#[trigger] events[i] is Started),
        forall|i: int| 0 <= i < events.len() - 1 ==> !(#[trigger] events[i] is Completed),
{
    assert(events.take(events.len() as int) =~= events);
    lemma_accepted_prefix(events, events.len() as int);
}

/// In a stream whose events were all accepted, every increment writes into
/// a content item that an earlier event declared with the matching kind.
pub proof fn lemma_accepted_delta_was_declared(events: Seq<GatewayEvent>, i: int)
    requires
        all_accepted(events),
        0 <= i < events.len(),
        delta_target(events[i]) is Some,
    ensures
        match delta_target(events[i]) {
            Some((index, kind)) => declared_before(events, i, index, kind),
            None => false,
        },
{
    lemma_accepted_prefix(events, i);
    assert(observe_outcome(run_events(events.take(i)), events[i]) is Ok);
    match delta_target(events[i]) {
        Some((index, kind)) => {
            assert(declared_as(run_events(events.take(i)).2, index, kind));
        },
        None => {},
    }
}

/// Content index `index` was declared, with any kind, by one of the first `n` events.
pub open spec fn index_declared_before(events: Seq<GatewayEvent>, n: int, index: u32) -> bool {
    exists|j: int, kind: ContentKind| 0 <= j < n && #[trigger] adds_content(events[j], index, kind)
}

/// What observing `e` reports after the accepted events `history`, read
/// off the history itself: anything after `Completed` is refused; before
/// any `Started` only `Started` is accepted; `Started` is accepted once; a
/// content index is declared once; an increment needs its index declared
/// earlier with its own kind.
pub open spec fn history_outcome(history: Seq<GatewayEvent>, e: GatewayEvent) -> Result<(), EventSequenceError> {
    let n = history.len() as int;
    let started = exists|j: int| 0 <= j < n && #[trigger] history[j] is Started;
    let completed = exists|j: int| 0 <= j < n && #[trigger] history[j] is Completed;
    if completed {
        Err(EventSequenceError::EventAfterCompleted)
    } else if !started && !(e is Started) {
        Err(EventSequenceError::MissingStarted)
    } else {
        match e {
            GatewayEvent::Started(_) => if started {
                Err(EventSequenceError::DuplicateStarted)
            } else {
                Ok(())
            },
            GatewayEvent::ContentAdded(item) => if index_declared_before(history, n, item.spec_index()) {
                Err(EventSequenceError::DuplicateContent { index: item.spec_index() })
            } else {
                Ok(())
            },
            _ => match delta_target(e) {
                Some((index, kind)) => if declared_before(history, n, index, kind) {
                    Ok(())
                } else {
                    Err(EventSequenceError::InvalidDeltaTarget { index })
                },
                None => Ok(()),
            },
        }
    }
}

/// After a validator has accepted the events `history` (each in turn, from
/// an empty validator), what it reports for the next event is decided by
/// that history alone, as [`history_outcome`] reads it.
pub proof fn lemma_observe_follows_history(history: Seq<GatewayEvent>, e: GatewayEvent)
    requires
        all_accepted(history),
    ensures
        observe_outcome(run_events(history), e) == history_outcome(history, e),
{
    let n = history.len() as int;
    assert(history.take(n) =~= history);
    lemma_accepted_prefix(history, n);
    let s = run_events(history);
    if n > 0 {
        assert(history[0] is Started);
        if history[n - 1] is Completed {
            assert(history[n - 1] is Completed);
        }
    }
    match e {
        GatewayEvent::ContentAdded(item) => {
            let idx = item.spec_index();
            if s.2.contains_key(idx) {
                assert(declared_as(s.2, idx, s.2[idx]));
                let j = choose|j: int| 0 <= j < n && #[trigger] adds_content(history[j], idx, s.2[idx]);
                assert(adds_content(history[j], idx, s.2[idx]));
            }
            if index_declared_before(history, n, idx) {
                let (j, kind) = choose|j: int, kind: ContentKind| 0 <= j < n && #[trigger] adds_content(history[j], idx, kind);
                assert(declared_as(s.2, idx, kind));
            }
        },
        _ => {
            match delta_target(e) {
                Some((index, kind)) => {
                    if declared_before(history, n, index, kind) {
                        let j = choose|j: int| 0 <= j < n && #[trigger] adds_content(history[j], index, kind);
                        assert(declared_as(s.2, index, kind));
                    }
                },
                None => {},
            }
        },
    }
}

/// Every refusal but a repeated content index leaves the state as it was.
pub proof fn lemma_refusal_keeps_state(s: SequenceView, e: GatewayEvent)
    requires
        observe_outcome(s, e) is Err,
        !(observe_outcome(s, e) matches Err(EventSequenceError::DuplicateContent { .. })),
    ensures
        observe_next(s, e) == s,
{
}

} // verus!
