//! The one filter that diagnostic content passes. Unknown names and values
//! keep only a bounded shape and a digest.

use sha2::Digest;
use vstd::prelude::*;
use vstd::string::{StrSliceExecFns, StringExecFns, StringSliceAdditionalSpecFns};
use vstd::utf8::encode_utf8;

use crate::engine::provider::{bytes_contain, bytes_end_with, contains_bytes, ends_with_bytes};
use crate::text::{bytes_equal, is_control_char, string_from_ascii};

verus! {

/// The SHA-256 digest of a byte string.
pub uninterp spec fn sha256_digest(bytes: Seq<u8>) -> Seq<u8>;

/// `sha2::Sha256::digest`: the SHA-256 digest of the bytes, which is 32
/// bytes long.
#[verifier::external_body]
fn sha256(bytes: &[u8]) -> (r: Vec<u8>)
    ensures
        r@ == sha256_digest(bytes@),
        r@.len() == 32,
{
    sha2::Sha256::digest(bytes).to_vec()
}

/// The lowercase hexadecimal digit of a value below 16.
pub open spec fn hex_char(n: int) -> char {
    if n < 10 {
        (48 + n) as char
    } else {
        (87 + n) as char
    }
}

/// Bytes written as lowercase hexadecimal, two digits each, high first.
pub open spec fn hex_text(b: Seq<u8>) -> Seq<char> {
    Seq::new(2 * b.len(), |i: int| if i % 2 == 0 { hex_char((b[i / 2] / 16) as int) } else { hex_char((b[i / 2] % 16) as int) })
}

fn hex_digit(n: u8) -> (r: u8)
    requires
        n < 16,
    ensures
        r as char == hex_char(n as int),
        r < 128,
{
    if n < 10 {
        48 + n
    } else {
        87 + n
    }
}

/// Lowercase hexadecimal of the bytes.
fn hex_string(bytes: &[u8]) -> (r: String)
    requires
        bytes@.len() <= 64,
    ensures
        r@ == hex_text(bytes@),
{
    let mut out: Vec<u8> = Vec::new();
    let mut i: usize = 0;
    while i < bytes.len()
        invariant
            i <= bytes@.len() <= 64,
            out@.len() == 2 * i,
            forall|j: int| 0 <= j < out@.len() ==> out@[j] < 128,
            forall|j: int| 0 <= j < out@.len() ==> #[trigger] out@[j] as char == hex_text(bytes@)[j],
        decreases bytes@.len() - i,
    {
        let b = bytes[i];
        out.push(hex_digit(b / 16));
        out.push(hex_digit(b % 16));
        proof {
            assert((2 * i) / 2 == i && (2 * i) % 2 == 0) by (nonlinear_arith);
            assert((2 * i + 1) / 2 == i && (2 * i + 1) % 2 == 1) by (nonlinear_arith);
        }
        i = i + 1;
    }
    let ghost o = out@;
    let s = string_from_ascii(out);
    assert forall|j: int| 0 <= j < s@.len() implies s@[j] == hex_text(bytes@)[j] by {
        assert(s@[j] == o[j] as char);
    }
    assert(s@ =~= hex_text(bytes@));
    s
}

/// The SHA-256 of the bytes in lowercase hexadecimal.
fn fingerprint_hex(bytes: &[u8]) -> (r: String)
    ensures
        r@ == hex_text(sha256_digest(bytes@)),
        r@.len() == 64,
{
    let digest = sha256(bytes);
    hex_string(digest.as_slice())
}

/// The length and SHA-256 of raw bytes; the bytes themselves are neither
/// copied nor kept. As JSON: `{"bytes": .., "sha256": ..}`.
#[derive(Debug, Clone, PartialEq, Eq)]
pub struct BodyFingerprint {
    pub bytes: usize,
    pub sha256: String,
}

pub fn body_fingerprint(bytes: &[u8]) -> (r: BodyFingerprint)
    ensures
        r.bytes == bytes@.len(),
        r.sha256@ == hex_text(sha256_digest(bytes@)),
{
    BodyFingerprint { bytes: bytes.len(), sha256: fingerprint_hex(bytes) }
}

/// A lower-cased name whose value is a secret: any name holding
/// `authorization`, `cookie`, `api_key`, `api-key`, `password`, `secret` or
/// `attestation`, or `token` unless it ends in `tokens`, and the two
/// integrity headers `x-oai-is` and `x-oai-is-update`.
pub open spec fn secret_name(k: Seq<u8>) -> bool {
    ||| bytes_contain(k, encode_utf8("authorization"@))
    ||| bytes_contain(k, encode_utf8("cookie"@))
    ||| bytes_contain(k, encode_utf8("api_key"@))
    ||| bytes_contain(k, encode_utf8("api-key"@))
    ||| bytes_contain(k, encode_utf8("token"@)) && !bytes_end_with(k, encode_utf8("tokens"@))
    ||| bytes_contain(k, encode_utf8("password"@))
    ||| bytes_contain(k, encode_utf8("secret"@))
    ||| bytes_contain(k, encode_utf8("attestation"@))
    ||| k == encode_utf8("x-oai-is"@)
    ||| k == encode_utf8("x-oai-is-update"@)
}

pub(crate) fn secret_key(key: &str) -> (r: bool)
    ensures
        r == secret_name(encode_utf8(key@)),
{
    let k = key.as_bytes();
    contains_bytes(k, "authorization".as_bytes()) || contains_bytes(k, "cookie".as_bytes())
        || contains_bytes(k, "api_key".as_bytes()) || contains_bytes(k, "api-key".as_bytes())
        || contains_bytes(k, "token".as_bytes()) && !ends_with_bytes(k, "tokens".as_bytes())
        || contains_bytes(k, "password".as_bytes()) || contains_bytes(k, "secret".as_bytes())
        || contains_bytes(k, "attestation".as_bytes()) || bytes_equal(k, "x-oai-is".as_bytes())
        || bytes_equal(k, "x-oai-is-update".as_bytes())
}

/// A lower-cased header whose value is kept as text: request and trace
/// ids, content framing, timing and the Codex limit headers.
pub open spec fn safe_header_name(k: Seq<char>) -> bool {
    ||| k == "x-oai-request-id"@ || k == "x-client-request-id"@ || k == "x-request-id"@
    ||| k == "request-id"@ || k == "openai-request-id"@ || k == "x-openai-request-id"@
    ||| k == "cf-ray"@ || k == "traceparent"@ || k == "tracestate"@
    ||| k == "content-type"@ || k == "content-length"@ || k == "content-encoding"@
    ||| k == "retry-after"@ || k == "openai-processing-ms"@ || k == "x-processing-ms"@
    ||| k == "date"@ || k == "server"@ || k == "sec-websocket-extensions"@
    ||| k == "x-codex-allowed"@ || k == "x-codex-limit-reached"@ || k == "x-codex-active-limit"@
    ||| k == "x-models-etag"@
}

fn one_of(key: &str, names: &[&str]) -> (r: bool)
    ensures
        r == exists|i: int| 0 <= i < names@.len() && key@ == (#[trigger] names@[i])@,
{
    let mut i: usize = 0;
    while i < names.len()
        invariant
            i <= names@.len(),
            forall|j: int| 0 <= j < i ==> key@ != (#[trigger] names@[j])@,
        decreases names@.len() - i,
    {
        if crate::text::str_equal(key, names[i]) {
            return true;
        }
        i = i + 1;
    }
    false
}

pub(crate) fn safe_header(key: &str) -> (r: bool)
    ensures
        r == safe_header_name(key@),
{
    let names = [
        "x-oai-request-id", "x-client-request-id", "x-request-id", "request-id", "openai-request-id",
        "x-openai-request-id", "cf-ray", "traceparent", "tracestate", "content-type", "content-length",
        "content-encoding", "retry-after", "openai-processing-ms", "x-processing-ms", "date", "server",
        "sec-websocket-extensions", "x-codex-allowed", "x-codex-limit-reached", "x-codex-active-limit",
        "x-models-etag",
    ];
    let r = one_of(key, &names);
    proof {
        if safe_header_name(key@) {
            let i: int = choose|i: int| 0 <= i < 22 && key@ == (#[trigger] names@[i])@;
        }
    }
    r
}

/// Event types whose name a diagnostic may show; this decides only what is
/// shown in the clear, not what is valid.
pub open spec fn known_event_name(v: Seq<char>) -> bool {
    ||| v == "error"@ || v == "response.create"@ || v == "response.created"@
    ||| v == "response.in_progress"@ || v == "response.completed"@ || v == "response.failed"@
    ||| v == "response.incomplete"@ || v == "response.metadata"@ || v == "codex.response.metadata"@
    ||| v == "codex.rate_limits"@ || v == "response.output_item.added"@ || v == "response.output_item.done"@
    ||| v == "response.content_part.added"@ || v == "response.content_part.done"@
    ||| v == "response.output_text.delta"@ || v == "response.output_text.done"@
    ||| v == "response.function_call_arguments.delta"@ || v == "response.function_call_arguments.done"@
    ||| v == "response.reasoning_summary_text.delta"@ || v == "response.reasoning_summary_text.done"@
    ||| v == "response.reasoning_text.delta"@ || v == "response.reasoning_text.done"@
}

fn known_event_type(value: &str) -> (r: bool)
    ensures
        r == known_event_name(value@),
{
    let names = [
        "error", "response.create", "response.created", "response.in_progress", "response.completed",
        "response.failed", "response.incomplete", "response.metadata", "codex.response.metadata",
        "codex.rate_limits", "response.output_item.added", "response.output_item.done",
        "response.content_part.added", "response.content_part.done", "response.output_text.delta",
        "response.output_text.done", "response.function_call_arguments.delta",
        "response.function_call_arguments.done", "response.reasoning_summary_text.delta",
        "response.reasoning_summary_text.done", "response.reasoning_text.delta", "response.reasoning_text.done",
    ];
    let r = one_of(value, &names);
    proof {
        if known_event_name(value@) {
            let i: int = choose|i: int| 0 <= i < 22 && value@ == (#[trigger] names@[i])@;
        }
    }
    r
}

/// The protocol values a diagnostic shows in the clear: event and item
/// types, roles and statuses.
pub open spec fn protocol_text(key: Seq<char>, v: Seq<char>) -> bool {
    if key == "type"@ {
        ||| known_event_name(v)
        ||| v == "message"@ || v == "function_call"@ || v == "function_call_output"@ || v == "reasoning"@
        ||| v == "input_text"@ || v == "output_text"@ || v == "input_image"@ || v == "refusal"@
    } else if key == "role"@ {
        v == "system"@ || v == "developer"@ || v == "user"@ || v == "assistant"@ || v == "tool"@
    } else if key == "status"@ {
        v == "in_progress"@ || v == "completed"@ || v == "incomplete"@ || v == "failed"@
    } else {
        false
    }
}

fn protocol_value(key: &str, value: &str) -> (r: bool)
    ensures
        r == protocol_text(key@, value@),
{
    if crate::text::str_equal(key, "type") {
        let names = [
            "message", "function_call", "function_call_output", "reasoning", "input_text", "output_text",
            "input_image", "refusal",
        ];
        let r = known_event_type(value) || one_of(value, &names);
        proof {
            if protocol_text(key@, value@) && !known_event_name(value@) {
                let i: int = choose|i: int| 0 <= i < 8 && value@ == (#[trigger] names@[i])@;
            }
        }
        r
    } else if crate::text::str_equal(key, "role") {
        let names = ["system", "developer", "user", "assistant", "tool"];
        let r = one_of(value, &names);
        proof {
            if protocol_text(key@, value@) {
                let i: int = choose|i: int| 0 <= i < 5 && value@ == (#[trigger] names@[i])@;
            }
        }
        r
    } else if crate::text::str_equal(key, "status") {
        let names = ["in_progress", "completed", "incomplete", "failed"];
        let r = one_of(value, &names);
        proof {
            if protocol_text(key@, value@) {
                let i: int = choose|i: int| 0 <= i < 4 && value@ == (#[trigger] names@[i])@;
            }
        }
        r
    } else {
        false
    }
}

/// Where in a captured document a value stands, which decides what of it
/// may be kept.
#[derive(Debug, Clone, Copy, PartialEq, Eq, Structural)]
pub enum CaptureContext {
    /// The protocol skeleton.
    Protocol,
    /// The top level of an upstream metadata or error frame.
    UpstreamEvent,
    /// Anything whose content is not trusted.
    Opaque,
    /// The header object of an upstream event.
    Headers,
    /// The value of a safe header.
    HeaderValue,
}

/// Field names that keep the protocol context.
pub open spec fn protocol_field(n: Seq<char>) -> bool {
    ||| n == "response"@ || n == "error"@ || n == "input"@ || n == "output"@ || n == "item"@
    ||| n == "part"@ || n == "content"@ || n == "type"@ || n == "role"@ || n == "status"@
}

/// Field names kept by name whose values are opaque.
pub open spec fn opaque_field(n: Seq<char>) -> bool {
    ||| n == "id"@ || n == "model"@ || n == "message"@ || n == "text"@
    ||| n == "delta"@ || n == "code"@ || n == "metadata"@ || n == "headers"@
}

/// The context of a field's value, where its name may be kept.
pub open spec fn field_child(context: CaptureContext, name: Seq<char>) -> Option<CaptureContext> {
    if context == CaptureContext::UpstreamEvent && name == "headers"@ {
        Some(CaptureContext::Headers)
    } else if context == CaptureContext::Headers && safe_header_name(crate::text::ascii_lowercase(name)) {
        Some(CaptureContext::HeaderValue)
    } else if (context == CaptureContext::Protocol || context == CaptureContext::UpstreamEvent)
        && protocol_field(name) {
        Some(CaptureContext::Protocol)
    } else if (context == CaptureContext::Protocol || context == CaptureContext::UpstreamEvent)
        && opaque_field(name) {
        Some(CaptureContext::Opaque)
    } else {
        None
    }
}

/// The captured name of a field, and the context of its value: an unknown
/// name becomes `field_` and the SHA-256 of its bytes, with an opaque value.
pub open spec fn captured_field(context: CaptureContext, name: Seq<char>) -> (Seq<char>, CaptureContext) {
    match field_child(context, name) {
        Some(c) => (name, c),
        None => ("field_"@ + hex_text(sha256_digest(encode_utf8(name))), CaptureContext::Opaque),
    }
}

fn field(context: CaptureContext, name: &str) -> (r: (String, CaptureContext))
    ensures
        (r.0@, r.1) == captured_field(context, name@),
{
    let upstream = match context {
        CaptureContext::UpstreamEvent => true,
        _ => false,
    };
    let protocol = match context {
        CaptureContext::Protocol => true,
        CaptureContext::UpstreamEvent => true,
        _ => false,
    };
    let headers = match context {
        CaptureContext::Headers => true,
        _ => false,
    };
    let child = if upstream && crate::text::str_equal(name, "headers") {
        Some(CaptureContext::Headers)
    } else if headers && safe_header(crate::text::to_ascii_lowercase(name).as_str()) {
        Some(CaptureContext::HeaderValue)
    } else if protocol && {
        let names = ["response", "error", "input", "output", "item", "part", "content", "type", "role", "status"];
        let r = one_of(name, &names);
        proof {
            if protocol_field(name@) {
                let i: int = choose|i: int| 0 <= i < 10 && name@ == (#[trigger] names@[i])@;
            }
        }
        r
    } {
        Some(CaptureContext::Protocol)
    } else if protocol && {
        let names = ["id", "model", "message", "text", "delta", "code", "metadata", "headers"];
        let r = one_of(name, &names);
        proof {
            if opaque_field(name@) {
                let i: int = choose|i: int| 0 <= i < 8 && name@ == (#[trigger] names@[i])@;
            }
        }
        r
    } {
        Some(CaptureContext::Opaque)
    } else {
        None
    };
    match child {
        Some(c) => (String::from_str(name), c),
        None => {
            let digest = fingerprint_hex(name.as_bytes());
            (String::from_str("field_").concat(digest.as_str()), CaptureContext::Opaque)
        },
    }
}

/// At most `limit` characters of the text, each control character replaced
/// by a space.
pub open spec fn bounded_text(v: Seq<char>, limit: nat) -> Seq<char> {
    Seq::new(
        if v.len() < limit { v.len() } else { limit },
        |i: int| if is_control_char(v[i]) { ' ' } else { v[i] },
    )
}

pub fn bounded(value: &str, limit: usize) -> (r: String)
    ensures
        r@ == bounded_text(value@, limit as nat),
{
    let n = value.unicode_len();
    let m = if n < limit { n } else { limit };
    let mut out = String::new();
    let mut i: usize = 0;
    while i < m
        invariant
            i <= m <= n,
            n == value@.len(),
            m == (if n < limit { n } else { limit }),
            out@ =~= bounded_text(value@, limit as nat).subrange(0, i as int),
        decreases m - i,
    {
        let c = value.get_char(i);
        let u = c as u32;
        if u < 0x20 || (0x7f <= u && u < 0xa0) {
            proof {
                reveal_strlit(" ");
            }
            out.append(" ");
        } else {
            out.append(value.substring_char(i, i + 1));
        }
        i = i + 1;
    }
    out
}

/// One captured value: a text kept in the clear, or the digest of one that
/// is not.
#[derive(Debug, Clone, PartialEq, Eq)]
pub enum DiagnosticValue {
    Text(String),
    Fingerprint(BodyFingerprint),
}

/// An event type as a diagnostic shows it: its name if known, else its
/// digest.
pub fn diagnostic_event_type(value: &str) -> (r: DiagnosticValue)
    ensures
        known_event_name(value@) ==> (r matches DiagnosticValue::Text(t) && t@ == value@),
        !known_event_name(value@) ==> (r matches DiagnosticValue::Fingerprint(f)
            && f.bytes == encode_utf8(value@).len() && f.sha256@ == hex_text(sha256_digest(encode_utf8(value@)))),
{
    if known_event_type(value) {
        DiagnosticValue::Text(String::from_str(value))
    } else {
        DiagnosticValue::Fingerprint(body_fingerprint(value.as_bytes()))
    }
}

/// The captured name of a header: lower-cased, at most 96 characters.
pub open spec fn header_capture_name(name: Seq<char>) -> Seq<char> {
    bounded_text(crate::text::ascii_lowercase(name), 96)
}

/// `d` is what a capture keeps of a header value under the captured name
/// `name`: `<redacted>` for a secret, the bounded text of a safe header,
/// else the value's digest.
pub open spec fn header_value_captured(d: DiagnosticValue, name: Seq<char>, value: Seq<char>) -> bool {
    if secret_name(encode_utf8(name)) {
        d matches DiagnosticValue::Text(t) && t@ == "<redacted>"@
    } else if safe_header_name(name) {
        d matches DiagnosticValue::Text(t) && t@ == bounded_text(value, 256)
    } else {
        d matches DiagnosticValue::Fingerprint(f) && f.bytes == encode_utf8(value).len() && f.sha256@ == hex_text(
            sha256_digest(encode_utf8(value)),
        )
    }
}

/// The raw header values grouped by captured name, in order of arrival.
pub open spec fn grouped_headers(hs: Seq<(Seq<char>, Seq<char>)>) -> Map<Seq<char>, Seq<Seq<char>>>
    decreases hs.len(),
{
    if hs.len() == 0 {
        Map::empty()
    } else {
        let g = grouped_headers(hs.drop_last());
        let k = header_capture_name(hs.last().0);
        let prev = if g.contains_key(k) { g[k] } else { Seq::empty() };
        g.insert(k, prev.push(hs.last().1))
    }
}

/// The headers as name and value texts.
pub open spec fn header_texts(hs: Seq<(&str, &str)>) -> Seq<(Seq<char>, Seq<char>)> {
    Seq::new(hs.len(), |i: int| (hs[i].0@, hs[i].1@))
}

/// The capture `m` holds, under each captured name, one captured value for
/// each raw value that `g` groups under it, in order.
pub open spec fn headers_captured(m: Map<Seq<char>, Vec<DiagnosticValue>>, g: Map<Seq<char>, Seq<Seq<char>>>) -> bool {
    &&& m.dom() == g.dom()
    &&& forall|k: Seq<char>| #[trigger] g.contains_key(k) ==> m[k]@.len() == g[k].len()
        && forall|j: int| 0 <= j < g[k].len() ==> header_value_captured(#[trigger] m[k]@[j], k, g[k][j])
}

fn capture_header_value(name: &str, value: &str) -> (r: DiagnosticValue)
    ensures
        header_value_captured(r, name@, value@),
{
    if secret_key(name) {
        proof {
            reveal_strlit("<redacted>");
        }
        DiagnosticValue::Text(String::from_str("<redacted>"))
    } else if safe_header(name) {
        DiagnosticValue::Text(bounded(value, 256))
    } else {
        DiagnosticValue::Fingerprint(body_fingerprint(value.as_bytes()))
    }
}

/// Request or response headers for a diagnostic: the first 64, grouped by
/// lower-cased name with every value kept in order; a secret is redacted, a
/// safe header kept as bounded text, any other value reduced to its digest.
pub fn diagnostic_headers(headers: &[(&str, &str)]) -> (r: crate::textmap::TextMap<Vec<DiagnosticValue>>)
    ensures
        headers_captured(
            r@,
            grouped_headers(header_texts(headers@).take(if headers@.len() < 64 { headers@.len() as int } else { 64 })),
        ),
{
    let n = if headers.len() < 64 { headers.len() } else { 64 };
    let ghost hs = header_texts(headers@);
    let mut result: crate::textmap::TextMap<Vec<DiagnosticValue>> = crate::textmap::TextMap::new();
    let mut i: usize = 0;
    proof {
        assert(hs.take(0) =~= Seq::<(Seq<char>, Seq<char>)>::empty());
        assert(result@ =~= Map::<Seq<char>, Vec<DiagnosticValue>>::empty());
    }
    while i < n
        invariant
            i <= n <= headers@.len(),
            n == (if headers@.len() < 64 { headers@.len() } else { 64 }),
            hs == header_texts(headers@),
            headers_captured(result@, grouped_headers(hs.take(i as int))),
        decreases n - i,
    {
        let (raw_name, raw_value) = headers[i];
        let lower = crate::text::to_ascii_lowercase(raw_name);
        let name = bounded(lower.as_str(), 96);
        let value = capture_header_value(name.as_str(), raw_value);
        let ghost g = grouped_headers(hs.take(i as int));
        let ghost old_m = result@;
        let mut values = match result.remove(name.as_str()) {
            Some(v) => v,
            None => Vec::new(),
        };
        let ghost before = values@;
        values.push(value);
        let ghost k = name@;
        result.insert(name, values);
        proof {
            assert(hs.take(i as int + 1).drop_last() =~= hs.take(i as int));
            assert(hs.take(i as int + 1).last() == hs[i as int]);
            assert(hs[i as int] == (raw_name@, raw_value@));
            let g2 = grouped_headers(hs.take(i as int + 1));
            assert(k == header_capture_name(raw_name@));
            assert(result@.dom() =~= g2.dom());
            assert forall|kk: Seq<char>| #[trigger] g2.contains_key(kk) implies result@[kk]@.len() == g2[kk].len()
                && forall|j: int| 0 <= j < g2[kk].len() ==> header_value_captured(#[trigger] result@[kk]@[j], kk, g2[kk][j]) by {
                if kk == k {
                    if g.contains_key(k) {
                        assert(before == old_m[k]@);
                    } else {
                        assert(before.len() == 0);
                    }
                    assert forall|j: int| 0 <= j < g2[kk].len() implies header_value_captured(#[trigger] result@[kk]@[j], kk, g2[kk][j]) by {
                        if j < g2[kk].len() - 1 {
                            assert(result@[kk]@[j] == before[j]);
                            assert(g2[kk][j] == g[k][j]);
                        }
                    }
                } else {
                    assert(result@[kk] == old_m[kk]);
                    assert(g2[kk] == g[kk]);
                }
            }
        }
        i = i + 1;
    }
    result
}

/// A JSON document as the capture reads it. An object's fields come in the
/// order `serde_json` walks them, each name once; a number carries its
/// value where it is a non-negative integer, and its JSON text.
#[derive(Debug, PartialEq)]
pub enum JsonTree {
    Null,
    Bool(bool),
    Number { as_u64: Option<u64>, text: String },
    Text(String),
    Array(Vec<JsonTree>),
    Object(Vec<(String, JsonTree)>),
}

/// What a diagnostic keeps of a JSON document.
#[derive(Debug, PartialEq, Eq)]
pub enum CapturedJson {
    /// `{"omitted": true}`: the budget or the depth ran out.
    Omitted,
    /// `"<redacted>"`: the value stood under a secret name.
    Redacted,
    /// A text kept in the clear, bounded.
    Text(String),
    /// `{"bytes": .., "sha256": ..}` of a value that is not kept.
    Fingerprint(BodyFingerprint),
    /// An HTTP status kept as a number.
    Status(u64),
    /// `{"length": .., "sample": [..]}` of an array.
    Array { length: usize, sample: Vec<CapturedJson> },
    /// The captured fields, in order, and `_omittedFields` where some were left out.
    Object { fields: Vec<(String, CapturedJson)>, omitted_fields: Option<usize> },
}

/// [`CapturedJson`] in terms of texts.
pub enum CaptureShape {
    Omitted,
    Redacted,
    Text(Seq<char>),
    Fingerprint(nat, Seq<char>),
    Status(u64),
    Array(nat, Seq<CaptureShape>),
    Object(Seq<(Seq<char>, CaptureShape)>, Option<nat>),
}

impl CapturedJson {
    pub open spec fn shape(self) -> CaptureShape
        decreases self,
    {
        match self {
            CapturedJson::Omitted => CaptureShape::Omitted,
            CapturedJson::Redacted => CaptureShape::Redacted,
            CapturedJson::Text(t) => CaptureShape::Text(t@),
            CapturedJson::Fingerprint(f) => CaptureShape::Fingerprint(f.bytes as nat, f.sha256@),
            CapturedJson::Status(s) => CaptureShape::Status(s),
            CapturedJson::Array { length, sample } => CaptureShape::Array(
                length as nat,
                Seq::new(sample.len() as nat, |i: int| if 0 <= i < sample.len() { sample[i].shape() } else { CaptureShape::Omitted }),
            ),
            CapturedJson::Object { fields, omitted_fields } => CaptureShape::Object(
                Seq::new(
                    fields.len() as nat,
                    |i: int| if 0 <= i < fields.len() { (fields[i].0@, fields[i].1.shape()) } else { (Seq::empty(), CaptureShape::Omitted) },
                ),
                match omitted_fields {
                    Some(n) => Some(n as nat),
                    None => None,
                },
            ),
        }
    }
}

/// The digest shape of a text.
pub open spec fn fingerprint_shape(v: Seq<char>) -> CaptureShape {
    CaptureShape::Fingerprint(encode_utf8(v).len(), hex_text(sha256_digest(encode_utf8(v))))
}

/// The budget of nodes a capture may visit.
pub const CAPTURE_BUDGET: usize = 96;

/// The deepest level a capture descends to.
pub const CAPTURE_MAX_DEPTH: usize = 6;

/// The capture of `v`, found under `key` in `context` at `depth` with
/// `budget` nodes left, and the budget left afterwards. Each visited node
/// costs one; a node met with no budget left, or deeper than 6, is
/// omitted. A value under a secret name is redacted; an object keeps at
/// most 48 fields and stops when the budget runs out, an array shows its
/// length and at most 4 items; a text is kept only as a safe header value
/// or a protocol value, an HTTP status only in the protocol context, and
/// anything else is reduced to the digest of its JSON text.
pub open spec fn captured(v: JsonTree, key: Seq<char>, context: CaptureContext, depth: nat, budget: nat) -> (
    CaptureShape,
    nat,
)
    decreases 7 - depth, 1nat, 0nat,
{
    if budget == 0 || depth > 6 {
        (CaptureShape::Omitted, budget)
    } else {
        let b = (budget - 1) as nat;
        let k = crate::text::ascii_lowercase(key);
        if secret_name(encode_utf8(k)) {
            (CaptureShape::Redacted, b)
        } else {
            match v {
                JsonTree::Object(entries) => {
                    let n: nat = if entries.len() < 48 { entries.len() as nat } else { 48 };
                    let (fields, b2) = captured_fields(entries@, context, depth, b, n);
                    (CaptureShape::Object(
                        fields,
                        if fields.len() < entries.len() { Some((entries.len() - fields.len()) as nat) } else { None },
                    ), b2)
                },
                JsonTree::Array(items) => {
                    let m: nat = if items.len() < 4 { items.len() as nat } else { 4 };
                    let (sample, b2) = captured_items(items@, k, context, depth, b, m);
                    (CaptureShape::Array(items.len() as nat, sample), b2)
                },
                JsonTree::Text(t) => if (context == CaptureContext::HeaderValue && safe_header_name(k)) || ((
                context == CaptureContext::Protocol || context == CaptureContext::UpstreamEvent) && protocol_text(k, t@)) {
                    (CaptureShape::Text(bounded_text(t@, 256)), b)
                } else {
                    (fingerprint_shape(t@), b)
                },
                JsonTree::Number { as_u64, text } => if context == CaptureContext::Protocol && k == "status"@
                    && (as_u64 matches Some(s) && 100 <= s <= 599) {
                    (CaptureShape::Status(as_u64->0), b)
                } else {
                    (fingerprint_shape(text@), b)
                },
                JsonTree::Bool(x) => (fingerprint_shape(if x { "true"@ } else { "false"@ }), b),
                JsonTree::Null => (fingerprint_shape("null"@), b),
            }
        }
    }
}

/// The captured fields of the first `n` entries of an object at `depth`,
/// stopping once the budget runs out, and the budget left.
pub open spec fn captured_fields(
    entries: Seq<(String, JsonTree)>,
    context: CaptureContext,
    depth: nat,
    budget: nat,
    n: nat,
) -> (Seq<(Seq<char>, CaptureShape)>, nat)
    decreases 7 - depth, 0nat, n,
{
    if n == 0 || depth > 6 || n > entries.len() {
        (Seq::empty(), budget)
    } else {
        let (prev, b) = captured_fields(entries, context, depth, budget, (n - 1) as nat);
        if b == 0 {
            (prev, b)
        } else {
            let (name, child) = captured_field(context, entries[n - 1].0@);
            let (s, b2) = captured(entries[n - 1].1, entries[n - 1].0@, child, depth + 1, b);
            (prev.push((name, s)), b2)
        }
    }
}

/// The context of an array item: a header value holds only texts.
pub open spec fn item_context(context: CaptureContext, item: JsonTree) -> CaptureContext {
    if context == CaptureContext::HeaderValue && !(item is Text) {
        CaptureContext::Opaque
    } else {
        context
    }
}

/// The captures of the first `m` items of an array at `depth`, and the
/// budget left.
pub open spec fn captured_items(
    items: Seq<JsonTree>,
    key: Seq<char>,
    context: CaptureContext,
    depth: nat,
    budget: nat,
    m: nat,
) -> (Seq<CaptureShape>, nat)
    decreases 7 - depth, 0nat, m,
{
    if m == 0 || depth > 6 || m > items.len() {
        (Seq::empty(), budget)
    } else {
        let (prev, b) = captured_items(items, key, context, depth, budget, (m - 1) as nat);
        let (s, b2) = captured(items[m - 1], key, item_context(context, items[m - 1]), depth + 1, b);
        (prev.push(s), b2)
    }
}

/// Once the budget has run out, later fields add nothing.
proof fn lemma_fields_stop(
    entries: Seq<(String, JsonTree)>,
    context: CaptureContext,
    depth: nat,
    budget: nat,
    i: nat,
    j: nat,
)
    requires
        i <= j <= entries.len(),
        captured_fields(entries, context, depth, budget, i).1 == 0,
    ensures
        captured_fields(entries, context, depth, budget, j) == captured_fields(entries, context, depth, budget, i),
    decreases j - i,
{
    if j > i {
        lemma_fields_stop(entries, context, depth, budget, i, (j - 1) as nat);
    }
}

/// The captured fields of an object at `depth`, with the budget threaded.
fn capture_fields(entries: &Vec<(String, JsonTree)>, context: CaptureContext, depth: usize, budget: &mut usize) -> (r:
    Vec<(String, CapturedJson)>)
    requires
        depth <= 6,
    ensures
        (Seq::new(r@.len(), |x: int| (r@[x].0@, r@[x].1.shape())), *final(budget) as nat) == captured_fields(
            entries@,
            context,
            depth as nat,
            *old(budget) as nat,
            if entries@.len() < 48 { entries@.len() as nat } else { 48 },
        ),
    decreases 7 - depth, 0nat,
{
    let ghost b = *budget as nat;
    let n: usize = if entries.len() < 48 { entries.len() } else { 48 };
    let mut fields: Vec<(String, CapturedJson)> = Vec::new();
    let mut i: usize = 0;
    while i < n && *budget > 0
        invariant
            i <= n <= entries@.len(),
            n == (if entries@.len() < 48 { entries@.len() } else { 48 }),
            depth <= 6,
            fields@.len() == i,
            (Seq::new(fields@.len(), |x: int| (fields@[x].0@, fields@[x].1.shape())), *budget as nat)
                == captured_fields(entries@, context, depth as nat, b, i as nat),
        decreases n - i,
    {
        let ghost before = fields@;
        let (name, child) = field(context, entries[i].0.as_str());
        let c = capture(&entries[i].1, entries[i].0.as_str(), child, depth + 1, budget);
        fields.push((name, c));
        proof {
            let now = fields@;
            assert(Seq::new(now.len(), |x: int| (now[x].0@, now[x].1.shape())) =~= Seq::new(
                before.len(),
                |x: int| (before[x].0@, before[x].1.shape()),
            ).push((now[i as int].0@, now[i as int].1.shape())));
        }
        i = i + 1;
    }
    proof {
        if i < n {
            lemma_fields_stop(entries@, context, depth as nat, b, i as nat, n as nat);
        }
    }
    fields
}

fn capture(value: &JsonTree, key: &str, context: CaptureContext, depth: usize, budget: &mut usize) -> (r:
    CapturedJson)
    ensures
        (r.shape(), *final(budget) as nat) == captured(*value, key@, context, depth as nat, *old(budget) as nat),
    decreases 7 - depth, 1nat,
{
    if *budget == 0 || depth > CAPTURE_MAX_DEPTH {
        return CapturedJson::Omitted;
    }
    *budget = *budget - 1;
    let ghost b = *budget as nat;
    let k = crate::text::to_ascii_lowercase(key);
    if secret_key(k.as_str()) {
        return CapturedJson::Redacted;
    }
    match value {
        JsonTree::Object(entries) => {
            let fields = capture_fields(entries, context, depth, budget);
            let omitted_fields = if fields.len() < entries.len() {
                Some(entries.len() - fields.len())
            } else {
                None
            };
            let ghost fs = fields@;
            let out = CapturedJson::Object { fields, omitted_fields };
            proof {
                assert(out.shape()->Object_0 =~= Seq::new(fs.len(), |x: int| (fs[x].0@, fs[x].1.shape())));
            }
            out
        },
        JsonTree::Array(items) => {
            let m: usize = if items.len() < 4 { items.len() } else { 4 };
            let mut sample: Vec<CapturedJson> = Vec::new();
            let mut i: usize = 0;
            while i < m
                invariant
                    i <= m <= items@.len(),
                    depth <= 6,
                    k@ == crate::text::ascii_lowercase(key@),
                    sample@.len() == i,
                    (Seq::new(sample@.len(), |x: int| sample@[x].shape()), *budget as nat) == captured_items(
                        items@,
                        k@,
                        context,
                        depth as nat,
                        b,
                        i as nat,
                    ),
                decreases m - i,
            {
                let ghost before = sample@;
                let item_context = match (context, &items[i]) {
                    (CaptureContext::HeaderValue, JsonTree::Text(_)) => CaptureContext::HeaderValue,
                    (CaptureContext::HeaderValue, _) => CaptureContext::Opaque,
                    (c, _) => c,
                };
                let c = capture(&items[i], k.as_str(), item_context, depth + 1, budget);
                sample.push(c);
                proof {
                    let now = sample@;
                    assert(Seq::new(now.len(), |x: int| now[x].shape()) =~= Seq::new(
                        before.len(),
                        |x: int| before[x].shape(),
                    ).push(now[i as int].shape()));
                }
                i = i + 1;
            }
            let ghost ss = sample@;
            let out = CapturedJson::Array { length: items.len(), sample };
            proof {
                assert(out.shape()->Array_1 =~= Seq::new(ss.len(), |x: int| ss[x].shape()));
            }
            out
        },
        JsonTree::Text(t) => {
            let header_value = match context {
                CaptureContext::HeaderValue => true,
                _ => false,
            };
            let protocol = match context {
                CaptureContext::Protocol => true,
                CaptureContext::UpstreamEvent => true,
                _ => false,
            };
            if (header_value && safe_header(k.as_str())) || (protocol && protocol_value(k.as_str(), t.as_str())) {
                CapturedJson::Text(bounded(t.as_str(), 256))
            } else {
                CapturedJson::Fingerprint(body_fingerprint(t.as_str().as_bytes()))
            }
        },
        JsonTree::Number { as_u64, text } => {
            let protocol = match context {
                CaptureContext::Protocol => true,
                _ => false,
            };
            let status = match as_u64 {
                Some(s) => if 100 <= *s && *s <= 599 { Some(*s) } else { None },
                None => None,
            };
            match status {
                Some(s) => if protocol && crate::text::str_equal(k.as_str(), "status") {
                    return CapturedJson::Status(s);
                },
                None => {},
            }
            CapturedJson::Fingerprint(body_fingerprint(text.as_str().as_bytes()))
        },
        JsonTree::Bool(x) => {
            if *x {
                CapturedJson::Fingerprint(body_fingerprint("true".as_bytes()))
            } else {
                CapturedJson::Fingerprint(body_fingerprint("false".as_bytes()))
            }
        },
        JsonTree::Null => CapturedJson::Fingerprint(body_fingerprint("null".as_bytes())),
    }
}

/// Keeps only a bounded protocol skeleton of a JSON document; no part of it,
/// headers and metadata included, can declare itself trusted.
pub fn diagnostic_json(value: &JsonTree) -> (r: CapturedJson)
    ensures
        r.shape() == captured(*value, ""@, CaptureContext::Protocol, 0, CAPTURE_BUDGET as nat).0,
{
    let mut budget: usize = CAPTURE_BUDGET;
    capture(value, "", CaptureContext::Protocol, 0, &mut budget)
}

/// `i` is the first field of the object named `name`.
pub open spec fn first_named(entries: Seq<(String, JsonTree)>, name: Seq<char>, i: int) -> bool {
    &&& 0 <= i < entries.len()
    &&& entries[i].0@ == name
    &&& forall|j: int| 0 <= j < i ==> (#[trigger] entries[j]).0@ != name
}

fn find_field(entries: &Vec<(String, JsonTree)>, name: &str) -> (r: Option<usize>)
    ensures
        r matches Some(i) ==> first_named(entries@, name@, i as int),
        r is None ==> forall|j: int| 0 <= j < entries@.len() ==> (#[trigger] entries@[j]).0@ != name@,
{
    let mut i: usize = 0;
    while i < entries.len()
        invariant
            i <= entries@.len(),
            forall|j: int| 0 <= j < i ==> (#[trigger] entries@[j]).0@ != name@,
        decreases entries@.len() - i,
    {
        if crate::text::str_equal(entries[i].0.as_str(), name) {
            return Some(i);
        }
        i = i + 1;
    }
    None
}

/// Whether a captured event is the top level of an upstream metadata or
/// error frame: the `upstream.event` stage, an object whose `headers` is an
/// object and whose `type` is `response.metadata`,
/// `codex.response.metadata` or `error`.
pub open spec fn upstream_frame(v: JsonTree, stage: Seq<char>) -> bool {
    &&& stage == "upstream.event"@
    &&& v matches JsonTree::Object(entries)
    &&& exists|i: int| first_named(entries@, "headers"@, i) && entries@[i].1 is Object
    &&& exists|i: int| #[trigger] first_named(entries@, "type"@, i) && (entries@[i].1 matches JsonTree::Text(t) && (
        t@ == "response.metadata"@ || t@ == "codex.response.metadata"@ || t@ == "error"@))
}

/// The capture of a transport event at a trace stage. Only the top level of
/// an upstream metadata or error frame is a controlled header boundary.
pub fn diagnostic_event_json(value: &JsonTree, stage: &str) -> (r: CapturedJson)
    ensures
        r.shape() == captured(
            *value,
            ""@,
            if upstream_frame(*value, stage@) { CaptureContext::UpstreamEvent } else { CaptureContext::Protocol },
            0,
            CAPTURE_BUDGET as nat,
        ).0,
{
    let upstream = match value {
        JsonTree::Object(entries) => {
            if crate::text::str_equal(stage, "upstream.event") {
                let headers = match find_field(entries, "headers") {
                    Some(i) => match &entries[i].1 {
                        JsonTree::Object(_) => true,
                        _ => false,
                    },
                    None => false,
                };
                let frame = match find_field(entries, "type") {
                    Some(i) => match &entries[i].1 {
                        JsonTree::Text(t) => crate::text::str_equal(t.as_str(), "response.metadata")
                            || crate::text::str_equal(t.as_str(), "codex.response.metadata")
                            || crate::text::str_equal(t.as_str(), "error"),
                        _ => false,
                    },
                    None => false,
                };
                proof {
                    assert forall|i: int, j: int| first_named(entries@, "headers"@, i) && first_named(entries@, "headers"@, j)
                        implies i == j by {
                        if i < j {
                            assert(entries@[i].0@ != "headers"@);
                        } else if j < i {
                            assert(entries@[j].0@ != "headers"@);
                        }
                    }
                    assert forall|i: int, j: int| first_named(entries@, "type"@, i) && first_named(entries@, "type"@, j)
                        implies i == j by {
                        if i < j {
                            assert(entries@[i].0@ != "type"@);
                        } else if j < i {
                            assert(entries@[j].0@ != "type"@);
                        }
                    }
                }
                headers && frame
            } else {
                false
            }
        },
        _ => false,
    };
    let context = if upstream { CaptureContext::UpstreamEvent } else { CaptureContext::Protocol };
    let mut budget: usize = CAPTURE_BUDGET;
    capture(value, "", context, 0, &mut budget)
}

/// A value under a secret name never reaches a capture: it is redacted, or
/// omitted when the budget or depth has run out.
pub proof fn lemma_secret_values_redacted(
    v: JsonTree,
    key: Seq<char>,
    context: CaptureContext,
    depth: nat,
    budget: nat,
)
    requires
        secret_name(encode_utf8(crate::text::ascii_lowercase(key))),
    ensures
        captured(v, key, context, depth, budget).0 is Redacted || captured(v, key, context, depth, budget).0 is Omitted,
{
}

/// A capture never spends more than the budget it is given.
pub proof fn lemma_captured_within_budget(
    v: JsonTree,
    key: Seq<char>,
    context: CaptureContext,
    depth: nat,
    budget: nat,
)
    ensures
        captured(v, key, context, depth, budget).1 <= budget,
    decreases 7 - depth, 1nat, 0nat,
{
    if budget == 0 || depth > 6 {
    } else {
        let b = (budget - 1) as nat;
        let k = crate::text::ascii_lowercase(key);
        if !secret_name(encode_utf8(k)) {
            match v {
                JsonTree::Object(entries) => {
                    let n: nat = if entries.len() < 48 { entries.len() as nat } else { 48 };
                    lemma_fields_within_budget(entries@, context, depth, b, n);
                },
                JsonTree::Array(items) => {
                    let m: nat = if items.len() < 4 { items.len() as nat } else { 4 };
                    lemma_items_within_budget(items@, k, context, depth, b, m);
                },
                _ => {},
            }
        }
    }
}

proof fn lemma_fields_within_budget(
    entries: Seq<(String, JsonTree)>,
    context: CaptureContext,
    depth: nat,
    budget: nat,
    n: nat,
)
    ensures
        captured_fields(entries, context, depth, budget, n).1 <= budget,
    decreases 7 - depth, 0nat, n,
{
    if n == 0 || depth > 6 || n > entries.len() {
    } else {
        lemma_fields_within_budget(entries, context, depth, budget, (n - 1) as nat);
        let (prev, b) = captured_fields(entries, context, depth, budget, (n - 1) as nat);
        if b != 0 {
            let (name, child) = captured_field(context, entries[n - 1].0@);
            lemma_captured_within_budget(entries[n - 1].1, entries[n - 1].0@, child, depth + 1, b);
        }
    }
}

proof fn lemma_items_within_budget(
    items: Seq<JsonTree>,
    key: Seq<char>,
    context: CaptureContext,
    depth: nat,
    budget: nat,
    m: nat,
)
    ensures
        captured_items(items, key, context, depth, budget, m).1 <= budget,
    decreases 7 - depth, 0nat, m,
{
    if m == 0 || depth > 6 || m > items.len() {
    } else {
        lemma_items_within_budget(items, key, context, depth, budget, (m - 1) as nat);
        let (prev, b) = captured_items(items, key, context, depth, budget, (m - 1) as nat);
        lemma_captured_within_budget(items[m - 1], key, item_context(context, items[m - 1]), depth + 1, b);
    }
}

} // verus!
