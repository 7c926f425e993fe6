//! The safe summary of a captured transport body or event: its digest,
//! whether it is JSON, its event type and, unless it is an increment, the
//! bounded capture of its content.

use vstd::prelude::*;

use crate::diagnostics::capture::{
    body_fingerprint, captured, captured_fields, captured_items, diagnostic_event_json, diagnostic_event_type, diagnostic_json,
    first_named, hex_text, item_context, known_event_name, sha256_digest, upstream_frame, BodyFingerprint,
    CaptureContext, CapturedJson, DiagnosticValue, JsonTree, CAPTURE_BUDGET,
};
use crate::engine::provider::{bytes_end_with, ends_with_bytes};
use crate::operation::json::{
    json_as_array, json_as_bool, json_as_object, json_as_str, json_as_u64, json_entries, json_get,
    json_member_text, json_number_text, json_object_entries, json_value_from_bytes, json_value_from_slice,
    json_value_tree, tree_entries,
};
use vstd::string::{StrSliceExecFns, StringExecFns};
use vstd::utf8::encode_utf8;

verus! {

/// Two trees hold the same JSON: the same shape, texts and numbers, names
/// compared by their text.
pub open spec fn same_tree(a: JsonTree, b: JsonTree) -> bool
    decreases a, 1int,
{
    match (a, b) {
        (JsonTree::Null, JsonTree::Null) => true,
        (JsonTree::Bool(x), JsonTree::Bool(y)) => x == y,
        (JsonTree::Number { as_u64: x, text: s }, JsonTree::Number { as_u64: y, text: t }) => x == y && s@ == t@,
        (JsonTree::Text(s), JsonTree::Text(t)) => s@ == t@,
        (JsonTree::Array(xs), JsonTree::Array(ys)) => {
            proof {
                assert(decreases_to!(a => a->Array_0));
            }
            xs@.len() == ys@.len() && same_items(xs@, ys@, xs@.len() as int)
        },
        (JsonTree::Object(xs), JsonTree::Object(ys)) => {
            proof {
                assert(decreases_to!(a => a->Object_0));
            }
            xs@.len() == ys@.len() && same_members(xs@, ys@, xs@.len() as int)
        },
        _ => false,
    }
}

/// The first `n` items of two arrays hold the same JSON.
pub open spec fn same_items(xs: Seq<JsonTree>, ys: Seq<JsonTree>, n: int) -> bool
    decreases xs, n,
{
    if n <= 0 || n > xs.len() || n > ys.len() {
        n <= 0
    } else {
        same_items(xs, ys, n - 1) && same_tree(xs[n - 1], ys[n - 1])
    }
}

/// The first `n` members of two objects have the same names and hold the
/// same JSON.
pub open spec fn same_members(xs: Seq<(String, JsonTree)>, ys: Seq<(String, JsonTree)>, n: int) -> bool
    decreases xs, n,
{
    if n <= 0 || n > xs.len() || n > ys.len() {
        n <= 0
    } else {
        same_members(xs, ys, n - 1) && xs[n - 1].0@ == ys[n - 1].0@ && same_tree(xs[n - 1].1, ys[n - 1].1)
    }
}

proof fn lemma_same_items_at(xs: Seq<JsonTree>, ys: Seq<JsonTree>, n: int, i: int)
    requires
        same_items(xs, ys, n),
        0 <= i < n,
    ensures
        same_tree(xs[i], ys[i]),
    decreases n,
{
    if i < n - 1 {
        lemma_same_items_at(xs, ys, n - 1, i);
    }
}

proof fn lemma_same_members_at(xs: Seq<(String, JsonTree)>, ys: Seq<(String, JsonTree)>, n: int, i: int)
    requires
        same_members(xs, ys, n),
        0 <= i < n,
    ensures
        xs[i].0@ == ys[i].0@,
        same_tree(xs[i].1, ys[i].1),
    decreases n,
{
    if i < n - 1 {
        lemma_same_members_at(xs, ys, n - 1, i);
    }
}

/// Trees that hold the same JSON are captured alike.
proof fn lemma_captured_same(a: JsonTree, b: JsonTree, key: Seq<char>, context: CaptureContext, depth: nat, budget: nat)
    requires
        same_tree(a, b),
    ensures
        captured(a, key, context, depth, budget) == captured(b, key, context, depth, budget),
    decreases 7 - depth, 1nat, 0nat,
{
    if budget == 0 || depth > 6 {
    } else {
        let bb = (budget - 1) as nat;
        match (a, b) {
            (JsonTree::Object(xs), JsonTree::Object(ys)) => {
                let n: nat = if xs.len() < 48 { xs.len() as nat } else { 48 };
                lemma_fields_same(xs@, ys@, context, depth, bb, n);
            },
            (JsonTree::Array(xs), JsonTree::Array(ys)) => {
                let m: nat = if xs.len() < 4 { xs.len() as nat } else { 4 };
                lemma_items_same(xs@, ys@, crate::text::ascii_lowercase(key), context, depth, bb, m);
            },
            _ => {},
        }
    }
}

proof fn lemma_fields_same(
    xs: Seq<(String, JsonTree)>,
    ys: Seq<(String, JsonTree)>,
    context: CaptureContext,
    depth: nat,
    budget: nat,
    n: nat,
)
    requires
        xs.len() == ys.len(),
        same_members(xs, ys, xs.len() as int),
    ensures
        captured_fields(xs, context, depth, budget, n) == captured_fields(ys, context, depth, budget, n),
    decreases 7 - depth, 0nat, n,
{
    if n == 0 || depth > 6 || n > xs.len() {
    } else {
        lemma_fields_same(xs, ys, context, depth, budget, (n - 1) as nat);
        let (prev, b) = captured_fields(xs, context, depth, budget, (n - 1) as nat);
        lemma_same_members_at(xs, ys, xs.len() as int, n - 1);
        if b != 0 {
            let (name, child) = crate::diagnostics::capture::captured_field(context, xs[n - 1].0@);
            lemma_captured_same(xs[n - 1].1, ys[n - 1].1, xs[n - 1].0@, child, depth + 1, b);
        }
    }
}

proof fn lemma_items_same(
    xs: Seq<JsonTree>,
    ys: Seq<JsonTree>,
    key: Seq<char>,
    context: CaptureContext,
    depth: nat,
    budget: nat,
    m: nat,
)
    requires
        xs.len() == ys.len(),
        same_items(xs, ys, xs.len() as int),
    ensures
        captured_items(xs, key, context, depth, budget, m) == captured_items(ys, key, context, depth, budget, m),
    decreases 7 - depth, 0nat, m,
{
    if m == 0 || depth > 6 || m > xs.len() {
    } else {
        lemma_items_same(xs, ys, key, context, depth, budget, (m - 1) as nat);
        let (prev, b) = captured_items(xs, key, context, depth, budget, (m - 1) as nat);
        lemma_same_items_at(xs, ys, xs.len() as int, m - 1);
        assert(item_context(context, xs[m - 1]) == item_context(context, ys[m - 1]));
        lemma_captured_same(xs[m - 1], ys[m - 1], key, item_context(context, xs[m - 1]), depth + 1, b);
    }
}

proof fn lemma_same_items_from(xs: Seq<JsonTree>, ys: Seq<JsonTree>, n: int)
    requires
        0 <= n <= xs.len(),
        n <= ys.len(),
        forall|k: int| 0 <= k < n ==> same_tree(#[trigger] xs[k], ys[k]),
    ensures
        same_items(xs, ys, n),
    decreases n,
{
    if n > 0 {
        lemma_same_items_from(xs, ys, n - 1);
    }
}

proof fn lemma_same_members_from(xs: Seq<(String, JsonTree)>, ys: Seq<(String, JsonTree)>, n: int)
    requires
        0 <= n <= xs.len(),
        n <= ys.len(),
        forall|k: int| 0 <= k < n ==> (#[trigger] xs[k]).0@ == ys[k].0@ && same_tree(xs[k].1, ys[k].1),
    ensures
        same_members(xs, ys, n),
    decreases n,
{
    if n > 0 {
        lemma_same_members_from(xs, ys, n - 1);
    }
}

/// Trees that hold the same JSON are upstream frames alike.
proof fn lemma_frame_same(a: JsonTree, b: JsonTree, stage: Seq<char>)
    requires
        same_tree(a, b),
    ensures
        upstream_frame(a, stage) == upstream_frame(b, stage),
{
    match (a, b) {
        (JsonTree::Object(xs), JsonTree::Object(ys)) => {
            assert(xs@.len() == ys@.len());
            assert forall|i: int, name: Seq<char>| first_named(xs@, name, i) == first_named(ys@, name, i) by {
                if 0 <= i < xs@.len() {
                    lemma_same_members_at(xs@, ys@, xs@.len() as int, i);
                    assert forall|j: int| 0 <= j < i implies (#[trigger] xs@[j]).0@ == ys@[j].0@ by {
                        lemma_same_members_at(xs@, ys@, xs@.len() as int, j);
                    }
                    assert(xs@[i].0@ == ys@[i].0@);
                    if first_named(ys@, name, i) {
                        assert forall|j: int| 0 <= j < i implies (#[trigger] xs@[j]).0@ != name by {
                            assert(ys@[j].0@ != name);
                        }
                    }
                    if first_named(xs@, name, i) {
                        assert forall|j: int| 0 <= j < i implies (#[trigger] ys@[j]).0@ != name by {
                            assert(xs@[j].0@ != name);
                        }
                    }
                }
            }
            assert forall|i: int| 0 <= i < xs@.len() implies (xs@[i].1 is Object <==> ys@[i].1 is Object) && (
            xs@[i].1 is Text <==> ys@[i].1 is Text) && (xs@[i].1 matches JsonTree::Text(t) ==> (ys@[i].1 matches JsonTree::Text(u) && t@ == u@)) by {
                lemma_same_members_at(xs@, ys@, xs@.len() as int, i);
            }
        },
        _ => {},
    }
}

/// A tree of the JSON value, built from `serde_json`'s reading of it.
pub(crate) fn tree_of(value: &serde_json::Value) -> (r: JsonTree)
    ensures
        same_tree(r, json_value_tree(*value)),
    decreases json_value_tree(*value),
{
    let ghost t = json_value_tree(*value);
    if let Some(items) = json_as_array(value) {
        let ghost its = t->Array_0;
        let mut out: Vec<JsonTree> = Vec::new();
        let mut i: usize = 0;
        while i < items.len()
            invariant
                t == json_value_tree(*value),
                t == JsonTree::Array(its),
                items@.len() == its@.len(),
                forall|k: int| 0 <= k < items@.len() ==> json_value_tree(*#[trigger] items@[k]) == its@[k],
                i <= items@.len(),
                out@.len() == i,
                forall|k: int| 0 <= k < i ==> same_tree(#[trigger] out@[k], its@[k]),
            decreases items@.len() - i,
        {
            proof {
                assert(decreases_to!(t => t->Array_0));
                assert(decreases_to!(its => its@));
                assert(decreases_to!(its@ => its@[i as int]));
            }
            let c = tree_of(items[i]);
            out.push(c);
            i = i + 1;
        }
        proof {
            lemma_same_items_from(out@, its@, out@.len() as int);
        }
        return JsonTree::Array(out);
    }
    if let Some(object) = json_as_object(value) {
        let ghost ms = t->Object_0;
        let entries = json_entries(object);
        let mut out: Vec<(String, JsonTree)> = Vec::new();
        let mut i: usize = 0;
        while i < entries.len()
            invariant
                t == json_value_tree(*value),
                t == JsonTree::Object(ms),
                json_object_entries(*object) == tree_entries(ms@),
                entries@.len() == ms@.len(),
                forall|k: int|
                    0 <= k < entries@.len() ==> (#[trigger] entries@[k]).0@ == ms@[k].0@ && json_value_tree(
                        *entries@[k].1,
                    ) == ms@[k].1,
                i <= entries@.len(),
                out@.len() == i,
                forall|k: int| 0 <= k < i ==> (#[trigger] out@[k]).0@ == ms@[k].0@ && same_tree(out@[k].1, ms@[k].1),
            decreases entries@.len() - i,
        {
            proof {
                assert(tree_entries(ms@)[i as int] == (ms@[i as int].0@, ms@[i as int].1));
                assert(entries@[i as int].0@ == ms@[i as int].0@);
                assert(decreases_to!(t => t->Object_0));
                assert(decreases_to!(ms => ms@));
                assert(decreases_to!(ms@ => ms@[i as int]));
                assert(decreases_to!(ms@[i as int] => ms@[i as int].1));
            }
            let name = String::from_str(entries[i].0.as_str());
            let c = tree_of(entries[i].1);
            out.push((name, c));
            i = i + 1;
        }
        proof {
            lemma_same_members_from(out@, ms@, out@.len() as int);
        }
        return JsonTree::Object(out);
    }
    if let Some(text) = json_as_str(value) {
        return JsonTree::Text(String::from_str(text));
    }
    if let Some(text) = json_number_text(value) {
        return JsonTree::Number { as_u64: json_as_u64(value), text };
    }
    if let Some(b) = json_as_bool(value) {
        return JsonTree::Bool(b);
    }
    JsonTree::Null
}

/// The largest body whose JSON is inspected: 128 KiB.
pub const MAX_INSPECTED_BYTES: usize = 131072;

/// What a trace keeps of a captured transport body or event.
#[derive(Debug, PartialEq)]
pub enum CapturedEvent {
    /// The body was too large to inspect; recorded at the `capture.gap`
    /// stage with the reason `json_inspection_size_limit`.
    Gap { stage: String, body: BodyFingerprint },
    /// The summary recorded at the capture's own stage; `delta` events are
    /// coalesced with the previous one of the same type.
    Event {
        body: BodyFingerprint,
        event_type: Option<DiagnosticValue>,
        json_valid: bool,
        metadata: Option<CapturedJson>,
        delta: bool,
    },
}

/// `f` is the length and digest of `b`.
pub open spec fn fingerprint_of(f: BodyFingerprint, b: Seq<u8>) -> bool {
    f.bytes == b.len() && f.sha256@ == hex_text(sha256_digest(b))
}

/// How an event type shows: its name if known, else its digest.
pub open spec fn shown_event_type(d: DiagnosticValue, t: Seq<char>) -> bool {
    if known_event_name(t) {
        d matches DiagnosticValue::Text(x) && x@ == t
    } else {
        d matches DiagnosticValue::Fingerprint(f) && fingerprint_of(f, encode_utf8(t))
    }
}

/// The event type of a body: the text of its `type` member where it is an
/// object with a text `type`, else the given name.
pub open spec fn event_type_of(parsed: Option<JsonTree>, name: Option<Seq<char>>) -> Option<Seq<char>> {
    match parsed {
        Some(JsonTree::Object(members)) => match json_member_text(tree_entries(members@), "type"@) {
            Some(t) => Some(t),
            None => name,
        },
        _ => name,
    }
}

/// An event type names an increment: it ends in `.delta`.
pub open spec fn is_delta_type(t: Seq<char>) -> bool {
    bytes_end_with(encode_utf8(t), encode_utf8(".delta"@))
}

/// The capture context of an event's content at a trace stage.
pub open spec fn event_context(t: JsonTree, stage: Seq<char>) -> CaptureContext {
    if upstream_frame(t, stage) {
        CaptureContext::UpstreamEvent
    } else {
        CaptureContext::Protocol
    }
}

/// The view of an optional borrowed text.
pub open spec fn opt_view(name: Option<&str>) -> Option<Seq<char>> {
    match name {
        Some(n) => Some(n@),
        None => None,
    }
}

/// The summary of a captured body at `stage`, with the event name the
/// transport gave it, if any.
pub open spec fn event_summary_ok(r: CapturedEvent, stage: Seq<char>, bytes: Seq<u8>, name: Option<Seq<char>>) -> bool {
    let parsed = json_value_from_bytes(bytes);
    let ty = event_type_of(parsed, name);
    match r {
        CapturedEvent::Gap { stage: s, body } => bytes.len() > MAX_INSPECTED_BYTES && s@ == stage && fingerprint_of(body, bytes),
        CapturedEvent::Event { body, event_type, json_valid, metadata, delta } => {
            &&& bytes.len() <= MAX_INSPECTED_BYTES
            &&& fingerprint_of(body, bytes)
            &&& json_valid == (parsed is Some)
            &&& match ty {
                Some(t) => event_type matches Some(d) && shown_event_type(d, t),
                None => event_type is None,
            }
            &&& delta == (ty matches Some(t) && is_delta_type(t))
            &&& match parsed {
                Some(p) => if delta {
                    metadata is None
                } else {
                    metadata matches Some(m) && m.shape() == captured(p, ""@, event_context(p, stage), 0, CAPTURE_BUDGET as nat).0
                },
                None => metadata is None,
            }
        },
    }
}

/// Summarises a captured transport body or event at a trace stage: a gap
/// record for a body over 128 KiB, else its digest, whether it is JSON, its
/// event type (its `type` member, else `name`), whether that type is an
/// increment, and, unless it is, the bounded capture of its content.
pub fn captured_event(stage: &str, bytes: &[u8], name: Option<&str>) -> (r: CapturedEvent)
    ensures
        event_summary_ok(r, stage@, bytes@, opt_view(name)),
{
    let body = body_fingerprint(bytes);
    if bytes.len() > MAX_INSPECTED_BYTES {
        return CapturedEvent::Gap { stage: String::from_str(stage), body };
    }
    let parsed = json_value_from_slice(bytes);
    let ghost p = json_value_from_bytes(bytes@);
    let member: Option<String> = match &parsed {
        Some(v) => match json_as_object(v) {
            Some(object) => match json_get(object, "type") {
                Some(kind) => match json_as_str(kind) {
                    Some(text) => Some(String::from_str(text)),
                    None => None,
                },
                None => None,
            },
            None => None,
        },
        None => None,
    };
    let ty: Option<String> = match member {
        Some(t) => Some(t),
        None => match name {
            Some(n) => Some(String::from_str(n)),
            None => None,
        },
    };
    proof {
        let want = event_type_of(p, opt_view(name));
        if ty is Some {
            assert(want == Some(ty->0@));
        } else {
            assert(want is None);
        }
    }
    let delta = match &ty {
        Some(t) => ends_with_bytes(t.as_str().as_bytes(), ".delta".as_bytes()),
        None => false,
    };
    let event_type = match &ty {
        Some(t) => Some(diagnostic_event_type(t.as_str())),
        None => None,
    };
    let json_valid = match &parsed {
        Some(_) => true,
        None => false,
    };
    let metadata = match &parsed {
        Some(v) => if delta {
            None
        } else {
            let tree = tree_of(v);
            let m = diagnostic_event_json(&tree, stage);
            proof {
                let pt = json_value_tree(*v);
                lemma_frame_same(tree, pt, stage@);
                lemma_captured_same(tree, pt, ""@, event_context(pt, stage@), 0, CAPTURE_BUDGET as nat);
            }
            Some(m)
        },
        None => None,
    };
    CapturedEvent::Event { body, event_type, json_valid, metadata, delta }
}

/// The bounded protocol capture of a `serde_json` value.
pub fn diagnostic_json_of(value: &serde_json::Value) -> (r: CapturedJson)
    ensures
        r.shape() == captured(json_value_tree(*value), ""@, CaptureContext::Protocol, 0, CAPTURE_BUDGET as nat).0,
{
    let tree = tree_of(value);
    proof {
        lemma_captured_same(tree, json_value_tree(*value), ""@, CaptureContext::Protocol, 0, CAPTURE_BUDGET as nat);
    }
    diagnostic_json(&tree)
}

} // verus!
