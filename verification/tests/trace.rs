use gateway_core::diagnostics::capture::bounded;
use gateway_core::diagnostics::trace::{trace_data, TraceTimeline, HEAD_EVENTS, MAX_BUFFER_BYTES, MAX_DATA_BYTES, MAX_EVENTS};
use gateway_core::operation::json::json_value_from_slice;

fn push(t: &mut TraceTimeline, stage: &'static str, event_type: Option<&str>, coalesce: bool) {
    t.push(stage, 0, None, event_type.map(|e| e.as_bytes().to_vec()), b"{}".to_vec(), coalesce, 0);
}

fn kept_counts(t: &TraceTimeline) -> u64 {
    t.events().iter().map(|e| e.count).sum()
}

#[test]
fn deltas_of_one_type_coalesce() {
    let mut t = TraceTimeline::new();
    push(&mut t, "provider.event", Some("\"response.output_text.delta\""), true);
    push(&mut t, "provider.event", Some("\"response.output_text.delta\""), true);
    push(&mut t, "provider.event", Some("\"response.output_text.delta\""), true);
    assert_eq!(t.events().len(), 1);
    assert_eq!(t.events()[0].count, 3);
    assert_eq!(t.events()[0].sequence, 1);
    assert_eq!(t.events()[0].last_sequence, 3);
    push(&mut t, "provider.event", Some("\"response.reasoning_text.delta\""), true);
    assert_eq!(t.events().len(), 2);
    push(&mut t, "provider.event", Some("\"response.reasoning_text.delta\""), false);
    assert_eq!(t.events().len(), 3);
    assert_eq!(t.total_events(), 5);
    assert_eq!(kept_counts(&t), 5);
}

#[test]
fn coalescing_looks_at_the_last_event_of_the_same_attempt_and_exchange() {
    let mut t = TraceTimeline::new();
    t.push("provider.event", 0, Some(1), Some(b"\"d\"".to_vec()), b"{}".to_vec(), true, 0);
    t.push("provider.event", 1, Some(1), Some(b"\"d\"".to_vec()), b"{}".to_vec(), true, 0);
    t.push("provider.event", 0, Some(1), Some(b"\"d\"".to_vec()), b"{}".to_vec(), true, 5);
    assert_eq!(t.events().len(), 2);
    assert_eq!(t.events()[0].count, 2);
    assert_eq!(t.events()[0].last_elapsed_ms, 5);
    t.push("provider.event", 0, Some(2), Some(b"\"d\"".to_vec()), b"{}".to_vec(), true, 0);
    assert_eq!(t.events().len(), 3);
}

#[test]
fn eviction_keeps_the_head_and_counts_every_drop() {
    let mut t = TraceTimeline::new();
    for _ in 0..200 {
        push(&mut t, "upstream.read", None, false);
    }
    assert_eq!(t.events().len(), MAX_EVENTS);
    assert_eq!(t.total_events(), 200);
    assert_eq!(t.dropped_events(), 72);
    assert_eq!(t.dropped_events() + kept_counts(&t), t.total_events());
    let head: Vec<u64> = t.events()[..HEAD_EVENTS].iter().map(|e| e.sequence).collect();
    assert_eq!(head, vec![1, 2, 3, 4, 5, 6, 7, 8]);
    assert_eq!(t.events().last().unwrap().sequence, 200);
}

#[test]
fn eviction_prefers_routine_events_over_failures() {
    let mut t = TraceTimeline::new();
    for _ in 0..HEAD_EVENTS {
        push(&mut t, "upstream.read", None, false);
    }
    push(&mut t, "attempt.failed", None, false);
    for _ in 0..150 {
        push(&mut t, "upstream.read", None, false);
    }
    assert!(t.events().iter().any(|e| e.stage == "attempt.failed"));
    assert_eq!(t.events().len(), MAX_EVENTS);
}

#[test]
fn eviction_keeps_the_buffer_within_its_bytes() {
    let mut t = TraceTimeline::new();
    for _ in 0..40 {
        t.push("upstream.read", 0, None, None, vec![b' '; 4000], false, 0);
    }
    assert_eq!(t.events().len(), 15);
    assert!(t.buffered_bytes() <= MAX_BUFFER_BYTES);
    assert_eq!(t.buffered_bytes(), 15 * 4256);
    assert_eq!(t.dropped_events(), 25);
}

#[test]
fn bounded_text_replaces_controls_and_truncates_characters() {
    assert_eq!(bounded("a\u{1}b\u{9f}c", 10), "a b c");
    assert_eq!(bounded("héllo", 2), "hé");
    assert_eq!(bounded("", 5), "");
}

#[test]
fn small_data_is_kept_as_encoded_and_keyed_by_its_event_type() {
    let value = json_value_from_slice(br#"{"eventType":"response.created","n":1}"#).unwrap();
    let kept = trace_data(&value);
    assert_eq!(kept.data, br#"{"eventType":"response.created","n":1}"#.to_vec());
    assert_eq!(kept.event_type, Some(br#""response.created""#.to_vec()));
    let plain = json_value_from_slice(br#"{"n":1}"#).unwrap();
    assert_eq!(trace_data(&plain).event_type, None);
}

#[test]
fn oversized_data_is_replaced_by_its_summary() {
    let big = "x".repeat(MAX_DATA_BYTES);
    let text = format!(r#"{{"body":{{"bytes":3}},"eventType":"e","other":"{big}"}}"#);
    let value = json_value_from_slice(text.as_bytes()).unwrap();
    let kept = trace_data(&value);
    let summary: serde_json::Value = serde_json::from_slice(&kept.data).unwrap();
    assert_eq!(summary["truncated"], serde_json::Value::Bool(true));
    assert_eq!(summary["eventType"], serde_json::Value::String("e".to_string()));
    assert_eq!(summary["body"]["bytes"], serde_json::Value::from(3u64));
    assert_eq!(summary["jsonValid"], serde_json::Value::Null);
    assert_eq!(summary["summary"]["bytes"], serde_json::Value::from(text.len() as u64));
    assert_eq!(summary["summary"]["sha256"].as_str().unwrap().len(), 64);
    assert_eq!(summary.as_object().unwrap().len(), 5);
    assert_eq!(kept.event_type, Some(br#""e""#.to_vec()));
}
