use gateway_core::concurrency::QueueRejection;
use gateway_core::diagnostics::capture::{CapturedJson, DiagnosticValue};
use gateway_core::diagnostics::event_capture::{captured_event, diagnostic_json_of, CapturedEvent, MAX_INSPECTED_BYTES};
use gateway_core::engine::coordinator::{response_id_of, ResponseIdentity};
use gateway_core::engine::execution::{start_gate, NestedExecutionRejection};
use gateway_core::engine::{ModelRequestTimings, UpstreamSendState};
use gateway_core::error::{GatewayErrorKind, ProviderErrorKind};
use gateway_core::event::{GatewayEvent, ProviderResponseTimings, ResponseMeta};
use gateway_core::operation::json::json_value_from_slice;
use gateway_core::time::UnixTime;

#[test]
fn an_oversized_body_is_a_capture_gap() {
    let bytes = vec![b' '; MAX_INSPECTED_BYTES + 1];
    match captured_event("upstream.event", &bytes, Some("x")) {
        CapturedEvent::Gap { stage, body } => {
            assert_eq!(stage, "upstream.event");
            assert_eq!(body.bytes, MAX_INSPECTED_BYTES + 1);
            assert_eq!(body.sha256.len(), 64);
        },
        other => panic!("expected a gap, got {other:?}"),
    }
}

#[test]
fn the_type_member_names_the_event_and_a_delta_keeps_no_metadata() {
    let bytes = br#"{"type":"response.output_text.delta","delta":"secret"}"#;
    match captured_event("upstream.event", bytes, Some("ignored")) {
        CapturedEvent::Event { body, event_type, json_valid, metadata, delta } => {
            assert_eq!(body.bytes, bytes.len());
            assert_eq!(event_type, Some(DiagnosticValue::Text("response.output_text.delta".to_string())));
            assert!(json_valid);
            assert!(delta);
            assert_eq!(metadata, None);
        },
        other => panic!("expected an event, got {other:?}"),
    }
}

#[test]
fn a_complete_event_keeps_its_bounded_metadata() {
    let bytes = br#"{"type":"response.created","response":{"id":"resp_1","status":"in_progress"}}"#;
    match captured_event("upstream.event", bytes, None) {
        CapturedEvent::Event { event_type, json_valid, metadata, delta, .. } => {
            assert_eq!(event_type, Some(DiagnosticValue::Text("response.created".to_string())));
            assert!(json_valid);
            assert!(!delta);
            match metadata {
                Some(CapturedJson::Object { fields, omitted_fields }) => {
                    assert_eq!(fields.len(), 2);
                    assert_eq!(omitted_fields, None);
                },
                other => panic!("expected an object capture, got {other:?}"),
            }
        },
        other => panic!("expected an event, got {other:?}"),
    }
}

#[test]
fn invalid_json_falls_back_to_the_given_name() {
    match captured_event("upstream.event", b"not json", Some("custom.delta")) {
        CapturedEvent::Event { event_type, json_valid, metadata, delta, .. } => {
            assert!(!json_valid);
            assert!(delta);
            assert_eq!(metadata, None);
            match event_type {
                Some(DiagnosticValue::Fingerprint(f)) => assert_eq!(f.bytes, "custom.delta".len()),
                other => panic!("expected a digest, got {other:?}"),
            }
        },
        other => panic!("expected an event, got {other:?}"),
    }
    match captured_event("upstream.event", b"[1,2]", None) {
        CapturedEvent::Event { event_type, json_valid, metadata, delta, .. } => {
            assert!(json_valid);
            assert!(!delta);
            assert_eq!(event_type, None);
            assert!(matches!(metadata, Some(CapturedJson::Array { length: 2, .. })));
        },
        other => panic!("expected an event, got {other:?}"),
    }
}

#[test]
fn any_json_value_parses_and_is_captured() {
    assert!(json_value_from_slice(b"42").is_some());
    assert!(json_value_from_slice(b"{").is_none());
    let value = json_value_from_slice(br#"{"status":200,"type":"error"}"#).unwrap();
    match diagnostic_json_of(&value) {
        CapturedJson::Object { fields, .. } => {
            assert_eq!(fields[0].0, "status");
            assert_eq!(fields[0].1, CapturedJson::Status(200));
            assert_eq!(fields[1].1, CapturedJson::Text("error".to_string()));
        },
        other => panic!("expected an object capture, got {other:?}"),
    }
}

#[test]
fn refused_waits_and_nested_executions_map_to_gateway_errors() {
    let full = QueueRejection::Full.gateway_error();
    assert_eq!(full.kind(), GatewayErrorKind::ConcurrencyQueueFull);
    assert_eq!(full.safe_message(), "concurrency wait queue is full");
    let timeout = QueueRejection::Timeout.gateway_error();
    assert_eq!(timeout.kind(), GatewayErrorKind::ConcurrencyQueueTimeout);
    assert_eq!(timeout.safe_message(), "concurrency wait deadline elapsed");
    let busy = NestedExecutionRejection::ConcurrencyExhausted.gateway_error();
    assert_eq!(busy.kind(), GatewayErrorKind::ConcurrencyQueueFull);
    assert_eq!(busy.safe_message(), "nested model execution concurrency is exhausted");
    let spent = NestedExecutionRejection::BudgetExhausted.gateway_error();
    assert_eq!(spent.kind(), GatewayErrorKind::PolicyDenied);
    assert_eq!(spent.safe_message(), "nested model execution budget is exhausted");
    assert_eq!(GatewayErrorKind::ConcurrencyQueueFull.as_str(), "concurrency_queue_full");
    assert_eq!(GatewayErrorKind::ConcurrencyQueueTimeout.as_str(), "concurrency_queue_timeout");
}

#[test]
fn a_cancelled_or_late_request_does_not_start() {
    let at = |nanos: u128| UnixTime { nanos };
    let cancelled = start_gate(true, at(1), at(10)).unwrap_err();
    assert_eq!(cancelled.kind(), GatewayErrorKind::Cancelled);
    assert_eq!(cancelled.safe_message(), "parent request was cancelled");
    let late = start_gate(false, at(10), at(10)).unwrap_err();
    assert_eq!(late.kind(), GatewayErrorKind::Timeout);
    assert_eq!(late.safe_message(), "request deadline elapsed");
    assert!(start_gate(false, at(20), at(10)).is_err());
    assert!(start_gate(false, at(9), at(10)).is_ok());
}

#[test]
fn response_ids_must_stay_the_same() {
    let started = GatewayEvent::Started(ResponseMeta::new("resp_1".to_string(), "gpt-5".to_string()));
    assert_eq!(response_id_of(&started), Some("resp_1"));
    assert_eq!(response_id_of(&GatewayEvent::Usage(gateway_core::accounting::Usage::new())), None);
    let mut ids = ResponseIdentity::new();
    assert!(ids.observe("").is_ok());
    assert!(ids.observe("resp_1").is_ok());
    assert!(ids.observe("resp_1").is_ok());
    assert!(ids.observe("").is_ok());
    let err = ids.observe("resp_2").unwrap_err();
    assert_eq!(err.kind(), ProviderErrorKind::Protocol);
    assert_eq!(err.send_state(), UpstreamSendState::Sent);
}

#[test]
fn observed_timings_replace_only_what_they_report() {
    let mut timings = ModelRequestTimings { connect_ms: Some(5), latency_ms: Some(99), ..Default::default() };
    let observed = ProviderResponseTimings { headers_ms: Some(7), first_text_ms: Some(9), ..Default::default() };
    timings.merge_observed(&observed);
    assert_eq!(timings.connect_ms, Some(5));
    assert_eq!(timings.headers_ms, Some(7));
    assert_eq!(timings.first_text_ms, Some(9));
    assert_eq!(timings.latency_ms, Some(99));
    assert_eq!(timings.first_event_ms, None);
}
