use gateway_core::accounting::Usage;
use gateway_core::engine::{
    duration_ms, escalate_send_state, new_request_id, observe_event_timing, ExecutionOutcome, ModelRequestId,
    ModelRequestTimings, UpstreamSendState,
};
use gateway_core::event::{
    ContentItem, ContentKind, EventSequenceError, EventSequenceValidator, FinishReason, GatewayEvent,
    ProviderResponseMetadata, ReasoningDelta, ResponseMeta, TextDelta, ToolCallDelta, UpstreamHttpVersion,
    WebSocketPoolKind,
};
use gateway_core::text::IdentifierError;
use gateway_core::time::TimeSpan;

fn started() -> GatewayEvent {
    GatewayEvent::Started(ResponseMeta::new("resp_1".to_string(), "gpt-5".to_string()))
}

fn completed() -> GatewayEvent {
    GatewayEvent::Completed(ResponseMeta::new("resp_1".to_string(), "gpt-5".to_string()))
}

fn text(index: u32, t: &str) -> GatewayEvent {
    GatewayEvent::TextDelta(TextDelta { content_index: index, text: t.to_string() })
}

#[test]
fn a_framed_stream_is_accepted() {
    let mut v = EventSequenceValidator::new();
    assert_eq!(v.observe(&started()), Ok(()));
    assert_eq!(v.observe(&GatewayEvent::ContentAdded(ContentItem::new(0, ContentKind::Text))), Ok(()));
    assert_eq!(v.observe(&text(0, "hi")), Ok(()));
    assert_eq!(v.observe(&GatewayEvent::Usage(Usage::new())), Ok(()));
    assert_eq!(v.observe(&completed()), Ok(()));
    assert_eq!(v.finish(), Ok(()));
}

#[test]
fn events_before_started_are_refused() {
    let mut v = EventSequenceValidator::new();
    assert_eq!(v.observe(&text(0, "x")), Err(EventSequenceError::MissingStarted));
    assert_eq!(v.finish(), Err(EventSequenceError::MissingStarted));
}

#[test]
fn started_twice_is_refused() {
    let mut v = EventSequenceValidator::default();
    assert_eq!(v.observe(&started()), Ok(()));
    assert_eq!(v.observe(&started()), Err(EventSequenceError::DuplicateStarted));
    assert_eq!(v.finish(), Err(EventSequenceError::MissingCompleted));
}

#[test]
fn deltas_need_a_declared_item_of_their_kind() {
    let mut v = EventSequenceValidator::new();
    v.observe(&started()).unwrap();
    v.observe(&GatewayEvent::ContentAdded(ContentItem::new(1, ContentKind::Reasoning))).unwrap();
    assert_eq!(v.observe(&text(1, "x")), Err(EventSequenceError::InvalidDeltaTarget { index: 1 }));
    assert_eq!(
        v.observe(&GatewayEvent::ReasoningDelta(ReasoningDelta { content_index: 1, text: "r".to_string() })),
        Ok(())
    );
    let tool = GatewayEvent::ToolCallDelta(ToolCallDelta {
        content_index: 2,
        call_id: "call_1".to_string(),
        name: None,
        arguments_delta: "{}".to_string(),
    });
    assert_eq!(v.observe(&tool), Err(EventSequenceError::InvalidDeltaTarget { index: 2 }));
    assert_eq!(
        v.observe(&GatewayEvent::ContentAdded(ContentItem::new(1, ContentKind::Text))),
        Err(EventSequenceError::DuplicateContent { index: 1 })
    );
}

#[test]
fn refusals_other_than_repeated_content_change_nothing() {
    let mut v = EventSequenceValidator::new();
    assert_eq!(v.observe(&completed()), Err(EventSequenceError::MissingStarted));
    assert_eq!(v.observe(&started()), Ok(()));
    assert_eq!(v.observe(&started()), Err(EventSequenceError::DuplicateStarted));
    assert_eq!(v.observe(&text(3, "x")), Err(EventSequenceError::InvalidDeltaTarget { index: 3 }));
    assert_eq!(v.observe(&GatewayEvent::ContentAdded(ContentItem::new(3, ContentKind::Text))), Ok(()));
    assert_eq!(v.observe(&text(3, "x")), Ok(()));
    assert_eq!(v.finish(), Err(EventSequenceError::MissingCompleted));
}

#[test]
fn nothing_follows_completed() {
    let mut v = EventSequenceValidator::new();
    v.observe(&started()).unwrap();
    v.observe(&completed()).unwrap();
    assert_eq!(v.observe(&GatewayEvent::Usage(Usage::new())), Err(EventSequenceError::EventAfterCompleted));
    assert_eq!(v.finish(), Ok(()));
}

#[test]
fn response_meta_keeps_its_facts() {
    let meta = ResponseMeta::new("resp_9".to_string(), "m".to_string()).with_finish_reason(FinishReason::Length);
    assert_eq!(meta.response_id(), "resp_9");
    assert_eq!(meta.model(), Some("m"));
    assert_eq!(meta.finish_reason(), Some(FinishReason::Length));
    let endpoint = ResponseMeta::for_provider_endpoint("resp_x".to_string());
    assert_eq!(endpoint.model(), None);
    let item = ContentItem::new(3, ContentKind::Image);
    assert_eq!(item.index(), 3);
    assert_eq!(item.kind(), ContentKind::Image);
}

#[test]
fn http_versions_parse_loosely_and_name_strictly() {
    assert_eq!(UpstreamHttpVersion::parse(" http/1.1 "), Some(UpstreamHttpVersion::Http11));
    assert_eq!(UpstreamHttpVersion::parse("HTTP/2.0"), Some(UpstreamHttpVersion::Http2));
    assert_eq!(UpstreamHttpVersion::parse("3"), Some(UpstreamHttpVersion::Http3));
    assert_eq!(UpstreamHttpVersion::parse("HTTP/1"), Some(UpstreamHttpVersion::Http10));
    assert_eq!(UpstreamHttpVersion::parse("0.9"), Some(UpstreamHttpVersion::Http09));
    assert_eq!(UpstreamHttpVersion::parse("unknown"), None);
    assert_eq!(UpstreamHttpVersion::parse("HTTP/4"), None);
    assert_eq!(UpstreamHttpVersion::Http11.as_str(), "HTTP/1.1");
    assert_eq!(UpstreamHttpVersion::Unknown.as_str(), "unknown");
    assert_eq!(WebSocketPoolKind::Reuse.as_str(), "reuse");
}

#[test]
fn provider_metadata_must_be_a_bounded_json_object() {
    let m = ProviderResponseMetadata::new("{\"a\":1}".to_string()).unwrap();
    assert_eq!(m.as_json(), "{\"a\":1}");
    assert!(ProviderResponseMetadata::new("[1]".to_string()).is_none());
    assert!(ProviderResponseMetadata::new("{".to_string()).is_none());
    let big = format!("{{\"a\":\"{}\"}}", "x".repeat(40000));
    assert!(ProviderResponseMetadata::new(big).is_none());
}

#[test]
fn send_state_escalates_and_never_falls_back() {
    let (not_sent, sent, ambiguous) = (UpstreamSendState::NotSent, UpstreamSendState::Sent, UpstreamSendState::Ambiguous);
    assert_eq!(escalate_send_state(not_sent, not_sent), not_sent);
    assert_eq!(escalate_send_state(not_sent, ambiguous), ambiguous);
    assert_eq!(escalate_send_state(sent, ambiguous), sent);
    assert_eq!(escalate_send_state(ambiguous, sent), sent);
    assert_eq!(escalate_send_state(escalate_send_state(sent, not_sent), not_sent), sent);
    assert_eq!(ambiguous.as_str(), "ambiguous");
    assert_eq!(not_sent.as_str(), "not_sent");
}

#[test]
fn execution_outcome_names() {
    assert_eq!(ExecutionOutcome::Running.as_str(), "running");
    assert_eq!(ExecutionOutcome::Incomplete.as_str(), "incomplete");
}

#[test]
fn first_timings_are_recorded_once() {
    let mut t = ModelRequestTimings::default();
    observe_event_timing(&mut t, &started(), 5);
    assert_eq!(t.first_event_ms, Some(5));
    assert_eq!(t.first_token_ms, None);
    observe_event_timing(
        &mut t,
        &GatewayEvent::ReasoningDelta(ReasoningDelta { content_index: 0, text: "r".to_string() }),
        8,
    );
    observe_event_timing(&mut t, &text(1, "x"), 12);
    observe_event_timing(&mut t, &text(1, "y"), 20);
    assert_eq!(t.first_event_ms, Some(5));
    assert_eq!(t.first_reasoning_ms, Some(8));
    assert_eq!(t.first_token_ms, Some(8));
    assert_eq!(t.first_text_ms, Some(12));
}

#[test]
fn an_empty_tool_call_increment_is_no_token() {
    let mut t = ModelRequestTimings::default();
    let empty = GatewayEvent::ToolCallDelta(ToolCallDelta {
        content_index: 0,
        call_id: "c".to_string(),
        name: Some("f".to_string()),
        arguments_delta: String::new(),
    });
    observe_event_timing(&mut t, &empty, 3);
    assert_eq!(t.first_token_ms, None);
    let args = GatewayEvent::ToolCallDelta(ToolCallDelta {
        content_index: 0,
        call_id: "c".to_string(),
        name: None,
        arguments_delta: "{".to_string(),
    });
    observe_event_timing(&mut t, &args, 4);
    assert_eq!(t.first_token_ms, Some(4));
}

#[test]
fn durations_saturate_in_milliseconds() {
    assert_eq!(duration_ms(TimeSpan::from_millis(1234)), 1234);
    assert_eq!(duration_ms(TimeSpan { nanos: 1_999_999 }), 1);
    assert_eq!(duration_ms(TimeSpan { nanos: u128::MAX }), u64::MAX);
}

#[test]
fn request_ids_need_the_prefix() {
    assert_eq!(ModelRequestId::new("req_1".to_string()).unwrap().as_str(), "req_1");
    assert_eq!(ModelRequestId::new("r1".to_string()), Err(IdentifierError::MissingPrefix));
}

#[test]
fn allocated_request_ids_are_fresh_uuids() {
    let a = new_request_id().ok().unwrap();
    let b = new_request_id().ok().unwrap();
    assert_eq!(a.as_str().len(), 36);
    assert!(a.as_str().starts_with("req_"));
    assert!(a.as_str()[4..].bytes().all(|c| c.is_ascii_hexdigit() && !c.is_ascii_uppercase()));
    assert_ne!(a.as_str(), b.as_str());
}
