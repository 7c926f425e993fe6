use gateway_core::diagnostics::capture::{
    body_fingerprint, diagnostic_event_json, diagnostic_event_type, diagnostic_headers, diagnostic_json,
    CapturedJson, DiagnosticValue, JsonTree,
};
use gateway_core::operation::{
    CapabilityRequirements, Feature, OperationError, OperationKind, ProtocolPayload, ProviderHttpHeader,
    ProviderHttpMethod, ProviderHttpRequest, RawHttpPayload, RawJsonPayload,
};

const ABC_SHA256: &str = "ba7816bf8f01cfea414140de5dae2223b00361a396177a9cb410ff61f20015ad";

fn payload() -> RawHttpPayload {
    RawHttpPayload::new("provider_http".to_string(), Vec::new()).ok().unwrap()
}

#[test]
fn capability_requirements_are_a_set_in_declared_order() {
    let c = CapabilityRequirements::new(OperationKind::Generate)
        .require(Feature::Reasoning)
        .require(Feature::Tools)
        .require(Feature::Reasoning)
        .with_requested_output_tokens(Some(256));
    assert_eq!(c.features(), &[Feature::Tools, Feature::Reasoning]);
    assert_eq!(c.operation(), OperationKind::Generate);
    assert_eq!(c.requested_output_tokens(), Some(256));
    assert_eq!(OperationKind::CountTokens.as_str(), "count_tokens");
    assert_eq!(ProviderHttpMethod::Post.as_str(), "POST");
}

#[test]
fn payload_protocol_names_are_checked() {
    let body = serde_json::Map::new();
    let p = ProtocolPayload::json_object("openai.responses".to_string(), body).ok().unwrap();
    assert_eq!(p.protocol(), "openai.responses");
    assert!(p.context().is_empty());
    assert!(matches!(
        ProtocolPayload::json_object(String::new(), serde_json::Map::new()),
        Err(OperationError::EmptyField { field: "protocol_payload protocol" })
    ));
    let raw = RawJsonPayload::new("images".to_string(), b"{}".to_vec()).ok().unwrap();
    assert_eq!(raw.body(), b"{}");
    assert!(RawJsonPayload::new("a\u{0}".to_string(), Vec::new()).is_err());
}

#[test]
fn provider_http_requests_stay_within_bounds() {
    let ok = ProviderHttpRequest::new(
        "usage.v1".to_string(),
        ProviderHttpMethod::Get,
        Some("a=1&b=2".to_string()),
        vec![ProviderHttpHeader::new("x-trace".to_string(), b"1".to_vec())],
        payload(),
    )
    .ok()
    .unwrap();
    assert_eq!(ok.endpoint(), "usage.v1");
    assert_eq!(ok.query(), Some("a=1&b=2"));
    assert_eq!(ok.headers().len(), 1);
    for endpoint in ["", ".", "..", "a/b", "a b"] {
        let r = ProviderHttpRequest::new(endpoint.to_string(), ProviderHttpMethod::Get, None, Vec::new(), payload());
        assert!(matches!(r, Err(OperationError::EmptyField { field: "provider_http_request" })), "{endpoint:?}");
    }
    let long = "a".repeat(65);
    assert!(ProviderHttpRequest::new(long, ProviderHttpMethod::Get, None, Vec::new(), payload()).is_err());
    let bad_query = ProviderHttpRequest::new(
        "x".to_string(),
        ProviderHttpMethod::Post,
        Some("a\r\nb".to_string()),
        Vec::new(),
        payload(),
    );
    assert!(bad_query.is_err());
    let bad_header = ProviderHttpRequest::new(
        "x".to_string(),
        ProviderHttpMethod::Post,
        None,
        vec![ProviderHttpHeader::new("x_trace".to_string(), Vec::new())],
        payload(),
    );
    assert!(bad_header.is_err());
    let headers = (0..65).map(|i| ProviderHttpHeader::new(format!("h{i}"), Vec::new())).collect();
    assert!(ProviderHttpRequest::new("x".to_string(), ProviderHttpMethod::Post, None, headers, payload()).is_err());
}

#[test]
fn body_fingerprints_are_length_and_sha256() {
    let f = body_fingerprint(b"abc");
    assert_eq!(f.bytes, 3);
    assert_eq!(f.sha256, ABC_SHA256);
}

#[test]
fn event_types_show_only_known_names() {
    match diagnostic_event_type("response.completed") {
        DiagnosticValue::Text(t) => assert_eq!(t, "response.completed"),
        _ => panic!("a known event type is kept"),
    }
    match diagnostic_event_type("abc") {
        DiagnosticValue::Fingerprint(f) => assert_eq!(f.sha256, ABC_SHA256),
        _ => panic!("an unknown event type is digested"),
    }
}

#[test]
fn header_captures_redact_keep_or_digest() {
    let headers = [
        ("Authorization", "Bearer sk-1"),
        ("X-Request-Id", "req-\u{7}1"),
        ("X-Request-Id", "req-2"),
        ("Set-Cookie", "a=b"),
        ("X-Custom", "abc"),
        ("x-usage-tokens", "abc"),
    ];
    let captured = diagnostic_headers(&headers);
    let keys: Vec<&str> = captured.entries().iter().map(|(k, _)| k.as_str()).collect();
    assert_eq!(keys, vec!["authorization", "set-cookie", "x-custom", "x-request-id", "x-usage-tokens"]);
    assert_eq!(captured.get("authorization"), Some(&vec![DiagnosticValue::Text("<redacted>".to_string())]));
    assert_eq!(captured.get("set-cookie"), Some(&vec![DiagnosticValue::Text("<redacted>".to_string())]));
    assert_eq!(
        captured.get("x-request-id"),
        Some(&vec![DiagnosticValue::Text("req- 1".to_string()), DiagnosticValue::Text("req-2".to_string())])
    );
    match &captured.get("x-custom").unwrap()[0] {
        DiagnosticValue::Fingerprint(f) => {
            assert_eq!(f.bytes, 3);
            assert_eq!(f.sha256, ABC_SHA256);
        },
        _ => panic!("an unknown header is digested"),
    }
    // A name ending in "tokens" is not a token secret.
    assert!(matches!(captured.get("x-usage-tokens").unwrap()[0], DiagnosticValue::Fingerprint(_)));
}

#[test]
fn header_captures_keep_at_most_64_headers() {
    let names: Vec<String> = (0..70).map(|i| format!("h{i:02}")).collect();
    let headers: Vec<(&str, &str)> = names.iter().map(|n| (n.as_str(), "v")).collect();
    assert_eq!(diagnostic_headers(&headers).len(), 64);
}

fn text(s: &str) -> JsonTree {
    JsonTree::Text(s.to_string())
}

fn object(fields: Vec<(&str, JsonTree)>) -> JsonTree {
    JsonTree::Object(fields.into_iter().map(|(k, v)| (k.to_string(), v)).collect())
}

#[test]
fn json_capture_keeps_the_protocol_skeleton() {
    let doc = object(vec![
        ("api_key", text("sk-secret")),
        ("model", text("abc")),
        ("status", JsonTree::Number { as_u64: Some(200), text: "200".to_string() }),
        ("type", text("response.completed")),
        ("zzz", JsonTree::Bool(true)),
    ]);
    let captured = diagnostic_json(&doc);
    let fields = match captured {
        CapturedJson::Object { fields, omitted_fields } => {
            assert_eq!(omitted_fields, None);
            fields
        },
        _ => panic!("an object stays an object"),
    };
    assert_eq!(fields.len(), 5);
    assert!(fields[0].0.starts_with("field_"));
    assert_eq!(fields[0].1, CapturedJson::Redacted);
    assert_eq!(fields[1].0, "model");
    assert!(matches!(&fields[1].1, CapturedJson::Fingerprint(f) if f.sha256 == ABC_SHA256));
    assert_eq!(fields[2], ("status".to_string(), CapturedJson::Status(200)));
    assert_eq!(fields[3], ("type".to_string(), CapturedJson::Text("response.completed".to_string())));
    assert!(fields[4].0.starts_with("field_"));
    assert!(matches!(fields[4].1, CapturedJson::Fingerprint(_)));
}

#[test]
fn json_capture_bounds_arrays_and_depth() {
    let items = (0..10).map(|i| JsonTree::Number { as_u64: Some(i), text: i.to_string() }).collect();
    let doc = object(vec![("output", JsonTree::Array(items))]);
    match diagnostic_json(&doc) {
        CapturedJson::Object { fields, .. } => match &fields[0].1 {
            CapturedJson::Array { length, sample } => {
                assert_eq!(*length, 10);
                assert_eq!(sample.len(), 4);
            },
            _ => panic!("an array is summarised"),
        },
        _ => panic!("an object stays an object"),
    }
    let mut deep = text("x");
    for _ in 0..10 {
        deep = object(vec![("content", deep)]);
    }
    let mut node = diagnostic_json(&deep);
    let mut depth = 0;
    loop {
        match node {
            CapturedJson::Object { mut fields, .. } => {
                node = fields.remove(0).1;
                depth += 1;
            },
            other => {
                assert_eq!(other, CapturedJson::Omitted);
                break;
            },
        }
    }
    assert_eq!(depth, 7);
}

#[test]
fn json_capture_spends_at_most_its_budget() {
    let items: Vec<(String, JsonTree)> = (0..40)
        .map(|i| (format!("k{i:02}"), JsonTree::Array((0..4).map(|_| JsonTree::Null).collect())))
        .collect();
    let captured = diagnostic_json(&JsonTree::Object(items));
    match captured {
        CapturedJson::Object { fields, omitted_fields } => {
            // 1 for the object, then 5 per field: 19 fields spend the budget.
            assert_eq!(fields.len(), 19);
            assert_eq!(omitted_fields, Some(21));
        },
        _ => panic!("an object stays an object"),
    }
}

#[test]
fn upstream_metadata_frames_keep_safe_headers() {
    let frame = object(vec![
        ("headers", object(vec![("x-request-id", text("r1")), ("x-other", text("abc"))])),
        ("type", text("response.metadata")),
    ]);
    let fields = match diagnostic_event_json(&frame, "upstream.event") {
        CapturedJson::Object { fields, .. } => fields,
        _ => panic!("an object stays an object"),
    };
    let headers = match &fields[0].1 {
        CapturedJson::Object { fields, .. } => fields,
        _ => panic!("headers stay an object"),
    };
    assert_eq!(headers[0], ("x-request-id".to_string(), CapturedJson::Text("r1".to_string())));
    assert!(headers[1].0.starts_with("field_"));
    // At any other stage the same frame is only protocol.
    let fields = match diagnostic_event_json(&frame, "client.event") {
        CapturedJson::Object { fields, .. } => fields,
        _ => panic!("an object stays an object"),
    };
    match &fields[0].1 {
        CapturedJson::Object { fields, .. } => {
            assert!(fields[0].0.starts_with("field_"));
        },
        _ => panic!("headers stay an object"),
    }
}
