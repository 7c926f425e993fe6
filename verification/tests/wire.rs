use gateway_core::operation::{
    Feature, GenerateRequest, ImageRequest, ImageRequestKind, Operation, OperationError, OperationKind,
    ProtocolPayload, ProviderHttpHeader, ProviderHttpMethod, ProviderHttpRequest, RawHttpPayload, RawJsonPayload,
};
use serde_json::Value;

type JsonObject = serde_json::Map<String, Value>;

fn object(text: &str) -> JsonObject {
    serde_json::from_str(text).unwrap()
}

fn generate(body: &str) -> Operation {
    let payload = ProtocolPayload::json_object("openai_responses".to_string(), object(body)).unwrap();
    Operation::Generate(GenerateRequest::from_protocol_payload(payload))
}

fn image() -> Operation {
    let payload = RawJsonPayload::new("openai_images".to_string(), b"{\"prompt\":\"x\"}".to_vec()).unwrap();
    Operation::GenerateImage(ImageRequest::from_raw_json(ImageRequestKind::Generation, payload))
}

fn field_of(result: Result<Operation, OperationError>) -> &'static str {
    match result {
        Err(OperationError::EmptyField { field }) => field,
        Ok(_) => panic!("the wire was replaced"),
    }
}

fn generate_body(op: &Operation) -> JsonObject {
    match op {
        Operation::Generate(g) => g.protocol_payload().body().clone(),
        _ => panic!("not a generate request"),
    }
}

#[test]
fn generate_requirements_follow_the_body() {
    let op = generate(
        r#"{"max_output_tokens":128,"tools":[{"type":"function"}],"reasoning":{"effort":"high"},
            "input":[{"role":"user","content":[{"type":"input_image","image_url":"x"}]}],
            "text":{"format":{"type":"json_schema"}},"previous_response_id":"resp_1"}"#,
    );
    let r = op.capability_requirements();
    assert_eq!(r.operation(), OperationKind::Generate);
    assert_eq!(r.requested_output_tokens(), Some(128));
    assert_eq!(
        r.features(),
        &[Feature::Tools, Feature::Vision, Feature::Reasoning, Feature::JsonSchema, Feature::NativeContinuation]
    );
    let plain = generate(r#"{"max_output_tokens":0,"tools":[],"reasoning":"high","input":"hi"}"#);
    let r = plain.capability_requirements();
    assert_eq!(r.requested_output_tokens(), None);
    assert!(r.features().is_empty());
    assert_eq!(image().capability_requirements().operation(), OperationKind::GenerateImage);
}

#[test]
fn replacing_a_generate_body_keeps_protocol_and_checks_json() {
    let op = generate(r#"{"model":"a"}"#);
    let replaced = op.clone().replace_protocol_wire(Some(b"{\"model\":\"b\"}".to_vec()), object(r#"{"k":1}"#)).ok().unwrap();
    assert_eq!(replaced.protocol(), "openai_responses");
    assert_eq!(replaced.kind(), OperationKind::Generate);
    assert_eq!(generate_body(&replaced), object(r#"{"model":"b"}"#));
    let context_only = op.clone().replace_protocol_wire(None, object("{}")).ok().unwrap();
    assert_eq!(generate_body(&context_only), object(r#"{"model":"a"}"#));
    assert_eq!(field_of(op.clone().replace_protocol_wire(Some(b"[1,2]".to_vec()), JsonObject::new())), "protocol_payload body");
    assert_eq!(field_of(op.replace_protocol_wire(Some(b"not json".to_vec()), JsonObject::new())), "protocol_payload body");
}

#[test]
fn translation_happens_once_and_records_source_requirements() {
    let op = generate(r#"{"tools":[{"type":"function"}]}"#);
    let translated = op.clone().translate_protocol_wire("anthropic_messages".to_string(), b"{}".to_vec()).ok().unwrap();
    assert_eq!(translated.protocol(), "anthropic_messages");
    assert_eq!(translated.capability_requirements().features(), &[Feature::Tools]);
    assert_eq!(
        field_of(translated.translate_protocol_wire("gemini".to_string(), b"{}".to_vec())),
        "direct protocol translation"
    );
    assert_eq!(
        field_of(op.clone().translate_protocol_wire("openai_responses".to_string(), b"{}".to_vec())),
        "direct protocol translation"
    );
    assert_eq!(field_of(op.clone().translate_protocol_wire(String::new(), b"{}".to_vec())), "translated protocol");
    assert_eq!(
        field_of(op.translate_protocol_wire("anthropic_messages".to_string(), b"[]".to_vec())),
        "protocol_payload body"
    );
}

#[test]
fn raw_payloads_keep_bytes_and_translate_once() {
    let replaced = image().replace_protocol_wire(Some(b"not json at all".to_vec()), JsonObject::new()).ok().unwrap();
    match &replaced {
        Operation::GenerateImage(request) => {
            assert_eq!(request.payload().body(), b"not json at all");
            assert_eq!(request.payload().protocol(), "openai_images");
            assert_eq!(request.kind(), ImageRequestKind::Generation);
        }
        _ => panic!("the kind changed"),
    }
    let translated = replaced.translate_protocol_wire("gemini_images".to_string(), b"{}".to_vec()).ok().unwrap();
    assert_eq!(translated.protocol(), "gemini_images");
    assert_eq!(
        field_of(translated.translate_protocol_wire("other".to_string(), b"{}".to_vec())),
        "direct protocol translation"
    );
}

#[test]
fn middleware_wire_replaces_or_translates() {
    let same = generate(r#"{"model":"a"}"#)
        .replace_middleware_wire("openai_responses".to_string(), b"{\"model\":\"c\"}".to_vec())
        .ok()
        .unwrap();
    assert_eq!(same.protocol(), "openai_responses");
    assert_eq!(generate_body(&same), object(r#"{"model":"c"}"#));
    let other = generate("{}").replace_middleware_wire("anthropic_messages".to_string(), b"{}".to_vec()).ok().unwrap();
    assert_eq!(other.protocol(), "anthropic_messages");
    assert_eq!(
        field_of(other.replace_middleware_wire("gemini".to_string(), b"{}".to_vec())),
        "direct protocol translation"
    );
}

#[test]
fn provider_http_wire_keeps_endpoint_and_checks_headers() {
    let payload = RawHttpPayload::new("provider_http".to_string(), b"old".to_vec()).unwrap();
    let request =
        ProviderHttpRequest::new("usage.v1".to_string(), ProviderHttpMethod::Post, None, Vec::new(), payload).ok().unwrap();
    let op = Operation::ProviderHttp(request);
    let headers = vec![ProviderHttpHeader::new("x-trace".to_string(), b"1".to_vec())];
    match op.clone().replace_provider_http_wire(Some(b"new".to_vec()), JsonObject::new(), headers).ok().unwrap() {
        Operation::ProviderHttp(r) => {
            assert_eq!(r.endpoint(), "usage.v1");
            assert_eq!(r.payload().body(), b"new");
            assert_eq!(r.headers().len(), 1);
        }
        _ => panic!("the kind changed"),
    }
    let bad = vec![ProviderHttpHeader::new("bad name".to_string(), Vec::new())];
    assert_eq!(field_of(op.replace_provider_http_wire(None, JsonObject::new(), bad)), "provider_http_request");
    assert_eq!(field_of(generate("{}").replace_provider_http_wire(None, JsonObject::new(), Vec::new())), "provider_http_request");
}

#[test]
fn image_generation_tool_and_middleware_requirements() {
    assert!(generate(r#"{"tools":[{"type":"function"},{"type":"image_generation"}]}"#).image_generation_requested());
    assert!(!generate(r#"{"tools":[{"type":"function"}]}"#).image_generation_requested());
    assert!(!generate(r#"{"tools":{"type":"image_generation"}}"#).image_generation_requested());
    assert!(image().image_generation_requested());

    let original = generate(r#"{"tools":[{"type":"function"}]}"#).capability_requirements();
    let inherited = gateway_core::operation::CapabilityRequirements::new(OperationKind::Generate).require(Feature::Vision);
    let op = generate("{}").with_middleware_requirements(original, inherited).ok().unwrap();
    assert_eq!(op.capability_requirements().features(), &[Feature::Vision]);
    assert_eq!(op.original_capability_requirements().features(), &[Feature::Tools]);
    let o = generate("{}").capability_requirements();
    let i = generate("{}").capability_requirements();
    assert_eq!(field_of(image().with_middleware_requirements(o, i)), "middleware capabilities");
}

#[test]
fn middleware_body_encodes_generate_and_keeps_raw_bytes() {
    let body = generate(r#"{"model":"a","n":1}"#).middleware_body().unwrap();
    assert_eq!(serde_json::from_slice::<JsonObject>(&body).unwrap(), object(r#"{"model":"a","n":1}"#));
    assert_eq!(image().middleware_body().unwrap(), b"{\"prompt\":\"x\"}".to_vec());
}

#[test]
fn prompt_cache_key_and_native_encoding() {
    let request = |body: &str| {
        GenerateRequest::from_protocol_payload(
            ProtocolPayload::json_object("openai_responses".to_string(), object(body)).unwrap(),
        )
    };
    assert_eq!(request(r#"{"prompt_cache_key":"abc"}"#).prompt_cache_key(), Some("abc"));
    assert_eq!(request(r#"{"prompt_cache_key":"  "}"#).prompt_cache_key(), None);
    assert_eq!(request(r#"{"prompt_cache_key":1}"#).prompt_cache_key(), None);
    let encoded = request(r#"{"tools":[{"type":"function"}]}"#)
        .with_native_encoded_body("provider_native".to_string(), object("{}"))
        .ok()
        .unwrap();
    assert_eq!(encoded.protocol_payload().protocol(), "provider_native");
    let op = Operation::Generate(encoded);
    assert_eq!(op.capability_requirements().features(), &[Feature::Tools]);
    assert!(matches!(
        request("{}").with_native_encoded_body(String::new(), object("{}")),
        Err(OperationError::EmptyField { field: "protocol_payload protocol" })
    ));
}
