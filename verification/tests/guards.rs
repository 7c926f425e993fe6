use gateway_core::accounting::Decimal;
use gateway_core::engine::execution::{
    authenticated_policy, constant_time_equal, request_classification, NestedExecutionGraph,
    NestedExecutionRejection, MAX_CONCURRENT_NESTED_EXECUTIONS, MAX_NESTED_EXECUTIONS,
};
use gateway_core::engine::probe::AccountProbeResult;
use gateway_core::event::{ContentItem, ContentKind, GatewayEvent, ReasoningDelta, TextDelta};
use gateway_core::identity::ProviderKind;
use gateway_core::policy::{ClientApiKeyId, ClientPolicy, PlaintextClientApiKey, RateLimits};

#[test]
fn canonical_decimal_text_parses_back() {
    for scaled in [0u128, 1, 15_000_000_000, 12_345_678_901_234, 99_999_999_999_999_999_999] {
        let d = Decimal::from_scaled(scaled).unwrap();
        let text = d.canonical();
        assert_eq!(Decimal::parse(&text), Ok(d));
    }
    assert_eq!(Decimal::from_scaled(15_000_000_000).unwrap().canonical(), "1.5000000000");
    assert_eq!(Decimal::parse("1.5").unwrap().scaled(), 15_000_000_000);
}

#[test]
fn constant_time_equality_compares_whole_texts() {
    assert!(constant_time_equal("sk-abc", "sk-abc"));
    assert!(!constant_time_equal("sk-abc", "sk-abd"));
    assert!(!constant_time_equal("sk-abc", "sk-ab"));
    assert!(constant_time_equal("", ""));
    assert!(!constant_time_equal("é", "e\u{301}"));
}

fn policy(id: &str, key: &str, enabled: bool) -> ClientPolicy {
    ClientPolicy::new(
        ClientApiKeyId::new(id.to_string()).unwrap(),
        PlaintextClientApiKey::new(key.to_string()).unwrap(),
        ProviderKind::new("openai".to_string()),
        enabled,
        RateLimits::default(),
    )
}

#[test]
fn presented_key_finds_first_enabled_policy() {
    let policies = vec![policy("key_1", "sk-one", false), policy("key_2", "sk-one", true), policy("key_3", "sk-one", true)];
    assert_eq!(authenticated_policy(&policies, "sk-one").unwrap().key_id().as_str(), "key_2");
    assert!(authenticated_policy(&policies, "sk-two").is_none());
    assert!(authenticated_policy(&policies[..1], "sk-one").is_none());
}

#[test]
fn nested_executions_respect_both_limits() {
    let mut graph = NestedExecutionGraph::new();
    let mut permits = Vec::new();
    for _ in 0..MAX_CONCURRENT_NESTED_EXECUTIONS {
        permits.push(graph.acquire().ok().unwrap());
    }
    assert!(matches!(graph.acquire(), Err(NestedExecutionRejection::ConcurrencyExhausted)));
    assert_eq!(graph.active(), 4);
    for _ in MAX_CONCURRENT_NESTED_EXECUTIONS..MAX_NESTED_EXECUTIONS {
        assert!(graph.release(permits.pop().unwrap()));
        permits.push(graph.acquire().ok().unwrap());
    }
    assert_eq!(graph.total_started(), MAX_NESTED_EXECUTIONS);
    assert_eq!(graph.active(), 4);
    assert!(graph.release(permits.pop().unwrap()));
    assert!(matches!(graph.acquire(), Err(NestedExecutionRejection::BudgetExhausted)));
    assert_eq!(graph.active(), 3);
    while let Some(permit) = permits.pop() {
        assert!(graph.release(permit));
    }
    assert_eq!(graph.active(), 0);
    assert_eq!(graph.total_started(), MAX_NESTED_EXECUTIONS);
}

#[test]
fn a_foreign_permit_changes_nothing() {
    let mut mine = NestedExecutionGraph::new();
    let mut other = NestedExecutionGraph::new();
    let _held = mine.acquire().ok().unwrap();
    let _first = other.acquire().ok().unwrap();
    let second = other.acquire().ok().unwrap();
    assert!(!mine.release(second));
    assert_eq!(mine.active(), 1);
}

#[test]
fn plugin_requests_are_classified_by_their_plugin() {
    let observed = (Some("subagent".to_string()), Some("review".to_string()));
    assert_eq!(
        request_classification(Some("plugin_a"), Some("plugin_b"), observed.0.clone(), observed.1.clone()),
        (Some("plugin_child_model".to_string()), Some("plugin_a".to_string()))
    );
    assert_eq!(
        request_classification(None, Some("plugin_b"), observed.0.clone(), observed.1.clone()),
        (Some("plugin_bound_model".to_string()), Some("plugin_b".to_string()))
    );
    assert_eq!(request_classification(None, None, observed.0.clone(), observed.1.clone()), observed);
    assert_eq!(request_classification(None, None, None, None), (None, None));
}

#[test]
fn a_probe_keeps_only_text_increments_in_order() {
    let events = vec![
        GatewayEvent::ContentAdded(ContentItem::new(0, ContentKind::Text)),
        GatewayEvent::TextDelta(TextDelta { content_index: 0, text: "he".to_string() }),
        GatewayEvent::ReasoningDelta(ReasoningDelta { content_index: 1, text: "think".to_string() }),
        GatewayEvent::TextDelta(TextDelta { content_index: 0, text: "llo".to_string() }),
    ];
    let result = AccountProbeResult::from_events(&events);
    assert_eq!(result.text, vec!["he".to_string(), "llo".to_string()]);
    assert!(AccountProbeResult::from_events(&[]).text.is_empty());
}
