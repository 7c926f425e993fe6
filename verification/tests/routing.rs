use gateway_core::credential::ids::ProviderAccountId;
use gateway_core::credential::selection::AccountScope;
use gateway_core::engine::continuation::{
    ContinuationBinding, NativeContinuationPin, NativeContinuationStoreErrorKind, PreviousResponseId,
};
use gateway_core::engine::execution::{
    apply_model_route, bind_continuation, gateway_error_from_engine, required_route_provider,
};
use gateway_core::engine::{EngineError, UpstreamSendState};
use gateway_core::engine::policy::ModelRouteDecision;
use gateway_core::error::{GatewayError, GatewayErrorKind, ProviderError, ProviderErrorKind};
use gateway_core::identity::{ProviderKind, PublicModelId};
use gateway_core::policy::ClientApiKeyId;

fn kind(name: &str) -> ProviderKind {
    ProviderKind::new(name.to_string())
}

fn model(name: &str) -> PublicModelId {
    PublicModelId::new(name.to_string())
}

fn scope_providers() -> Vec<ProviderKind> {
    vec![kind("openai"), kind("anthropic")]
}

#[test]
fn nested_provider_must_lie_in_scope() {
    assert!(matches!(required_route_provider(None, &scope_providers()), Ok(None)));
    let openai = kind("openai");
    let kept = required_route_provider(Some(&openai), &scope_providers()).ok().flatten().unwrap();
    assert_eq!(kept.as_str(), "openai");
    let gemini = kind("gemini");
    match required_route_provider(Some(&gemini), &scope_providers()) {
        Err(error) => {
            assert_eq!(error.kind(), GatewayErrorKind::PolicyDenied);
            assert_eq!(error.safe_message(), "nested provider is outside the frozen account scope");
        }
        Ok(_) => panic!("a provider outside the scope was accepted"),
    }
}

#[test]
fn routing_policy_keeps_reroutes_or_denies() {
    let requested = model("model-large");
    let target = apply_model_route(&ModelRouteDecision::Unhandled, &requested, None, &scope_providers()).ok().unwrap();
    assert_eq!(target.model.as_str(), "model-large");
    assert!(target.required_provider.is_none());

    let route = ModelRouteDecision::Route { provider: Some(kind("anthropic")), model: Some(model("model-routed")) };
    let target = apply_model_route(&route, &requested, None, &scope_providers()).ok().unwrap();
    assert_eq!(target.model.as_str(), "model-routed");
    assert_eq!(target.required_provider.unwrap().as_str(), "anthropic");

    let model_only = ModelRouteDecision::Route { provider: None, model: Some(model("model-small")) };
    let openai = kind("openai");
    let target = apply_model_route(&model_only, &requested, Some(&openai), &scope_providers()).ok().unwrap();
    assert_eq!(target.model.as_str(), "model-small");
    assert_eq!(target.required_provider.unwrap().as_str(), "openai");

    let rejected = apply_model_route(&ModelRouteDecision::Reject, &requested, None, &scope_providers());
    let error = rejected.err().unwrap();
    assert_eq!(error.kind(), GatewayErrorKind::PolicyDenied);
    assert_eq!(error.safe_message(), "model routing policy rejected the request");

    let empty = ModelRouteDecision::Route { provider: None, model: None };
    let error = apply_model_route(&empty, &requested, None, &scope_providers()).err().unwrap();
    assert_eq!(error.kind(), GatewayErrorKind::Internal);
    assert_eq!(error.safe_message(), "model routing policy returned an empty target");

    let elsewhere = ModelRouteDecision::Route { provider: Some(kind("gemini")), model: None };
    let error = apply_model_route(&elsewhere, &requested, None, &scope_providers()).err().unwrap();
    assert_eq!(error.safe_message(), "model routing policy exceeded the frozen provider scope");

    let other = ModelRouteDecision::Route { provider: Some(kind("anthropic")), model: None };
    let error = apply_model_route(&other, &requested, Some(&openai), &scope_providers()).err().unwrap();
    assert_eq!(error.kind(), GatewayErrorKind::PolicyDenied);
}

fn client() -> ClientApiKeyId {
    ClientApiKeyId::new("key_1".to_string()).unwrap()
}

fn account(name: &str) -> ProviderAccountId {
    ProviderAccountId::new(name.to_string()).unwrap()
}

fn pin(client: &str, provider: &str, account_name: &str) -> NativeContinuationPin {
    NativeContinuationPin::new(
        PreviousResponseId::new("resp_1".to_string()),
        PreviousResponseId::new("resp_up_1".to_string()),
        ClientApiKeyId::new(client.to_string()).unwrap(),
        kind(provider),
        account(account_name),
    )
}

fn scope() -> AccountScope {
    AccountScope { allowed: vec![account("acct_a")] }
}

fn denied_message(
    lookup: Result<Option<NativeContinuationPin>, NativeContinuationStoreErrorKind>,
) -> (GatewayErrorKind, &'static str) {
    let previous = PreviousResponseId::new("resp_1".to_string());
    match bind_continuation(lookup, &previous, &client(), &scope(), &scope_providers()) {
        Err(error) => (error.kind(), error.safe_message()),
        Ok(_) => panic!("the continuation was bound"),
    }
}

#[test]
fn continuation_binds_external_handles_and_checked_pins() {
    let previous = PreviousResponseId::new("resp_1".to_string());
    for lookup in [Ok(None), Err(NativeContinuationStoreErrorKind::Unavailable)] {
        match bind_continuation(lookup, &previous, &client(), &scope(), &scope_providers()) {
            Ok(ContinuationBinding::External(id)) => assert_eq!(id.as_str(), "resp_1"),
            _ => panic!("expected an external continuation"),
        }
    }
    match bind_continuation(Ok(Some(pin("key_1", "openai", "acct_a"))), &previous, &client(), &scope(), &scope_providers())
    {
        Ok(ContinuationBinding::Pinned(bound)) => assert_eq!(bound.account().as_str(), "acct_a"),
        _ => panic!("expected a pinned continuation"),
    }
}

#[test]
fn continuation_rejects_foreign_out_of_scope_and_unplanned_pins() {
    assert_eq!(
        denied_message(Err(NativeContinuationStoreErrorKind::OwnershipMismatch)),
        (GatewayErrorKind::PolicyDenied, "continuation does not belong to this client API key")
    );
    assert_eq!(
        denied_message(Err(NativeContinuationStoreErrorKind::InvalidData)),
        (GatewayErrorKind::Internal, "continuation state is invalid")
    );
    assert_eq!(
        denied_message(Ok(Some(pin("key_2", "openai", "acct_a")))),
        (GatewayErrorKind::PolicyDenied, "continuation does not belong to this client API key")
    );
    assert_eq!(
        denied_message(Ok(Some(pin("key_1", "openai", "acct_b")))),
        (GatewayErrorKind::PolicyDenied, "continuation account is outside the client account scope")
    );
    assert_eq!(
        denied_message(Ok(Some(pin("key_1", "gemini", "acct_a")))),
        (GatewayErrorKind::NoAvailableProvider, "continuation provider is not available")
    );
}

#[test]
fn engine_errors_reach_clients_as_gateway_errors() {
    let cases: Vec<(EngineError, GatewayErrorKind, &str)> = vec![
        (EngineError::Cancelled, GatewayErrorKind::Cancelled, "request was cancelled"),
        (EngineError::Deadline, GatewayErrorKind::Timeout, "request deadline elapsed"),
        (EngineError::EmptyRoutingPlan, GatewayErrorKind::NoAvailableProvider, "no provider is available"),
        (
            EngineError::ProviderNotRegistered { provider: "openai".to_string() },
            GatewayErrorKind::NoAvailableProvider,
            "no provider is available",
        ),
        (EngineError::InvalidDeliveryState, GatewayErrorKind::Internal, "request execution failed"),
    ];
    for (error, kind, message) in cases {
        let gateway = gateway_error_from_engine(&error);
        assert_eq!(gateway.kind(), kind);
        assert_eq!(gateway.safe_message(), message);
    }
    let provider = ProviderError::new(ProviderErrorKind::RateLimited, UpstreamSendState::Sent);
    let expected = GatewayError::from_provider(&provider);
    let gateway = gateway_error_from_engine(&EngineError::Provider(provider));
    assert_eq!(gateway.kind(), expected.kind());
    assert_eq!(gateway.safe_message(), expected.safe_message());
}
