use gateway_core::concurrency::{enqueue_target, ConcurrencyQueuePolicy, QueueRejection, MAX_TOTAL_WAITING};
use gateway_core::credential::ids::ProviderAccountId;
use gateway_core::identity::ProviderKind;
use gateway_core::policy::client_version::{
    ClientVersionRejection, CodexClientKind, CodexClientMinVersions, CodexClientVersion, CodexClientVersionError,
};
use gateway_core::policy::{
    AdmissionUnits, ClientApiKeyId, ClientPolicy, PlaintextClientApiKey, PolicyError, RateLimits,
};
use gateway_core::pricing::{merge_pricing, ModelPriceOverride, PricingOverrides, TokenPrice, TokenPriceOverride};
use gateway_core::provider_ports::{
    provider_refresh_retry_at, OAuthPendingBinding, ProviderRefreshPolicy, ProviderSessionAffinityKey,
    ProviderStoreErrorKind,
};
use gateway_core::text::IdentifierError;
use gateway_core::textmap::TextMap;
use gateway_core::time::{TimeSpan, UnixTime};

fn at(secs: u64) -> UnixTime {
    UnixTime { nanos: secs as u128 * 1_000_000_000 }
}

fn account() -> ProviderAccountId {
    ProviderAccountId::new("acct_test".to_string()).unwrap()
}

#[test]
fn refresh_policy_needs_a_margin() {
    let e = ProviderRefreshPolicy::try_new(TimeSpan::zero(), 1).unwrap_err();
    assert_eq!(e.kind(), ProviderStoreErrorKind::InvalidData);
    assert_eq!(e.operation(), "validate refresh policy");
    let p = ProviderRefreshPolicy::try_new(TimeSpan::from_secs(300), 4).unwrap();
    assert_eq!(p.margin(), TimeSpan::from_secs(300));
    assert_eq!(p.concurrency(), 4);
}

#[test]
fn refresh_attempt_is_a_stable_jittered_margin_before_expiry() {
    let p = ProviderRefreshPolicy::try_new(TimeSpan::from_secs(300), 1).unwrap();
    // The factor for this account is 887 per mille: 266 seconds ahead.
    assert_eq!(p.next_attempt_at(&account(), at(10_000), at(1_000)), Ok(at(9_734)));
    assert_eq!(p.next_attempt_at(&account(), at(10_000), at(1_000)), p.next_attempt_at(&account(), at(10_000), at(1_000)));
    // Too close to expiry: refresh right away.
    assert_eq!(p.next_attempt_at(&account(), at(1_200), at(1_000)), Ok(at(1_000)));
    let e = p.next_attempt_at(&account(), at(999), at(1_000)).unwrap_err();
    assert_eq!(e.operation(), "schedule expired access token");
}

#[test]
fn refresh_margin_under_a_second_refreshes_now() {
    let p = ProviderRefreshPolicy::try_new(TimeSpan::from_millis(500), 1).unwrap();
    assert_eq!(p.next_attempt_at(&account(), at(10_000), at(1_000)), Ok(at(1_000)));
}

#[test]
fn refresh_retry_is_a_stable_jittered_delay() {
    // The factor for this account and reason is 950 per mille.
    assert_eq!(
        provider_refresh_retry_at(&account(), at(100), TimeSpan::from_secs(60), "network"),
        Ok(UnixTime { nanos: at(100).nanos + 57_000 * 1_000_000 })
    );
    let e = provider_refresh_retry_at(&account(), at(100), TimeSpan::zero(), "network").unwrap_err();
    assert_eq!(e.operation(), "schedule refresh retry");
    let late = provider_refresh_retry_at(&account(), UnixTime { nanos: u128::MAX }, TimeSpan::from_secs(1), "x");
    assert!(late.is_err());
}

#[test]
fn store_keys_are_validated() {
    assert!(ProviderSessionAffinityKey::try_new("abc-123_x".to_string()).is_ok());
    assert_eq!(
        ProviderSessionAffinityKey::try_new("ABC".to_string()).err().map(|e| e.operation()),
        Some("validate provider session affinity key")
    );
    assert!(ProviderSessionAffinityKey::try_new(String::new()).is_err());
    assert!(ProviderSessionAffinityKey::try_new("a".repeat(129)).is_err());
    assert_eq!(OAuthPendingBinding::try_new("state".to_string()).unwrap().expose_to_store(), "state");
    assert!(OAuthPendingBinding::try_new(String::new()).is_err());
    assert!(OAuthPendingBinding::try_new("x".repeat(513)).is_err());
}

#[test]
fn waiters_go_to_the_shortest_queue_with_room() {
    assert_eq!(enqueue_target(&[3, 1, 1, 2], 4, 7, false), Ok(1));
    assert_eq!(enqueue_target(&[4, 4, 2], 4, 10, false), Ok(2));
    assert_eq!(enqueue_target(&[4, 4], 4, 8, false), Err(QueueRejection::Full));
    assert_eq!(enqueue_target(&[], 4, 0, false), Err(QueueRejection::Full));
    assert_eq!(enqueue_target(&[0], 4, MAX_TOTAL_WAITING, false), Err(QueueRejection::Full));
    assert_eq!(enqueue_target(&[0], 4, 0, true), Err(QueueRejection::Timeout));
    assert_eq!(ConcurrencyQueuePolicy::default().max_waiting, 0);
}

#[test]
fn client_keys_and_admission() {
    assert_eq!(ClientApiKeyId::new("key 1".to_string()), Err(IdentifierError::Whitespace));
    let id = ClientApiKeyId::new("key_1".to_string()).unwrap();
    let secret = PlaintextClientApiKey::new("sk-abc".to_string()).unwrap();
    assert_eq!(secret.expose_for_auth(), "sk-abc");
    let policy = ClientPolicy::new(id.duplicate(), secret, ProviderKind::new("openai".to_string()), true, RateLimits::default());
    assert_eq!(policy.authorize(), Ok(()));
    assert_eq!(policy.limits(), RateLimits::unlimited());
    let disabled = ClientPolicy::new(
        id,
        PlaintextClientApiKey::new("sk-abc".to_string()).unwrap(),
        ProviderKind::new("openai".to_string()),
        false,
        RateLimits::unlimited(),
    );
    assert_eq!(disabled.authorize(), Err(PolicyError::Denied { reason: "client API key is disabled" }));
    assert_eq!(AdmissionUnits::new(0, 10), Err(PolicyError::Denied { reason: "request units must be positive" }));
    assert_eq!(AdmissionUnits::new(1, 10), Ok(AdmissionUnits { requests: 1, estimated_tokens: 10 }));
}

fn price(text: &str) -> TokenPrice {
    TokenPrice::parse(text).unwrap()
}

fn band(p: &str) -> TokenPriceOverride {
    TokenPriceOverride { input: price(p), output: price(p), cache_read: price(p), cache_write: price(p) }
}

#[test]
fn token_prices_have_four_places_at_most() {
    let p = price("2.5");
    assert_eq!(p.ticks_per_token(), 25_000);
    assert_eq!(p.canonical(), "2.5000000000");
    assert_eq!(TokenPrice::parse("0.00001"), Err("单价最多四位小数且不超过 1000000 USD / 百万 Token"));
    assert_eq!(TokenPrice::parse("1000001"), Err("单价最多四位小数且不超过 1000000 USD / 百万 Token"));
    assert!(TokenPrice::parse("1000000").is_ok());
    assert_eq!(TokenPrice::parse("-1"), Err("单价必须为非负十进制字符串"));
}

#[test]
fn price_overrides_validate_multiplier_and_bands() {
    let mut bands = TextMap::new();
    bands.insert("standard".to_string(), band("1"));
    let ok = ModelPriceOverride { multiplier_bps: 10_000, bands };
    assert_eq!(ok.validate(), Ok(()));
    let mut bands = TextMap::new();
    bands.insert("turbo".to_string(), band("1"));
    assert_eq!(ModelPriceOverride { multiplier_bps: 10_000, bands }.validate(), Err("价格档位不受支持"));
    assert_eq!(
        ModelPriceOverride { multiplier_bps: 1_000_001, bands: TextMap::new() }.validate(),
        Err("倍率必须在 0 至 100 倍之间")
    );
}

#[test]
fn pricing_merge_overlays_band_by_band() {
    let mut base_bands = TextMap::new();
    base_bands.insert("standard".to_string(), band("1"));
    base_bands.insert("fast".to_string(), band("2"));
    let mut base_models = TextMap::new();
    base_models.insert("gpt-5".to_string(), ModelPriceOverride { multiplier_bps: 10_000, bands: base_bands });
    let mut base: PricingOverrides = TextMap::new();
    base.insert("openai".to_string(), base_models);
    let mut kept = TextMap::new();
    kept.insert("m".to_string(), ModelPriceOverride { multiplier_bps: 5, bands: TextMap::new() });
    base.insert("other".to_string(), kept);

    let mut over_bands = TextMap::new();
    over_bands.insert("fast".to_string(), band("3"));
    over_bands.insert("flex".to_string(), band("4"));
    let mut over_models = TextMap::new();
    over_models.insert("gpt-5".to_string(), ModelPriceOverride { multiplier_bps: 12_000, bands: over_bands });
    over_models.insert("o3".to_string(), ModelPriceOverride { multiplier_bps: 9_000, bands: TextMap::new() });
    let mut overrides: PricingOverrides = TextMap::new();
    overrides.insert("openai".to_string(), over_models);

    let merged = merge_pricing(base, &overrides);
    let openai = merged.get("openai").unwrap();
    let gpt = openai.get("gpt-5").unwrap();
    assert_eq!(gpt.multiplier_bps, 12_000);
    assert_eq!(gpt.bands.len(), 3);
    assert_eq!(gpt.bands.get("standard"), Some(&band("1")));
    assert_eq!(gpt.bands.get("fast"), Some(&band("3")));
    assert_eq!(gpt.bands.get("flex"), Some(&band("4")));
    let o3 = openai.get("o3").unwrap();
    assert_eq!(o3.multiplier_bps, 9_000);
    assert_eq!(o3.bands.len(), 0);
    assert_eq!(merged.get("other").unwrap().get("m").unwrap().multiplier_bps, 5);
}

#[test]
fn text_maps_keep_keys_sorted_and_unique() {
    let mut m = TextMap::new();
    m.insert("b".to_string(), 2);
    m.insert("a".to_string(), 1);
    m.insert("b".to_string(), 3);
    assert_eq!(m.len(), 2);
    let keys: Vec<&str> = m.entries().iter().map(|(k, _)| k.as_str()).collect();
    assert_eq!(keys, vec!["a", "b"]);
    assert_eq!(m.get("b"), Some(&3));
    assert_eq!(m.remove("a"), Some(1));
    assert_eq!(m.remove("a"), None);
    assert_eq!(m.get("a"), None);
}

#[test]
fn codex_versions_are_strict_semver() {
    assert_eq!(CodexClientVersion::parse("1.2.3").unwrap().to_string(), "1.2.3");
    assert!(CodexClientVersion::parse("1.2.3-beta.1+build.5").is_ok());
    for bad in ["", " 1.2.3", "1.2", "v1.2.3", "1.2.3\u{1}", "01.2.3"] {
        assert_eq!(CodexClientVersion::parse(bad).err(), Some(CodexClientVersionError), "{bad:?}");
    }
    let long = format!("1.2.3-{}", "a".repeat(60));
    assert_eq!(CodexClientVersion::parse(&long).err(), Some(CodexClientVersionError));
    assert_eq!(CodexClientKind::Desktop.as_str(), "codex_desktop");
    assert_eq!(CodexClientKind::Cli.as_str(), "codex_cli");
}

#[test]
fn minimum_versions_are_enforced_per_client() {
    let v = |s: &str| CodexClientVersion::parse(s).unwrap();
    let mins = CodexClientMinVersions::new(Some(v("2.0.0")), None);
    assert_eq!(mins.enforce(CodexClientKind::Cli, None), Ok(()));
    assert_eq!(mins.enforce(CodexClientKind::Desktop, Some(&v("2.0.0"))), Ok(()));
    assert_eq!(mins.enforce(CodexClientKind::Desktop, Some(&v("10.0.0"))), Ok(()));
    match mins.enforce(CodexClientKind::Desktop, Some(&v("2.0.0-rc.1"))) {
        Err(r) => {
            assert_eq!(r.kind(), CodexClientKind::Desktop);
            assert_eq!(r.current().unwrap().to_string(), "2.0.0-rc.1");
            assert_eq!(r.min().to_string(), "2.0.0");
        },
        Ok(()) => panic!("a pre-release precedes its release"),
    }
    match mins.enforce(CodexClientKind::Desktop, None) {
        Err(ClientVersionRejection::Unavailable { kind, min }) => {
            assert_eq!(kind, CodexClientKind::Desktop);
            assert_eq!(min.to_string(), "2.0.0");
        },
        _ => panic!("a missing version is unavailable"),
    }
    assert!(CodexClientMinVersions::default().min_for(CodexClientKind::Desktop).is_none());
}
