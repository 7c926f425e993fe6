use gateway_core::engine::catalog::{
    merge_client_catalog, AdaptedCatalogModel, CatalogModelFacts, CatalogSource, NativeCatalogEntry,
    ProviderCatalog, PublicCatalogModel,
};

fn facts(target: &str, allowed: bool, routable: bool) -> CatalogModelFacts {
    CatalogModelFacts { target: target.to_string(), target_allowed: allowed, routable }
}

fn entry(model: &str, target: &str) -> NativeCatalogEntry {
    NativeCatalogEntry { model: model.to_string(), facts: facts(target, true, true) }
}

fn listed(items: &[gateway_core::engine::catalog::CatalogItem]) -> Vec<(String, CatalogSource)> {
    items.iter().map(|item| (item.model.clone(), item.source)).collect()
}

#[test]
fn native_catalog_keeps_order_and_adds_mapped_models() {
    let native = ProviderCatalog::Native {
        entries: vec![
            entry("model-b", "model-b"),
            entry("model-a", "model-a"),
            NativeCatalogEntry { model: "model-hidden".to_string(), facts: facts("model-hidden", false, true) },
            NativeCatalogEntry { model: "model-stale".to_string(), facts: facts("model-stale", true, false) },
            entry("model-alias", "model-missing"),
        ],
        public_models: vec![
            PublicCatalogModel { model: "model-fast".to_string(), facts: facts("model-a", true, true) },
            PublicCatalogModel { model: "model-b".to_string(), facts: facts("model-b", true, true) },
            PublicCatalogModel { model: "model-gone".to_string(), facts: facts("model-missing", true, true) },
        ],
    };
    let items = merge_client_catalog(&vec![native]);
    assert_eq!(
        listed(&items),
        vec![
            ("model-b".to_string(), CatalogSource::Native { provider: 0, entry: 0 }),
            ("model-a".to_string(), CatalogSource::Native { provider: 0, entry: 1 }),
            ("model-fast".to_string(), CatalogSource::Native { provider: 0, entry: 1 }),
        ]
    );
}

#[test]
fn later_providers_do_not_repeat_models() {
    let first = ProviderCatalog::Adapted(vec![
        AdaptedCatalogModel { model: "model-a".to_string(), allowed: true },
        AdaptedCatalogModel { model: "model-x".to_string(), allowed: false },
    ]);
    let second = ProviderCatalog::Native {
        entries: vec![entry("model-a", "model-a"), entry("model-c", "model-c"), entry("model-c", "model-c")],
        public_models: vec![],
    };
    let items = merge_client_catalog(&vec![first, second]);
    assert_eq!(
        listed(&items),
        vec![
            ("model-a".to_string(), CatalogSource::Adapted { provider: 0, profile: 0 }),
            ("model-c".to_string(), CatalogSource::Native { provider: 1, entry: 2 }),
        ]
    );
    assert!(merge_client_catalog(&vec![]).is_empty());
}
