use model_catalog::all_model_presets;
use model_catalog::default_reasoning_efforts;
use model_catalog::AuthMode;
use model_catalog::FetchDecision;
use model_catalog::ListModelsStep;
use model_catalog::ModelPreset;
use model_catalog::ModelsManager;
use model_catalog::ReasoningEffort;
use model_catalog::RefreshStrategy;
use model_catalog::policy::refresh_decision;

fn preset(id: &str, is_default: bool) -> ModelPreset {
    ModelPreset {
        id: id.to_string(),
        model: id.to_string(),
        display_name: id.to_string(),
        description: format!("{id} preset"),
        default_reasoning_effort: ReasoningEffort::Medium,
        supported_reasoning_efforts: default_reasoning_efforts(),
        supports_personality: true,
        is_default,
        upgrade: None,
        show_in_picker: true,
        supported_in_api: true,
    }
}

fn ready_list(step: ListModelsStep) -> Vec<ModelPreset> {
    match step {
        ListModelsStep::Ready(list) => list,
        other => panic!("expected Ready, got {other:?}"),
    }
}

fn key(name: &str) -> String {
    name.to_string()
}

#[test]
fn refresh_decision_table() {
    assert_eq!(
        refresh_decision(RefreshStrategy::Offline, true),
        FetchDecision::UseCache
    );
    assert_eq!(
        refresh_decision(RefreshStrategy::Offline, false),
        FetchDecision::SkipFetch
    );
    assert_eq!(
        refresh_decision(RefreshStrategy::OnlineIfUncached, true),
        FetchDecision::UseCache
    );
    assert_eq!(
        refresh_decision(RefreshStrategy::OnlineIfUncached, false),
        FetchDecision::FetchThenCache
    );
    assert_eq!(
        refresh_decision(RefreshStrategy::OnlineAlways, true),
        FetchDecision::FetchThenCache
    );
    assert_eq!(
        refresh_decision(RefreshStrategy::OnlineAlways, false),
        FetchDecision::FetchThenCache
    );
}

#[test]
fn list_models_returns_api_key_models() {
    let mut manager = ModelsManager::new();
    let provider = key("openrouter");
    let step = manager.list_models(
        Some(AuthMode::ApiKey),
        &provider,
        RefreshStrategy::OnlineIfUncached,
    );
    assert_eq!(step, ListModelsStep::StartFetch);
    // The remote provider answers with the same four ids.
    let remote: Vec<ModelPreset> = all_model_presets()
        .iter()
        .map(|p| preset(&p.id, false))
        .collect();
    let models = manager.finish_fetch(Some(AuthMode::ApiKey), &provider, Some(remote), 7);
    assert_eq!(models, all_model_presets());
    assert!(models[0].is_default);
    assert_eq!(models.iter().filter(|p| p.is_default).count(), 1);
}

#[test]
fn list_models_returns_chatgpt_models() {
    let mut manager = ModelsManager::new();
    let provider = key("openrouter");
    let step = manager.list_models(
        Some(AuthMode::ChatGPT),
        &provider,
        RefreshStrategy::OnlineIfUncached,
    );
    assert_eq!(step, ListModelsStep::StartFetch);
    let remote: Vec<ModelPreset> = all_model_presets()
        .iter()
        .map(|p| preset(&p.id, false))
        .collect();
    let models = manager.finish_fetch(Some(AuthMode::ChatGPT), &provider, Some(remote), 7);
    assert_eq!(models, all_model_presets());
}

#[test]
fn offline_calls_are_idempotent() {
    let mut manager = ModelsManager::new();
    let provider = key("openrouter");
    let first = ready_list(manager.list_models(
        Some(AuthMode::ApiKey),
        &provider,
        RefreshStrategy::Offline,
    ));
    let second = ready_list(manager.list_models(
        Some(AuthMode::ApiKey),
        &provider,
        RefreshStrategy::Offline,
    ));
    assert_eq!(first, second);
    assert_eq!(first, all_model_presets());
}

#[test]
fn concurrent_calls_coalesce_onto_one_fetch() {
    let mut manager = ModelsManager::new();
    let provider = key("openrouter");
    // The first caller is told to fetch; every caller that arrives
    // while that fetch is in flight is told to wait, whatever its
    // strategy, so exactly one fetch happens.
    let first = manager.list_models(
        Some(AuthMode::ApiKey),
        &provider,
        RefreshStrategy::OnlineIfUncached,
    );
    assert_eq!(first, ListModelsStep::StartFetch);
    let second = manager.list_models(
        Some(AuthMode::ApiKey),
        &provider,
        RefreshStrategy::OnlineIfUncached,
    );
    assert_eq!(second, ListModelsStep::AwaitInFlight);
    let third = manager.list_models(
        Some(AuthMode::ChatGPT),
        &provider,
        RefreshStrategy::OnlineAlways,
    );
    assert_eq!(third, ListModelsStep::AwaitInFlight);
    // The one fetch finishes; every waiter reads the same answer.
    let remote = vec![preset("extra/model:nitro", false)];
    let answer = manager.finish_fetch(Some(AuthMode::ApiKey), &provider, Some(remote), 1);
    let waiter = manager.resolve_cached(Some(AuthMode::ApiKey), &provider);
    assert_eq!(answer, waiter);
    assert_eq!(answer.len(), 5);
    assert_eq!(answer[4].id, "extra/model:nitro");
}

#[test]
fn failed_fetch_with_empty_cache_serves_builtin() {
    let mut manager = ModelsManager::new();
    let provider = key("openrouter");
    let step = manager.list_models(
        Some(AuthMode::ApiKey),
        &provider,
        RefreshStrategy::OnlineIfUncached,
    );
    assert_eq!(step, ListModelsStep::StartFetch);
    let models = manager.finish_fetch(Some(AuthMode::ApiKey), &provider, None, 3);
    assert_eq!(models, all_model_presets());
}

#[test]
fn failed_fetch_keeps_prior_cache() {
    let mut manager = ModelsManager::new();
    let provider = key("openrouter");
    manager.list_models(
        Some(AuthMode::ApiKey),
        &provider,
        RefreshStrategy::OnlineIfUncached,
    );
    let remote = vec![preset("extra/model:nitro", false)];
    let cached = manager.finish_fetch(Some(AuthMode::ApiKey), &provider, Some(remote), 1);
    // A later forced refresh fails; the prior overlay still serves.
    let step = manager.list_models(
        Some(AuthMode::ApiKey),
        &provider,
        RefreshStrategy::OnlineAlways,
    );
    assert_eq!(step, ListModelsStep::StartFetch);
    let again = manager.finish_fetch(Some(AuthMode::ApiKey), &provider, None, 2);
    assert_eq!(cached, again);
    assert_eq!(again.len(), 5);
}

#[test]
fn cached_value_satisfies_online_if_uncached() {
    let mut manager = ModelsManager::new();
    let provider = key("openrouter");
    manager.list_models(
        Some(AuthMode::ApiKey),
        &provider,
        RefreshStrategy::OnlineIfUncached,
    );
    let remote = vec![preset("extra/model:nitro", false)];
    manager.finish_fetch(Some(AuthMode::ApiKey), &provider, Some(remote), 1);
    // A second OnlineIfUncached call serves the cache, however old.
    let step = manager.list_models(
        Some(AuthMode::ApiKey),
        &provider,
        RefreshStrategy::OnlineIfUncached,
    );
    let list = ready_list(step);
    assert_eq!(list.len(), 5);
    assert_eq!(list[4].id, "extra/model:nitro");
}

#[test]
fn merge_keeps_builtin_order_and_metadata() {
    let mut manager = ModelsManager::new();
    let provider = key("openrouter");
    manager.list_models(
        Some(AuthMode::ApiKey),
        &provider,
        RefreshStrategy::OnlineIfUncached,
    );
    // The remote answer renames a built-in preset and appends two new
    // ones; the built-in entry wins on conflicting metadata.
    let mut renamed = preset("openai/gpt-oss-120b:nitro", true);
    renamed.display_name = "renamed".to_string();
    let remote = vec![
        renamed,
        preset("remote/one:nitro", false),
        preset("remote/two:nitro", false),
    ];
    let models = manager.finish_fetch(Some(AuthMode::ApiKey), &provider, Some(remote), 1);
    assert_eq!(models.len(), 6);
    assert_eq!(models[..4], all_model_presets()[..]);
    assert_eq!(models[4].id, "remote/one:nitro");
    assert_eq!(models[5].id, "remote/two:nitro");
}

#[test]
fn merge_drops_remote_duplicates_and_ill_formed_entries() {
    let mut manager = ModelsManager::new();
    let provider = key("openrouter");
    manager.list_models(
        Some(AuthMode::ApiKey),
        &provider,
        RefreshStrategy::OnlineIfUncached,
    );
    let mut no_efforts = preset("remote/bad:nitro", false);
    no_efforts.supported_reasoning_efforts = Vec::new();
    let remote = vec![
        preset("remote/one:nitro", false),
        preset("remote/one:nitro", false),
        no_efforts,
    ];
    let models = manager.finish_fetch(Some(AuthMode::ApiKey), &provider, Some(remote), 1);
    assert_eq!(models.len(), 5);
    assert_eq!(models[4].id, "remote/one:nitro");
}

#[test]
fn merge_clears_remote_default_flag() {
    let mut manager = ModelsManager::new();
    let provider = key("openrouter");
    manager.list_models(
        Some(AuthMode::ApiKey),
        &provider,
        RefreshStrategy::OnlineIfUncached,
    );
    let remote = vec![preset("remote/one:nitro", true)];
    let models = manager.finish_fetch(Some(AuthMode::ApiKey), &provider, Some(remote), 1);
    assert_eq!(models.iter().filter(|p| p.is_default).count(), 1);
    assert!(models[0].is_default);
    assert!(!models[4].is_default);
}

#[test]
fn api_key_auth_filters_api_unsupported_entries() {
    let mut manager = ModelsManager::new();
    let provider = key("openrouter");
    manager.list_models(
        Some(AuthMode::ApiKey),
        &provider,
        RefreshStrategy::OnlineIfUncached,
    );
    let mut hidden = preset("remote/session-only:nitro", false);
    hidden.supported_in_api = false;
    let remote = vec![hidden, preset("remote/open:nitro", false)];
    manager.finish_fetch(Some(AuthMode::ApiKey), &provider, Some(remote), 1);
    let for_api = manager.resolve_cached(Some(AuthMode::ApiKey), &provider);
    assert_eq!(for_api.len(), 5);
    assert!(for_api.iter().all(|p| p.id != "remote/session-only:nitro"));
    let for_session = manager.resolve_cached(Some(AuthMode::ChatGPT), &provider);
    assert_eq!(for_session.len(), 6);
    assert!(for_session.iter().any(|p| p.id == "remote/session-only:nitro"));
    let unknown = manager.resolve_cached(None, &provider);
    assert_eq!(unknown, for_session);
}

#[test]
fn caches_are_per_provider() {
    let mut manager = ModelsManager::new();
    let first = key("openrouter");
    let second = key("other-provider");
    manager.list_models(
        Some(AuthMode::ApiKey),
        &first,
        RefreshStrategy::OnlineIfUncached,
    );
    let remote = vec![preset("remote/one:nitro", false)];
    manager.finish_fetch(Some(AuthMode::ApiKey), &first, Some(remote), 1);
    // The other provider's cache is untouched: it still needs a fetch.
    let step = manager.list_models(
        Some(AuthMode::ApiKey),
        &second,
        RefreshStrategy::OnlineIfUncached,
    );
    assert_eq!(step, ListModelsStep::StartFetch);
    let fallback = manager.finish_fetch(Some(AuthMode::ApiKey), &second, None, 2);
    assert_eq!(fallback, all_model_presets());
    let cached = manager.resolve_cached(Some(AuthMode::ApiKey), &first);
    assert_eq!(cached.len(), 5);
}

#[test]
fn with_catalog_accepts_a_valid_catalog() {
    let catalog = vec![preset("a", true), preset("b", false)];
    let mut manager = match ModelsManager::with_catalog(catalog) {
        Ok(manager) => manager,
        Err(e) => panic!("valid catalog refused: {e:?}"),
    };
    let provider = key("openrouter");
    let list = match manager.list_models(Some(AuthMode::ApiKey), &provider, RefreshStrategy::Offline)
    {
        ListModelsStep::Ready(list) => list,
        other => panic!("expected Ready, got {other:?}"),
    };
    assert_eq!(list.len(), 2);
    assert_eq!(list[0].id, "a");
    assert!(list[0].is_default);
}

#[test]
fn with_catalog_refuses_an_invalid_catalog() {
    let catalog = vec![preset("a", true), preset("a", false)];
    let refused = ModelsManager::with_catalog(catalog);
    assert!(matches!(
        refused,
        Err(model_catalog::CatalogError::DuplicateId)
    ));
}

#[test]
fn resolved_lists_are_never_empty() {
    let mut manager = ModelsManager::new();
    let provider = key("openrouter");
    // Even a worthless remote answer leaves the built-in floor intact.
    manager.list_models(
        Some(AuthMode::ApiKey),
        &provider,
        RefreshStrategy::OnlineIfUncached,
    );
    let models = manager.finish_fetch(Some(AuthMode::ApiKey), &provider, Some(Vec::new()), 1);
    assert!(!models.is_empty());
    assert_eq!(models, all_model_presets());
}
