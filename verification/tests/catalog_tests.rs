use model_catalog::all_model_presets;
use model_catalog::catalog::validate_catalog;
use model_catalog::default_reasoning_efforts;
use model_catalog::CatalogError;
use model_catalog::ModelPreset;
use model_catalog::ReasoningEffort;
use model_catalog::ReasoningEffortPreset;

fn preset(id: &str, is_default: bool) -> ModelPreset {
    ModelPreset {
        id: id.to_string(),
        model: id.to_string(),
        display_name: id.to_string(),
        description: format!("{id} preset"),
        default_reasoning_effort: ReasoningEffort::Medium,
        supported_reasoning_efforts: default_reasoning_efforts(),
        supports_personality: true,
        is_default,
        upgrade: None,
        show_in_picker: true,
        supported_in_api: true,
    }
}

#[test]
fn only_one_default_model_is_configured() {
    let presets = all_model_presets();
    let default_models = presets.iter().filter(|preset| preset.is_default).count();
    assert!(default_models == 1);
}

#[test]
fn builtin_catalog_contents() {
    let presets = all_model_presets();
    let ids: Vec<&str> = presets.iter().map(|p| p.id.as_str()).collect();
    assert_eq!(
        ids,
        vec![
            "openai/gpt-oss-120b:nitro",
            "minimax/minimax-m2.1:nitro",
            "moonshotai/kimi-k2.5:nitro",
            "z-ai/glm-4.7:nitro",
        ]
    );
    assert!(presets[0].is_default);
    assert!(presets.iter().skip(1).all(|p| !p.is_default));
    for p in presets.iter() {
        assert_eq!(p.model, p.id);
        assert_eq!(p.display_name, p.id);
        assert_eq!(p.default_reasoning_effort, ReasoningEffort::Medium);
        assert_eq!(p.supported_reasoning_efforts, default_reasoning_efforts());
        assert!(p.supports_personality);
        assert!(p.upgrade.is_none());
        assert!(p.show_in_picker);
        assert!(p.supported_in_api);
    }
    assert_eq!(presets[0].description, "OpenRouter GPT-OSS 120B (nitro).");
    assert_eq!(presets[1].description, "OpenRouter Minimax M2.1 (nitro).");
    assert_eq!(presets[2].description, "OpenRouter Kimi K2.5 (nitro).");
    assert_eq!(presets[3].description, "OpenRouter GLM-4.7 (nitro).");
}

#[test]
fn default_efforts_are_low_medium_high() {
    let efforts = default_reasoning_efforts();
    assert_eq!(
        efforts,
        vec![
            ReasoningEffortPreset {
                effort: ReasoningEffort::Low,
                description: "Faster responses with lighter reasoning".to_string(),
            },
            ReasoningEffortPreset {
                effort: ReasoningEffort::Medium,
                description: "Balanced speed and reasoning depth".to_string(),
            },
            ReasoningEffortPreset {
                effort: ReasoningEffort::High,
                description: "More reasoning for complex problems".to_string(),
            },
        ]
    );
}

#[test]
fn every_default_effort_is_supported() {
    for p in all_model_presets().iter() {
        assert!(p
            .supported_reasoning_efforts
            .iter()
            .any(|e| e.effort == p.default_reasoning_effort));
    }
}

#[test]
fn builtin_catalog_validates() {
    assert_eq!(validate_catalog(&all_model_presets()), Ok(()));
}

#[test]
fn validation_rejects_duplicate_ids() {
    let catalog = vec![preset("a", true), preset("a", false)];
    assert_eq!(validate_catalog(&catalog), Err(CatalogError::DuplicateId));
}

#[test]
fn validation_rejects_zero_defaults() {
    let catalog = vec![preset("a", false), preset("b", false)];
    assert_eq!(
        validate_catalog(&catalog),
        Err(CatalogError::WrongDefaultCount)
    );
}

#[test]
fn validation_rejects_two_defaults() {
    let catalog = vec![preset("a", true), preset("b", true)];
    assert_eq!(
        validate_catalog(&catalog),
        Err(CatalogError::WrongDefaultCount)
    );
}

#[test]
fn validation_rejects_empty_effort_list() {
    let mut bad = preset("a", true);
    bad.supported_reasoning_efforts = Vec::new();
    assert_eq!(
        validate_catalog(&vec![bad]),
        Err(CatalogError::IllFormedEfforts)
    );
}

#[test]
fn validation_rejects_repeated_effort_level() {
    let mut bad = preset("a", true);
    bad.supported_reasoning_efforts.push(ReasoningEffortPreset {
        effort: ReasoningEffort::Low,
        description: "Low again".to_string(),
    });
    assert_eq!(
        validate_catalog(&vec![bad]),
        Err(CatalogError::IllFormedEfforts)
    );
}

#[test]
fn validation_rejects_unsupported_default_effort() {
    let mut bad = preset("a", true);
    bad.supported_reasoning_efforts
        .retain(|e| e.effort != ReasoningEffort::Medium);
    assert_eq!(
        validate_catalog(&vec![bad]),
        Err(CatalogError::IllFormedEfforts)
    );
}

#[test]
fn validation_rejects_hidden_default() {
    let mut bad = preset("a", true);
    bad.supported_in_api = false;
    assert_eq!(
        validate_catalog(&vec![bad, preset("b", false)]),
        Err(CatalogError::HiddenDefault)
    );
}

#[test]
fn validation_rejects_dangling_upgrade() {
    let mut bad = preset("a", true);
    bad.upgrade = Some("missing".to_string());
    assert_eq!(
        validate_catalog(&vec![bad]),
        Err(CatalogError::DanglingUpgrade)
    );
}

#[test]
fn validation_accepts_resolvable_upgrade() {
    let mut first = preset("a", true);
    first.upgrade = Some("b".to_string());
    assert_eq!(validate_catalog(&vec![first, preset("b", false)]), Ok(()));
}
