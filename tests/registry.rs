use textgen::hub::{HubInfo, HubInfoRaw, ModelArch};
use textgen::registry::{ModelRegistry, ModelRegistryRaw, RegistryError};
use textgen::variants::Variants;

fn raw(model_repo: &str, model_file: &str, tokenizer_repo: Option<&str>, default: bool) -> HubInfoRaw {
    HubInfoRaw {
        model_repo: model_repo.to_string(),
        model_file: model_file.to_string(),
        tokenizer_repo: tokenizer_repo.map(|t| t.to_string()),
        default,
    }
}

fn sample_registry() -> ModelRegistry {
    let mut qwen3 = Variants::new();
    qwen3.insert("8b_base".to_string(), raw("Qwen/Qwen3-8B", "model.safetensors", None, true));
    qwen3.insert("8b_q4".to_string(), raw("Qwen/Qwen3-8B-GGUF", "Qwen3-8B-Q4_K_M", None, false));
    qwen3.insert("4b_base".to_string(), raw("Qwen/Qwen3-4B", "model.safetensors", None, false));
    qwen3.insert("4b_q4".to_string(), raw("Qwen/Qwen3-4B-GGUF", "Qwen3-4B-Q4_K_M", None, false));
    let mut llama = Variants::new();
    llama.insert(
        "8b_deepseek_r1_q4".to_string(),
        raw(
            "unsloth/DeepSeek-R1-Distill-Llama-8B-GGUF",
            "DeepSeek-R1-Distill-Llama-8B-Q4_K_M",
            Some("deepseek-ai/DeepSeek-R1-Distill-Llama-8B"),
            true,
        ),
    );
    ModelRegistry::new(ModelRegistryRaw { qwen3, llama: Some(llama) })
}

#[test]
fn test_hub_info_conversion() {
    let raw = HubInfoRaw {
        model_repo: "Qwen/Qwen3-8B".to_string(),
        model_file: "model.safetensors".to_string(),
        tokenizer_repo: None,
        default: true,
    };

    let hub_info = HubInfo::from(raw);

    assert_eq!(hub_info.model_repo, "Qwen/Qwen3-8B");
    assert_eq!(hub_info.model_file, "model.safetensors");
    assert_eq!(hub_info.tokenizer_repo, "Qwen/Qwen3-8B");
    assert!(hub_info.default);
}

#[test]
fn test_model_registry_parse() {
    let registry = sample_registry();
    assert!(!registry.qwen3.is_empty());
}

#[test]
fn test_get_model() {
    let registry = sample_registry();

    let model = registry.get("qwen3.4b_q4").unwrap();
    assert_eq!(model.model_repo, "Qwen/Qwen3-4B-GGUF");

    let model = registry.get("qwen3.8b_base").unwrap();
    assert_eq!(model.model_repo, "Qwen/Qwen3-8B");

    let default_qwen3 = registry.get("qwen3").unwrap();
    assert_eq!(default_qwen3.model_repo, "Qwen/Qwen3-8B");
    assert!(default_qwen3.default);

    assert!(registry.get("unknown").is_err());

    assert!(registry.get("qwen3.NonExistent").is_err());
}

#[test]
fn test_tokenizer_repo_auto_fill() {
    let registry = sample_registry();

    let base_model = registry.get("qwen3.8b_base").unwrap();
    assert_eq!(base_model.tokenizer_repo, "Qwen/Qwen3-8B");

    let q4_model = registry.get("qwen3.8b_q4").unwrap();
    assert_eq!(q4_model.tokenizer_repo, "Qwen/Qwen3-8B");

    let base_4b = registry.get("qwen3.4b_base").unwrap();
    assert_eq!(base_4b.tokenizer_repo, "Qwen/Qwen3-4B");

    let q4_4b = registry.get("qwen3.4b_q4").unwrap();
    assert_eq!(q4_4b.tokenizer_repo, "Qwen/Qwen3-4B");

    if let Some(llama_models) = &registry.llama {
        if let Some(deepseek_model) = llama_models.get("8b_deepseek_r1_q4") {
            assert_eq!(deepseek_model.tokenizer_repo, "deepseek-ai/DeepSeek-R1-Distill-Llama-8B");
        }
    }
}

#[test]
fn errors_name_their_cause() {
    let registry = sample_registry();
    assert_eq!(registry.get("unknown").unwrap_err(), RegistryError::UnknownArchitecture);
    assert_eq!(registry.get("unknown.8b_base").unwrap_err(), RegistryError::UnknownArchitecture);
    assert_eq!(registry.get("Qwen3.8b_base").unwrap_err(), RegistryError::UnknownArchitecture);
    assert_eq!(registry.get("qwen3.NonExistent").unwrap_err(), RegistryError::UnknownVariant);
    assert_eq!(registry.get("qwen3.").unwrap_err(), RegistryError::UnknownVariant);
    assert_eq!(registry.get("").unwrap_err(), RegistryError::UnknownArchitecture);
}

#[test]
fn unconfigured_family_is_unsupported() {
    let mut qwen3 = Variants::new();
    qwen3.insert("8b_base".to_string(), raw("Qwen/Qwen3-8B", "model.safetensors", None, true));
    let registry = ModelRegistry::new(ModelRegistryRaw { qwen3, llama: None });
    assert_eq!(registry.get("llama").unwrap_err(), RegistryError::UnsupportedArchitecture);
    assert_eq!(registry.get("llama.8b").unwrap_err(), RegistryError::UnsupportedArchitecture);
    assert!(registry.llama.is_none());
}

#[test]
fn base_and_quantized_share_tokenizer() {
    let mut qwen3 = Variants::new();
    qwen3.insert("4b_base".to_string(), raw("Org/M4B", "model.safetensors", None, false));
    qwen3.insert("4b_q4".to_string(), raw("Org/M4B-Q4", "model.safetensors", None, false));
    let registry = ModelRegistry::new(ModelRegistryRaw { qwen3, llama: None });
    assert_eq!(registry.get("qwen3.4b_base").unwrap().tokenizer_repo, "Org/M4B");
    assert_eq!(registry.get("qwen3.4b_q4").unwrap().tokenizer_repo, "Org/M4B");
}

#[test]
fn variant_without_base_uses_own_model_repo() {
    let mut qwen3 = Variants::new();
    qwen3.insert("4b_base".to_string(), raw("Org/M4B", "model.safetensors", None, false));
    qwen3.insert("14b_q8".to_string(), raw("Org/M14B-Q8", "model.safetensors", None, false));
    qwen3.insert("solo".to_string(), raw("Org/Solo", "model.safetensors", None, false));
    let registry = ModelRegistry::new(ModelRegistryRaw { qwen3, llama: None });
    assert_eq!(registry.get("qwen3.14b_q8").unwrap().tokenizer_repo, "Org/M14B-Q8");
    assert_eq!(registry.get("qwen3.solo").unwrap().tokenizer_repo, "Org/Solo");
}

#[test]
fn configured_tokenizer_is_kept() {
    let mut qwen3 = Variants::new();
    qwen3.insert("4b_base".to_string(), raw("Org/M4B", "model.safetensors", Some("Org/Tok"), false));
    qwen3.insert("4b_q4".to_string(), raw("Org/M4B-Q4", "model.safetensors", Some("Org/Other"), false));
    qwen3.insert("4b_q8".to_string(), raw("Org/M4B-Q8", "model.safetensors", None, false));
    let registry = ModelRegistry::new(ModelRegistryRaw { qwen3, llama: None });
    assert_eq!(registry.get("qwen3.4b_base").unwrap().tokenizer_repo, "Org/Tok");
    assert_eq!(registry.get("qwen3.4b_q4").unwrap().tokenizer_repo, "Org/Other");
    assert_eq!(registry.get("qwen3.4b_q8").unwrap().tokenizer_repo, "Org/Tok");
}

#[test]
fn multi_segment_variant_strips_last_segment() {
    let mut llama = Variants::new();
    llama.insert("8b_deepseek_r1_q4".to_string(), raw("Org/DS-Q4", "model.safetensors", None, false));
    llama.insert("8b_deepseek_r1_base".to_string(), raw("Org/DS", "model.safetensors", None, false));
    let mut qwen3 = Variants::new();
    qwen3.insert("x".to_string(), raw("Org/X", "model.safetensors", None, true));
    let registry = ModelRegistry::new(ModelRegistryRaw { qwen3, llama: Some(llama) });
    assert_eq!(registry.get("llama.8b_deepseek_r1_q4").unwrap().tokenizer_repo, "Org/DS");
}

#[test]
fn bare_family_resolves_to_its_default() {
    let mut qwen3 = Variants::new();
    qwen3.insert("a".to_string(), raw("Org/A", "model.safetensors", None, false));
    qwen3.insert("b".to_string(), raw("Org/B", "model.safetensors", None, true));
    let mut llama = Variants::new();
    llama.insert("c".to_string(), raw("Org/C", "model.safetensors", None, false));
    let registry = ModelRegistry::new(ModelRegistryRaw { qwen3, llama: Some(llama) });
    assert_eq!(registry.get("qwen3").unwrap().model_repo, "Org/B");
    assert_eq!(registry.get("llama").unwrap_err(), RegistryError::NoDefaultAvailable);
}

#[test]
fn first_declared_default_wins() {
    let mut qwen3 = Variants::new();
    qwen3.insert("a".to_string(), raw("Org/A", "model.safetensors", None, true));
    qwen3.insert("b".to_string(), raw("Org/B", "model.safetensors", None, true));
    let registry = ModelRegistry::new(ModelRegistryRaw { qwen3, llama: None });
    assert_eq!(registry.get("qwen3").unwrap().model_repo, "Org/A");
}

#[test]
fn variant_token_may_hold_dots() {
    let mut qwen3 = Variants::new();
    qwen3.insert("v1.5_q4".to_string(), raw("Org/V15", "model.safetensors", None, false));
    let registry = ModelRegistry::new(ModelRegistryRaw { qwen3, llama: None });
    assert_eq!(registry.get("qwen3.v1.5_q4").unwrap().model_repo, "Org/V15");
}

#[test]
fn insert_replaces_same_name() {
    let mut v = Variants::new();
    v.insert("a".to_string(), 1u32);
    v.insert("b".to_string(), 2u32);
    v.insert("a".to_string(), 3u32);
    assert_eq!(v.len(), 2);
    assert_eq!(v.get("a"), Some(&3));
    assert_eq!(v.name_at(0), "a");
    assert_eq!(v.get("c"), None);
}

#[test]
fn arch_names_round_trip() {
    assert_eq!(ModelArch::from_name("qwen3"), Some(ModelArch::Qwen3));
    assert_eq!(ModelArch::from_name("llama"), Some(ModelArch::Llama));
    assert_eq!(ModelArch::from_name("LLAMA"), None);
    assert_eq!(ModelArch::Qwen3.name(), "qwen3");
    assert_eq!(ModelArch::Llama.name(), "llama");
    assert_eq!(textgen::hub::default_model_file(), "model.safetensors");
}
