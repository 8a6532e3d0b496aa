use textgen::hub::{HubInfo, ModelArch, ModelType};
use textgen::loader::{
    eos_token_id, gguf_file_name, merged_gguf_path, path_from_capture, shard_names, LoadError,
    ModelLoader,
};
use textgen::text::{find_first, find_last, str_contains, str_ends_with};

fn hub(repo: &str) -> HubInfo {
    HubInfo {
        model_repo: repo.to_string(),
        model_file: "model.safetensors".to_string(),
        tokenizer_repo: repo.to_string(),
        default: false,
    }
}

#[test]
fn format_is_read_from_lowercased_repo() {
    assert_eq!(ModelLoader::model_type(&hub("Qwen/Qwen3-4B-GGUF")), ModelType::Gguf);
    assert_eq!(ModelLoader::model_type(&hub("Qwen/Qwen3-4B")), ModelType::Safetensors);
}

#[test]
fn gguf_family_is_read_from_lowercased_repo() {
    assert_eq!(ModelLoader::gguf_family(&hub("Qwen/Qwen3-4B-GGUF")), Ok(ModelArch::Qwen3));
    assert_eq!(
        ModelLoader::gguf_family(&hub("unsloth/DeepSeek-R1-Distill-Llama-8B-GGUF")),
        Err(LoadError::LlamaGgufUnsupported)
    );
    assert_eq!(ModelLoader::gguf_family(&hub("Org/Mistral-GGUF")), Err(LoadError::UnsupportedModel));
}

#[test]
fn eos_field_is_required() {
    assert_eq!(eos_token_id(Some(151645)), Ok(151645));
    assert_eq!(eos_token_id(Some((1u64 << 32) + 5)), Ok(5));
    assert_eq!(eos_token_id(None), Err(LoadError::MissingEosTokenId));
}

#[test]
fn gguf_names_and_shards() {
    assert_eq!(gguf_file_name("Qwen3-4B-Q4_K_M"), "Qwen3-4B-Q4_K_M.gguf");
    let files = vec![
        "README.md".to_string(),
        "M-Q4-00001-of-00002.gguf".to_string(),
        "config.json".to_string(),
        "M-Q4-00002-of-00002.gguf".to_string(),
    ];
    assert_eq!(
        shard_names(&files, "M-Q4"),
        vec!["M-Q4-00001-of-00002.gguf".to_string(), "M-Q4-00002-of-00002.gguf".to_string()]
    );
    assert!(shard_names(&files, "X").is_empty());
}

#[test]
fn char_searches() {
    assert_eq!(find_first("a.b.c", '.'), Some(1));
    assert_eq!(find_last("a_b_c", '_'), Some(3));
    assert_eq!(find_last("abc", '_'), None);
    assert!(str_contains("abcdef", "cde"));
    assert!(str_contains("abc", ""));
    assert!(!str_contains("abc", "abcd"));
    assert!(str_ends_with("8b_base", "_base"));
    assert!(!str_ends_with("base", "_base"));
}

#[test]
fn merged_path_is_read_from_report() {
    let report = "shards merged\n| file | size |\n|  /cache/M-Q4.gguf  | 4.2 GB |\n";
    assert_eq!(merged_gguf_path(report), Ok("/cache/M-Q4.gguf".to_string()));
    assert_eq!(merged_gguf_path("nothing here"), Err(LoadError::MergedPathNotFound));
    assert_eq!(path_from_capture(Some("  a.gguf \n".to_string())), Ok("a.gguf".to_string()));
    assert_eq!(path_from_capture(None), Err(LoadError::MergedPathNotFound));
}
