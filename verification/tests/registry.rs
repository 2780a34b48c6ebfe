use fuse::model::registry::huggingface::{cache_dir_name, gguf_files, range_header, HfDownloadOptions, HfFileInfo, HfModelInfo, HfModelRegistry};
use fuse::model::registry::ollama::{blob_file_name, OllamaLayer, OllamaManifest, OllamaModelRef, OllamaRegistry};

#[test]
fn test_parse_model_ref() {
    let m = OllamaModelRef::parse("llama3.2:7b");
    assert_eq!(m.name, "llama3.2");
    assert_eq!(m.tag, "7b");
    assert_eq!(m.full_ref(), "llama3.2:7b");
}

#[test]
fn test_parse_model_ref_no_tag() {
    let m = OllamaModelRef::parse("mistral");
    assert_eq!(m.name, "mistral");
    assert_eq!(m.tag, "latest");
}

#[test]
fn parse_model_ref_splits_at_first_colon_only() {
    let m = OllamaModelRef::parse("a:b:c");
    assert_eq!(m.name, "a");
    assert_eq!(m.tag, "b:c");
    let m = OllamaModelRef::parse(":x");
    assert_eq!(m.name, "");
    assert_eq!(m.tag, "x");
}

#[test]
fn test_manifest_model_layer() {
    let manifest = OllamaManifest {
        schema_version: Some(2),
        layers: vec![
            OllamaLayer {
                digest: "sha256:abc".to_string(),
                size: 100,
                media_type: "application/vnd.ollama.image.template".to_string(),
            },
            OllamaLayer {
                digest: "sha256:def".to_string(),
                size: 4_000_000_000,
                media_type: "application/vnd.ollama.image.model".to_string(),
            },
        ],
    };
    let layer = manifest.model_layer().unwrap();
    assert_eq!(layer.digest, "sha256:def");
    assert_eq!(layer.size, 4_000_000_000);
}

#[test]
fn manifest_without_model_layer() {
    let manifest = OllamaManifest { schema_version: None, layers: vec![] };
    assert!(manifest.model_layer().is_none());
}

#[test]
fn test_model_cache_dir() {
    let model_ref = OllamaModelRef::parse("llama3.2:7b");
    assert_eq!(model_ref.cache_dir_name(), "ollama-llama3.2-7b");
    assert_eq!(cache_dir_name("TheBloke/Llama-2-7B-GGUF"), "TheBloke--Llama-2-7B-GGUF");
}

#[test]
fn ollama_urls_and_blob_names() {
    let m = OllamaModelRef::parse("mistral");
    assert_eq!(m.manifest_url(), "https://registry.ollama.ai/v2/library/mistral/manifests/latest");
    assert_eq!(m.blob_url("sha256:ab"), "https://registry.ollama.ai/v2/library/mistral/blobs/sha256:ab");
    assert_eq!(blob_file_name("sha256:ab:cd"), "sha256-ab-cd");
}

#[test]
fn hf_download_options() {
    let opts = HfDownloadOptions {
        repo_id: "test/model".to_string(),
        filename: Some("tiny.gguf".to_string()),
        revision: None,
        auth_token: Some("tok".to_string()),
        resume: true,
    };
    assert_eq!(opts.url(), "https://huggingface.co/test/model/resolve/main/tiny.gguf");
    assert_eq!(opts.partial_name(), "tiny.gguf.partial");
    assert_eq!(opts.authorization(), Some("Bearer tok".to_string()));
    assert_eq!(range_header(1234), "bytes=1234-");
    let bare = HfDownloadOptions { repo_id: "r".to_string(), filename: None, revision: Some("dev".to_string()), auth_token: None, resume: false };
    assert_eq!(bare.url(), "https://huggingface.co/r/resolve/dev/model.gguf");
    assert_eq!(bare.authorization(), None);
}

#[test]
fn test_list_gguf_files_parsing() {
    let info = HfModelInfo {
        model_id: "test/model".to_string(),
        siblings: Some(vec![
            HfFileInfo { filename: "model-q4.gguf".to_string(), size: Some(1000), lfs: None },
            HfFileInfo { filename: "config.json".to_string(), size: Some(100), lfs: None },
            HfFileInfo { filename: "model-q8.gguf".to_string(), size: Some(2000), lfs: None },
        ]),
        tags: None,
    };
    let files = gguf_files(info);
    assert_eq!(files.len(), 2);
    assert_eq!(files[0].filename, "model-q4.gguf");
    assert_eq!(files[1].filename, "model-q8.gguf");
}

#[test]
fn huggingface_test_model_cache_dir() {
    let registry = HfModelRegistry::new("/cache");
    let dir = registry.model_cache_dir("TheBloke/Llama-2-7B-GGUF");
    assert_eq!(dir, "/cache/TheBloke--Llama-2-7B-GGUF");
}

#[test]
fn ollama_test_model_cache_dir() {
    let registry = OllamaRegistry::new("/cache");
    let model_ref = OllamaModelRef::parse("llama3.2:7b");
    let dir = registry.model_cache_dir(&model_ref);
    assert_eq!(dir, "/cache/ollama-llama3.2-7b");
}
