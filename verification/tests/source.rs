use fuse::model::source::{Auth, ModelSource, Provider};

#[test]
fn test_provider_base_url() {
    assert_eq!(Provider::HuggingFace.base_url(), Some("https://huggingface.co"));
    assert_eq!(Provider::Unsloth.base_url(), Some("https://unsloth.ai"));
    assert_eq!(Provider::Remote.base_url(), None);
    assert_eq!(Provider::Local.base_url(), None);
}

#[test]
fn test_provider_requires_auth() {
    assert!(Provider::HuggingFace.requires_auth());
    assert!(Provider::Unsloth.requires_auth());
    assert!(Provider::Remote.requires_auth());
    assert!(!Provider::Local.requires_auth());
}

#[test]
fn test_provider_display() {
    assert_eq!(Provider::HuggingFace.to_string(), "huggingface");
    assert_eq!(Provider::Unsloth.to_string(), "unsloth");
    assert_eq!(Provider::Remote.to_string(), "remote");
    assert_eq!(Provider::Local.to_string(), "local");
}

#[test]
fn test_provider_from_str() {
    assert_eq!("huggingface".parse::<Provider>().unwrap(), Provider::HuggingFace);
    assert_eq!("hf".parse::<Provider>().unwrap(), Provider::HuggingFace);
    assert_eq!("unsloth".parse::<Provider>().unwrap(), Provider::Unsloth);
    assert_eq!("remote".parse::<Provider>().unwrap(), Provider::Remote);
    assert_eq!("local".parse::<Provider>().unwrap(), Provider::Local);
    assert!("invalid".parse::<Provider>().is_err());
}

#[test]
fn provider_from_str_ignores_case_and_names_unknown() {
    assert_eq!("HuggingFace".parse::<Provider>().unwrap(), Provider::HuggingFace);
    assert_eq!("LOCAL".parse::<Provider>().unwrap(), Provider::Local);
    assert_eq!("bogus".parse::<Provider>().unwrap_err(), "Unknown provider: bogus");
}

#[test]
fn test_auth_is_authenticated() {
    assert!(Auth::ApiKey("key".to_string()).is_authenticated());
    assert!(Auth::BearerToken("token".to_string()).is_authenticated());
    assert!(Auth::Basic { username: "user".to_string(), password: "pass".to_string() }
        .is_authenticated());
    assert!(!Auth::NoAuth.is_authenticated());
}

#[test]
fn test_auth_to_header_value() {
    assert_eq!(Auth::ApiKey("mykey".to_string()).to_header_value(), Some("Bearer mykey".to_string()));
    assert_eq!(
        Auth::BearerToken("mytoken".to_string()).to_header_value(),
        Some("Bearer mytoken".to_string())
    );
    assert!(Auth::Basic { username: "user".to_string(), password: "pass".to_string() }
        .to_header_value()
        .unwrap()
        .starts_with("Basic "));
    assert_eq!(Auth::NoAuth.to_header_value(), None);
}

#[test]
fn basic_auth_header_is_base64_of_user_colon_password() {
    let h = Auth::Basic { username: "user".to_string(), password: "pass".to_string() }
        .to_header_value()
        .unwrap();
    assert_eq!(h, "Basic dXNlcjpwYXNz");
}

#[test]
fn test_model_source_creation() {
    let source = ModelSource::huggingface("gpt2");
    assert_eq!(source.provider, Provider::HuggingFace);
    assert_eq!(source.repository, "gpt2");
    assert_eq!(source.version, None);

    let source = ModelSource::unsloth("llama-3");
    assert_eq!(source.provider, Provider::Unsloth);
    assert_eq!(source.repository, "llama-3");

    let source = ModelSource::remote("https://example.com/model");
    assert_eq!(source.provider, Provider::Remote);
    assert_eq!(source.url, Some("https://example.com/model".to_string()));

    let source = ModelSource::local("/path/to/model");
    assert_eq!(source.provider, Provider::Local);
    assert_eq!(source.repository, "/path/to/model");
}

#[test]
fn test_model_source_with_version() {
    let source = ModelSource::huggingface("gpt2").with_version("v1.0");
    assert_eq!(source.version, Some("v1.0".to_string()));
}

#[test]
fn test_model_source_download_url() {
    let source = ModelSource::huggingface("gpt2");
    assert_eq!(source.download_url(), Some("https://huggingface.co/gpt2/resolve/main".to_string()));

    let source = ModelSource::huggingface("gpt2").with_version("v1.0");
    assert_eq!(source.download_url(), Some("https://huggingface.co/gpt2/resolve/v1.0".to_string()));

    let source = ModelSource::unsloth("llama-3");
    assert_eq!(source.download_url(), Some("https://unsloth.ai/models/llama-3".to_string()));

    let source = ModelSource::remote("https://example.com/model");
    assert_eq!(source.download_url(), Some("https://example.com/model".to_string()));

    let source = ModelSource::local("/path/to/model");
    assert_eq!(source.download_url(), None);
}

#[test]
fn test_model_source_identifier() {
    let source = ModelSource::huggingface("gpt2");
    assert_eq!(source.identifier(), "gpt2");

    let source = ModelSource::huggingface("gpt2").with_version("v1.0");
    assert_eq!(source.identifier(), "gpt2:v1.0");

    let source = ModelSource::remote("https://example.com/model");
    assert_eq!(source.identifier(), "https://example.com/model");

    let source = ModelSource::local("/path/to/model");
    assert_eq!(source.identifier(), "/path/to/model");
}

#[test]
fn test_model_source_display() {
    let source = ModelSource::huggingface("gpt2");
    assert_eq!(source.to_string(), "huggingface/gpt2");

    let source = ModelSource::huggingface("gpt2").with_version("v1.0");
    assert_eq!(source.to_string(), "huggingface/gpt2:v1.0");

    let source = ModelSource::unsloth("llama-3");
    assert_eq!(source.to_string(), "unsloth/llama-3");

    let source = ModelSource::remote("https://example.com/model");
    assert_eq!(source.to_string(), "remote:https://example.com/model");

    let source = ModelSource::local("/path/to/model");
    assert_eq!(source.to_string(), "local:/path/to/model");
}
