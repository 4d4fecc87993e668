use llm_tui_assistant::config::{validate_llm_provider, AppConfig};
use llm_tui_assistant::types::{ConfigError, LlmProvider, ProviderType};

fn create_invalid_llm_provider() -> LlmProvider {
    LlmProvider {
        provider_type: ProviderType::OpenAi,
        api_key: "".to_string(),
        model: "gpt-4".to_string(),
        base_url: Some("invalid-url".to_string()),
        max_tokens: Some(0),
        temperature: Some(3000),
    }
}

#[test]
fn test_app_config_default() {
    let config = AppConfig::default();
    assert!(config.llm_provider.is_none());
    assert!(config.global_system_prompt.is_none());
    assert!(!config.rag_enabled_default);
    assert!(!config.provisional_mode_default);
    assert!(config.data_sources.is_empty());
    assert!(!config.include_patterns.is_empty());
    assert!(!config.exclude_patterns.is_empty());
    assert_eq!(config.conversation_storage_path, "conversations");
}

#[test]
fn test_llm_provider_validation_valid() {
    let provider = LlmProvider {
        provider_type: ProviderType::OpenAi,
        api_key: "valid-key".to_string(),
        model: "gpt-4".to_string(),
        base_url: Some("https://api.openai.com".to_string()),
        max_tokens: Some(4000),
        temperature: Some(700),
    };
    assert!(validate_llm_provider(&provider).is_ok());
}

#[test]
fn test_llm_provider_validation_invalid_api_key() {
    let mut provider = create_invalid_llm_provider();
    provider.api_key = "".to_string();
    let result = validate_llm_provider(&provider);
    assert!(result.is_err());
    assert!(result.unwrap_err().message().contains("API key cannot be empty"));
}

#[test]
fn test_llm_provider_validation_invalid_model() {
    let mut provider = create_invalid_llm_provider();
    provider.api_key = "valid-key".to_string();
    provider.model = "".to_string();
    let result = validate_llm_provider(&provider);
    assert!(result.is_err());
    assert!(result.unwrap_err().message().contains("model name cannot be empty"));
}

#[test]
fn test_llm_provider_validation_invalid_base_url() {
    let mut provider = create_invalid_llm_provider();
    provider.api_key = "valid-key".to_string();
    provider.model = "gpt-4".to_string();
    provider.base_url = Some("invalid-url".to_string());
    let result = validate_llm_provider(&provider);
    assert!(result.is_err());
    assert!(result.unwrap_err().message().contains("must start with http"));
}

#[test]
fn test_llm_provider_validation_invalid_temperature() {
    let mut provider = create_invalid_llm_provider();
    provider.api_key = "valid-key".to_string();
    provider.model = "gpt-4".to_string();
    provider.base_url = None;
    provider.max_tokens = Some(1000);
    provider.temperature = Some(3000);
    let result = validate_llm_provider(&provider);
    assert!(result.is_err());
    assert!(result.unwrap_err().message().contains("temperature must be between"));
}

#[test]
fn test_llm_provider_validation_invalid_max_tokens() {
    let mut provider = create_invalid_llm_provider();
    provider.api_key = "valid-key".to_string();
    provider.model = "gpt-4".to_string();
    provider.base_url = None;
    provider.temperature = Some(700);
    provider.max_tokens = Some(0);
    let result = validate_llm_provider(&provider);
    assert!(result.is_err());
    assert!(result.unwrap_err().message().contains("max_tokens must be greater than 0"));
}

#[test]
fn test_config_validation_with_invalid_patterns() {
    let mut config = AppConfig::default();
    config.include_patterns.push("[invalid".to_string());
    let exists = vec![false; config.data_sources.len()];
    let result = config.validate(&exists);
    assert!(result.is_err());
    assert!(result.unwrap_err().message().contains("Invalid include pattern"));
}

#[test]
fn test_config_validation_removes_nonexistent_sources() {
    let mut config = AppConfig::default();
    config.data_sources.push("/nonexistent/path".to_string());
    config.data_sources.push("/tmp".to_string());
    let exists: Vec<bool> = config
        .data_sources
        .iter()
        .map(|p| std::path::Path::new(p).exists())
        .collect();
    let result = config.validate(&exists);
    assert!(result.is_ok());
    assert!(!config.data_sources.contains(&"/nonexistent/path".to_string()));
}

#[test]
fn config_blank_key_is_rejected() {
    let mut provider = create_invalid_llm_provider();
    provider.api_key = "   ".to_string();
    match validate_llm_provider(&provider) {
        Err(ConfigError::Validation(m)) => assert_eq!(m, "LLM provider API key cannot be empty"),
        _ => panic!("expected a validation error"),
    }
}

#[test]
fn config_empty_storage_path_is_mended() {
    let mut config = AppConfig::default();
    config.conversation_storage_path = String::new();
    assert!(config.validate(&vec![]).is_ok());
    assert_eq!(config.conversation_storage_path, "conversations");
}

#[test]
fn config_pattern_edits() {
    let mut config = AppConfig::default();
    let p = r"\.test$".to_string();
    assert_eq!(config.add_include_pattern(p.clone()).unwrap(), true);
    assert_eq!(config.add_include_pattern(p.clone()).unwrap(), false);
    assert!(config.include_patterns.contains(&p));
    config.remove_include_pattern(&p);
    assert!(!config.include_patterns.contains(&p));
    assert!(config.add_exclude_pattern("[invalid".to_string()).is_err());
    assert!(config.add_data_source("/tmp/test".to_string()));
    assert!(!config.add_data_source("/tmp/test".to_string()));
    config.remove_data_source(&"/tmp/test".to_string());
    assert!(config.data_sources.is_empty());
}
