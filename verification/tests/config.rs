use tootoo::config::{ConfigError, Settings};

fn empty() -> Settings {
    Settings {
        database_url: None,
        supabase_url: None,
        supabase_service_role_key: None,
        anthropic_api_key: None,
        openai_api_key: None,
        sentry_dsn: None,
        data_provider_base_url: None,
        data_provider_api_key: None,
    }
}

#[test]
fn required_settings_are_reported_when_missing() {
    let s = empty();
    assert_eq!(s.require_database_url(), Err(ConfigError::MissingDatabaseUrl));
    assert_eq!(s.require_anthropic_api_key(), Err(ConfigError::MissingAnthropicApiKey));
    assert_eq!(s.require_data_provider_base_url(), Err(ConfigError::MissingDataProviderBaseUrl));
    assert_eq!(ConfigError::MissingDatabaseUrl.message(), "DATABASE_URL is required");
    assert_eq!(ConfigError::MissingAnthropicApiKey.message(), "ANTHROPIC_API_KEY is required");
    assert_eq!(
        ConfigError::MissingDataProviderBaseUrl.message(),
        "DATA_PROVIDER_BASE_URL is required"
    );
}

#[test]
fn required_settings_are_handed_out_when_given() {
    let mut s = empty();
    s.database_url = Some("postgres://db".to_string());
    s.anthropic_api_key = Some("key".to_string());
    s.data_provider_base_url = Some("https://data".to_string());
    assert_eq!(s.require_database_url(), Ok("postgres://db"));
    assert_eq!(s.require_anthropic_api_key(), Ok("key"));
    assert_eq!(s.require_data_provider_base_url(), Ok("https://data"));
}
