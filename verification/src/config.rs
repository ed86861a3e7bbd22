//! The settings of a deployment.

use vstd::prelude::*;
use vstd::string::StringExecFns;

verus! {

/// What the surroundings configure. A value that was not given is `None`.
#[derive(Debug, Clone)]
pub struct Settings {
    pub database_url: Option<String>,
    pub supabase_url: Option<String>,
    pub supabase_service_role_key: Option<String>,
    pub anthropic_api_key: Option<String>,
    pub openai_api_key: Option<String>,
    pub sentry_dsn: Option<String>,
    pub data_provider_base_url: Option<String>,
    pub data_provider_api_key: Option<String>,
}

/// A setting that is required and was not given.
#[derive(Clone, Copy, Debug, PartialEq, Eq, Structural)]
pub enum ConfigError {
    MissingDatabaseUrl,
    MissingAnthropicApiKey,
    MissingDataProviderBaseUrl,
}

/// The text of a setting that is required: the view of the value, and an error where
/// there is none.
pub open spec fn required(value: Option<String>, missing: ConfigError) -> Result<
    Seq<char>,
    ConfigError,
> {
    match value {
        Some(s) => Ok(s@),
        None => Err(missing),
    }
}

/// What [`ConfigError::message`] says of each error.
pub open spec fn config_error_text(e: ConfigError) -> Seq<char> {
    match e {
        ConfigError::MissingDatabaseUrl => "DATABASE_URL is required"@,
        ConfigError::MissingAnthropicApiKey => "ANTHROPIC_API_KEY is required"@,
        ConfigError::MissingDataProviderBaseUrl => "DATA_PROVIDER_BASE_URL is required"@,
    }
}

impl ConfigError {
    /// The error in words.
    pub fn message(&self) -> (r: String)
        ensures
            r@ == config_error_text(*self),
    {
        match self {
            ConfigError::MissingDatabaseUrl => String::from_str("DATABASE_URL is required"),
            ConfigError::MissingAnthropicApiKey => String::from_str(
                "ANTHROPIC_API_KEY is required",
            ),
            ConfigError::MissingDataProviderBaseUrl => String::from_str(
                "DATA_PROVIDER_BASE_URL is required",
            ),
        }
    }
}

/// The text in `value`, or `missing` where there is none.
fn require<'a>(value: &'a Option<String>, missing: ConfigError) -> (r: Result<&'a str, ConfigError>)
    ensures
        match r {
            Ok(s) => required(*value, missing) == Ok::<Seq<char>, ConfigError>(s@),
            Err(e) => required(*value, missing) == Err::<Seq<char>, ConfigError>(e),
        },
{
    match value {
        Some(s) => Ok(s.as_str()),
        None => Err(missing),
    }
}

impl Settings {
    /// The database URL, which every program that stores anything needs.
    pub fn require_database_url(&self) -> (r: Result<&str, ConfigError>)
        ensures
            match r {
                Ok(s) => required(self.database_url, ConfigError::MissingDatabaseUrl) == Ok::<
                    Seq<char>,
                    ConfigError,
                >(s@),
                Err(e) => self.database_url is None && e == ConfigError::MissingDatabaseUrl,
            },
    {
        require(&self.database_url, ConfigError::MissingDatabaseUrl)
    }

    /// The key of the model provider.
    pub fn require_anthropic_api_key(&self) -> (r: Result<&str, ConfigError>)
        ensures
            match r {
                Ok(s) => required(self.anthropic_api_key, ConfigError::MissingAnthropicApiKey)
                    == Ok::<Seq<char>, ConfigError>(s@),
                Err(e) => self.anthropic_api_key is None && e
                    == ConfigError::MissingAnthropicApiKey,
            },
    {
        require(&self.anthropic_api_key, ConfigError::MissingAnthropicApiKey)
    }

    /// The base URL of the market-data provider.
    pub fn require_data_provider_base_url(&self) -> (r: Result<&str, ConfigError>)
        ensures
            match r {
                Ok(s) => required(
                    self.data_provider_base_url,
                    ConfigError::MissingDataProviderBaseUrl,
                ) == Ok::<Seq<char>, ConfigError>(s@),
                Err(e) => self.data_provider_base_url is None && e
                    == ConfigError::MissingDataProviderBaseUrl,
            },
    {
        require(&self.data_provider_base_url, ConfigError::MissingDataProviderBaseUrl)
    }
}

} // verus!
