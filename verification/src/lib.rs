//! Typed access to named configuration values: environment variables and the
//! fields of a secret.
//!
//! A component declares the values it needs as a key-set, a fieldless enum
//! whose variants are bound to names. A container holds the value of every
//! key of one key-set and can be read with the keys of that key-set only.
//! A process loads one container for all its components and hands each
//! component a narrower container, made from the wide one with `clone_into`.
//!
//! ```text
//! #[derive(Debug, PartialEq, Eq, Hash, Clone)]
//! pub enum EnvConfig {
//!     CognitoRegion,
//!     DynamoRegion,
//! }
//!
//! impl EnvConfigEnum for EnvConfig {
//!     fn as_str(&self) -> &'static str {
//!         match *self {
//!             EnvConfig::CognitoRegion => "COGNITO_REGION",
//!             EnvConfig::DynamoRegion => "DYNAMO_REGION",
//!         }
//!     }
//!
//!     fn value_list() -> Vec<Self> {
//!         vec![EnvConfig::CognitoRegion, EnvConfig::DynamoRegion]
//!     }
//! }
//!
//! let config: EnvVariables<EnvConfig> = load_env::<EnvConfig>(&environment)?;
//! let region: &String = config.get(&EnvConfig::CognitoRegion)?;
//! let window: EnvVariables<CognitoOnly> = config.clone_into()?;
//! ```
//!
//! The functions here compute on values: the table that stands for the
//! environment and the answer of the secret store are handed in by the
//! caller.

pub mod errors;
pub mod from_env;
pub mod from_secrets;
pub mod json;
pub mod values;

pub use errors::{ConfigError, ConfigErrorView};
pub use from_env::{load_env, EnvConfigEnum, EnvVariables};
pub use from_secrets::{
    load_secrets, secrets_endpoint, secrets_from_payload, SecretFetch, SecretValues,
    SecretsConfigEnum, SecretsEndpoint, SecretsEnvConfig, SECRETS_ID, SECRETS_REGION,
};
pub use values::ValueTable;
