//! The ways in which loading, reading or narrowing a configuration fails.

use vstd::prelude::*;

verus! {

/// A failure of this library. The last two variants are faults of the
/// library itself: a container that lacks one of its own keys. The others
/// name something that the caller can correct in the environment, the secret
/// or a key-set.
#[derive(Debug, PartialEq, Eq)]
pub enum ConfigError {
    /// The environment holds no value under a name that a key-set requires.
    MissingEnvVariable { missing_var: String },
    /// A narrower key-set requires a name that the wider container lacks.
    InvalidEnvCloneInto { missing_var: String },
    /// The call to the secret store failed.
    FailedToFetchSecretsJson { secret_id: String, region: String, cause: String },
    /// The secret holds no JSON object of strings: it has no text, or its
    /// text is none.
    SecretsInvalidJson { secret_id: String, region: String },
    /// The secret's object lacks a field that a key-set requires.
    MissingSecretKey { secret_id: String, region: String, missing_key: String },
    /// A narrower key-set requires a secret that the wider container lacks.
    InvalidSecretsCloneInto { missing_secret: String },
    /// A container of environment values lacks the name of one of its keys.
    EnvVariableNotLoaded { key: String },
    /// A container of secrets lacks the name of one of its keys.
    SecretNotLoaded { key: String },
}

/// How the sentence starts that tells of a container of environment values
/// without one of its keys.
pub const ENV_VARIABLE_NOT_LOADED: &'static str =
    "Should be guaranteed any ENV variable EnvConfig::key is present in \
     EnvVariables<EnvConfig>, but EnvConfig::";

/// How the sentence starts that tells of a container of secrets without one
/// of its keys.
pub const SECRET_NOT_LOADED: &'static str =
    "Should be guaranteed any secret key SecretsConfig::key is present in \
     SecretValues<SecretsConfig>, but SecretsConfig::";

/// A `ConfigError` with each string taken as its sequence of characters.
pub enum ConfigErrorView {
    MissingEnvVariable { missing_var: Seq<char> },
    InvalidEnvCloneInto { missing_var: Seq<char> },
    FailedToFetchSecretsJson { secret_id: Seq<char>, region: Seq<char>, cause: Seq<char> },
    SecretsInvalidJson { secret_id: Seq<char>, region: Seq<char> },
    MissingSecretKey { secret_id: Seq<char>, region: Seq<char>, missing_key: Seq<char> },
    InvalidSecretsCloneInto { missing_secret: Seq<char> },
    EnvVariableNotLoaded { key: Seq<char> },
    SecretNotLoaded { key: Seq<char> },
}

impl ConfigErrorView {
    /// Whether the error reports a fault that no configuration can cause.
    pub open spec fn is_critical(self) -> bool {
        self is EnvVariableNotLoaded || self is SecretNotLoaded
    }

    /// The sentence that describes the error. The cause of a failed fetch is
    /// kept beside the sentence, not in it.
    pub open spec fn message(self) -> Seq<char> {
        match self {
            ConfigErrorView::MissingEnvVariable { missing_var } => {
                "Missing environment variable '"@ + missing_var + "'."@
            },
            ConfigErrorView::InvalidEnvCloneInto { missing_var } => {
                "Invalid clone_into(...). Parent config missing key '"@ + missing_var + "'."@
            },
            ConfigErrorView::FailedToFetchSecretsJson { secret_id, region, .. } => {
                "Failed to fetch secret '"@ + secret_id + "' (region '"@ + region
                    + "') from Amazon Secrets Manager."@
            },
            ConfigErrorView::SecretsInvalidJson { secret_id, region } => {
                "Secret '"@ + secret_id + "' (region '"@ + region
                    + "')'s value is not valid JSON."@
            },
            ConfigErrorView::MissingSecretKey { secret_id, region, missing_key } => {
                "Secret '"@ + secret_id + "' (region '"@ + region + "') missing key '"@
                    + missing_key + "'."@
            },
            ConfigErrorView::InvalidSecretsCloneInto { missing_secret } => {
                "Invalid clone_into(...). Parent config missing secret '"@ + missing_secret
                    + "'."@
            },
            ConfigErrorView::EnvVariableNotLoaded { key } => {
                ENV_VARIABLE_NOT_LOADED@ + key + " is missing."@
            },
            ConfigErrorView::SecretNotLoaded { key } => {
                SECRET_NOT_LOADED@ + key + " is missing."@
            },
        }
    }
}

impl View for ConfigError {
    type V = ConfigErrorView;

    open spec fn view(&self) -> ConfigErrorView {
        match *self {
            ConfigError::MissingEnvVariable { missing_var } => {
                ConfigErrorView::MissingEnvVariable { missing_var: missing_var@ }
            },
            ConfigError::InvalidEnvCloneInto { missing_var } => {
                ConfigErrorView::InvalidEnvCloneInto { missing_var: missing_var@ }
            },
            ConfigError::FailedToFetchSecretsJson { secret_id, region, cause } => {
                ConfigErrorView::FailedToFetchSecretsJson {
                    secret_id: secret_id@,
                    region: region@,
                    cause: cause@,
                }
            },
            ConfigError::SecretsInvalidJson { secret_id, region } => {
                ConfigErrorView::SecretsInvalidJson { secret_id: secret_id@, region: region@ }
            },
            ConfigError::MissingSecretKey { secret_id, region, missing_key } => {
                ConfigErrorView::MissingSecretKey {
                    secret_id: secret_id@,
                    region: region@,
                    missing_key: missing_key@,
                }
            },
            ConfigError::InvalidSecretsCloneInto { missing_secret } => {
                ConfigErrorView::InvalidSecretsCloneInto { missing_secret: missing_secret@ }
            },
            ConfigError::EnvVariableNotLoaded { key } => {
                ConfigErrorView::EnvVariableNotLoaded { key: key@ }
            },
            ConfigError::SecretNotLoaded { key } => {
                ConfigErrorView::SecretNotLoaded { key: key@ }
            },
        }
    }
}

/// `before`, `inner` and `after` in a row.
fn enclose(before: &str, inner: &str, after: &str) -> (text: String)
    ensures
        text@ == before@ + inner@ + after@,
{
    let mut text = String::from_str(before);
    text.append(inner);
    text.append(after);
    text
}

impl ConfigError {
    /// The sentence that describes the error.
    pub fn message(&self) -> (text: String)
        ensures
            text@ == self@.message(),
    {
        match self {
            ConfigError::MissingEnvVariable { missing_var } => {
                enclose("Missing environment variable '", missing_var.as_str(), "'.")
            },
            ConfigError::InvalidEnvCloneInto { missing_var } => {
                enclose(
                    "Invalid clone_into(...). Parent config missing key '",
                    missing_var.as_str(),
                    "'.",
                )
            },
            ConfigError::FailedToFetchSecretsJson { secret_id, region, .. } => {
                let start = enclose("Failed to fetch secret '", secret_id.as_str(), "' (region '");
                enclose(start.as_str(), region.as_str(), "') from Amazon Secrets Manager.")
            },
            ConfigError::SecretsInvalidJson { secret_id, region } => {
                let start = enclose("Secret '", secret_id.as_str(), "' (region '");
                enclose(start.as_str(), region.as_str(), "')'s value is not valid JSON.")
            },
            ConfigError::MissingSecretKey { secret_id, region, missing_key } => {
                let start = enclose("Secret '", secret_id.as_str(), "' (region '");
                let middle = enclose(start.as_str(), region.as_str(), "') missing key '");
                enclose(middle.as_str(), missing_key.as_str(), "'.")
            },
            ConfigError::InvalidSecretsCloneInto { missing_secret } => {
                enclose(
                    "Invalid clone_into(...). Parent config missing secret '",
                    missing_secret.as_str(),
                    "'.",
                )
            },
            ConfigError::EnvVariableNotLoaded { key } => {
                enclose(ENV_VARIABLE_NOT_LOADED, key.as_str(), " is missing.")
            },
            ConfigError::SecretNotLoaded { key } => {
                enclose(SECRET_NOT_LOADED, key.as_str(), " is missing.")
            },
        }
    }

    /// Tells a fault of the library from an error that the caller's
    /// configuration caused.
    pub fn is_critical(&self) -> (critical: bool)
        ensures
            critical == self@.is_critical(),
    {
        match self {
            ConfigError::EnvVariableNotLoaded { .. } => true,
            ConfigError::SecretNotLoaded { .. } => true,
            _ => false,
        }
    }
}

} // verus!
