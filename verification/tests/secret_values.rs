use keyset_config::{
    load_secrets, secrets_endpoint, secrets_from_payload, ConfigError, EnvConfigEnum,
    EnvVariables, SecretFetch, SecretValues, SecretsConfigEnum, SecretsEndpoint,
    SecretsEnvConfig, ValueTable, SECRETS_ID, SECRETS_REGION,
};

#[derive(Debug, PartialEq, Eq, Hash, Clone)]
pub enum OpenAiConfig {
    OpenAIKey,
}

impl SecretsConfigEnum for OpenAiConfig {
    fn as_str(&self) -> &'static str {
        match *self {
            OpenAiConfig::OpenAIKey => "OPENAI_KEY",
        }
    }

    fn value_list() -> Vec<Self> {
        [OpenAiConfig::OpenAIKey].to_vec()
    }
}

#[derive(Debug, PartialEq, Eq, Hash, Clone)]
pub enum WantsMissingKey {
    OpenAIKey,
    Missing,
    AlsoMissing,
}

impl SecretsConfigEnum for WantsMissingKey {
    fn as_str(&self) -> &'static str {
        match *self {
            WantsMissingKey::OpenAIKey => "OPENAI_KEY",
            WantsMissingKey::Missing => "MISSING_KEY",
            WantsMissingKey::AlsoMissing => "ALSO_MISSING",
        }
    }

    fn value_list() -> Vec<Self> {
        [
            WantsMissingKey::OpenAIKey,
            WantsMissingKey::Missing,
            WantsMissingKey::AlsoMissing,
        ]
        .to_vec()
    }
}

#[derive(Debug, PartialEq, Eq, Hash, Clone)]
pub enum NoSecrets {}

impl SecretsConfigEnum for NoSecrets {
    fn as_str(&self) -> &'static str {
        match *self {}
    }

    fn value_list() -> Vec<Self> {
        [].to_vec()
    }
}

#[derive(Debug, PartialEq, Eq, Hash, Clone)]
pub enum TwoSecrets {
    First,
    Second,
}

impl SecretsConfigEnum for TwoSecrets {
    fn as_str(&self) -> &'static str {
        match *self {
            TwoSecrets::First => "FIRST",
            TwoSecrets::Second => "SECOND",
        }
    }

    fn value_list() -> Vec<Self> {
        [TwoSecrets::First, TwoSecrets::Second].to_vec()
    }
}

fn endpoint() -> SecretsEndpoint {
    SecretsEndpoint {
        region: String::from("us-west-2"),
        secret_id: String::from("prod/app"),
    }
}

fn text(payload: &str) -> SecretFetch {
    SecretFetch::Text(String::from(payload))
}

#[test]
fn secrets_env_config_names_the_two_variables() {
    assert_eq!(SECRETS_REGION, "SECRETS_REGION");
    assert_eq!(SECRETS_ID, "SECRETS_ID");
    assert_eq!(SecretsEnvConfig::SecretsRegion.as_str(), "SECRETS_REGION");
    assert_eq!(SecretsEnvConfig::SecretsId.as_str(), "SECRETS_ID");
    assert_eq!(
        SecretsEnvConfig::value_list(),
        vec![SecretsEnvConfig::SecretsRegion, SecretsEnvConfig::SecretsId]
    );
}

#[test]
fn endpoint_is_read_from_the_environment_container() {
    let env: EnvVariables<SecretsEnvConfig> = EnvVariables::from(vec![
        (SECRETS_ID, String::from("prod/app")),
        (SECRETS_REGION, String::from("us-west-2")),
    ]);
    let at = secrets_endpoint(&env).unwrap();
    assert_eq!(at.region, "us-west-2");
    assert_eq!(at.secret_id, "prod/app");
}

#[test]
fn endpoint_without_region_names_the_region() {
    let env: EnvVariables<SecretsEnvConfig> =
        EnvVariables::from(vec![(SECRETS_ID, String::from("prod/app"))]);
    assert_eq!(
        secrets_endpoint(&env).err(),
        Some(ConfigError::MissingEnvVariable {
            missing_var: String::from("SECRETS_REGION")
        })
    );
}

#[test]
fn endpoint_without_anything_names_the_region_first() {
    let env: EnvVariables<SecretsEnvConfig> = EnvVariables::from(vec![]);
    assert_eq!(
        secrets_endpoint(&env).err(),
        Some(ConfigError::MissingEnvVariable {
            missing_var: String::from("SECRETS_REGION")
        })
    );
}

#[test]
fn endpoint_without_secret_id_names_the_secret_id() {
    let env: EnvVariables<SecretsEnvConfig> =
        EnvVariables::from(vec![(SECRETS_REGION, String::from("us-west-2"))]);
    assert_eq!(
        secrets_endpoint(&env).err(),
        Some(ConfigError::MissingEnvVariable {
            missing_var: String::from("SECRETS_ID")
        })
    );
}

#[test]
fn secret_payload_gives_the_declared_key() {
    let secrets =
        load_secrets::<OpenAiConfig>(&endpoint(), text("{\"OPENAI_KEY\":\"abc123\"}")).unwrap();
    assert_eq!(secrets.get(&OpenAiConfig::OpenAIKey).unwrap(), "abc123");
    assert_eq!(secrets.values().len(), 1);
}

#[test]
fn secret_payload_without_a_declared_key_fails_with_missing_key() {
    let loaded =
        load_secrets::<WantsMissingKey>(&endpoint(), text("{\"OPENAI_KEY\":\"abc123\"}"));
    assert_eq!(
        loaded.err(),
        Some(ConfigError::MissingSecretKey {
            secret_id: String::from("prod/app"),
            region: String::from("us-west-2"),
            missing_key: String::from("MISSING_KEY"),
        })
    );
}

#[test]
fn secret_payload_keeps_only_the_declared_keys() {
    let secrets = load_secrets::<OpenAiConfig>(
        &endpoint(),
        text("{ \"OTHER\": \"x\", \"OPENAI_KEY\": \"abc123\", \"MORE\": \"y\" }"),
    )
    .unwrap();
    assert_eq!(secrets.values().len(), 1);
    assert!(!secrets.values().contains_key("OTHER"));
    assert!(!secrets.values().contains_key("MORE"));
    assert_eq!(secrets.get(&OpenAiConfig::OpenAIKey).unwrap(), "abc123");
}

#[test]
fn secret_payload_with_a_repeated_field_keeps_the_later_value() {
    let secrets = load_secrets::<OpenAiConfig>(
        &endpoint(),
        text("{\"OPENAI_KEY\":\"old\",\"OPENAI_KEY\":\"new\"}"),
    )
    .unwrap();
    assert_eq!(secrets.get(&OpenAiConfig::OpenAIKey).unwrap(), "new");
}

#[test]
fn secret_payload_with_escapes_is_decoded() {
    let secrets = load_secrets::<OpenAiConfig>(
        &endpoint(),
        text("{\"OPENAI_KEY\":\"a\\\"b\\u0041\\n\"}"),
    )
    .unwrap();
    assert_eq!(secrets.get(&OpenAiConfig::OpenAIKey).unwrap(), "a\"bA\n");
}

#[test]
fn secret_text_that_is_no_json_is_an_invalid_payload() {
    let loaded = load_secrets::<OpenAiConfig>(&endpoint(), text("OPENAI_KEY=abc123"));
    assert_eq!(
        loaded.err(),
        Some(ConfigError::SecretsInvalidJson {
            secret_id: String::from("prod/app"),
            region: String::from("us-west-2"),
        })
    );
}

#[test]
fn secret_object_with_a_value_that_is_no_string_is_an_invalid_payload() {
    for payload in [
        "{\"OPENAI_KEY\":1}",
        "{\"OPENAI_KEY\":{\"nested\":\"abc123\"}}",
        "{\"OPENAI_KEY\":null}",
        "[\"OPENAI_KEY\",\"abc123\"]",
        "\"abc123\"",
        "",
        "{\"OPENAI_KEY\":\"abc123\"} trailing",
    ] {
        let loaded = load_secrets::<OpenAiConfig>(&endpoint(), text(payload));
        assert_eq!(
            loaded.err(),
            Some(ConfigError::SecretsInvalidJson {
                secret_id: String::from("prod/app"),
                region: String::from("us-west-2"),
            }),
            "payload {payload:?}"
        );
    }
}

#[test]
fn failed_fetch_carries_secret_region_and_cause() {
    let loaded = load_secrets::<OpenAiConfig>(
        &endpoint(),
        SecretFetch::Failed {
            cause: String::from("dispatch failure"),
        },
    );
    let error = loaded.err().unwrap();
    assert_eq!(
        error,
        ConfigError::FailedToFetchSecretsJson {
            secret_id: String::from("prod/app"),
            region: String::from("us-west-2"),
            cause: String::from("dispatch failure"),
        }
    );
    assert!(!error.is_critical());
}

#[test]
fn secret_without_text_is_an_invalid_payload() {
    let loaded = load_secrets::<OpenAiConfig>(&endpoint(), SecretFetch::NoText);
    let error = loaded.err().unwrap();
    assert_eq!(
        error,
        ConfigError::SecretsInvalidJson {
            secret_id: String::from("prod/app"),
            region: String::from("us-west-2"),
        }
    );
    assert!(!error.is_critical());
    assert_eq!(
        error.message(),
        "Secret 'prod/app' (region 'us-west-2')'s value is not valid JSON."
    );
}

#[test]
fn secret_without_text_fails_like_a_text_without_an_object() {
    let without_text = load_secrets::<OpenAiConfig>(&endpoint(), SecretFetch::NoText);
    let without_object = load_secrets::<OpenAiConfig>(&endpoint(), text("abc123"));
    assert_eq!(without_text.err(), without_object.err());
}

#[test]
fn empty_secret_key_set_loads_from_any_object() {
    let secrets = load_secrets::<NoSecrets>(&endpoint(), text("{\"A\":\"1\"}")).unwrap();
    assert!(secrets.values().is_empty());
    let secrets = load_secrets::<NoSecrets>(&endpoint(), text("{}")).unwrap();
    assert!(secrets.values().is_empty());
}

#[test]
fn empty_secret_key_set_still_needs_an_object() {
    let loaded = load_secrets::<NoSecrets>(&endpoint(), text("not json"));
    assert_eq!(
        loaded.err(),
        Some(ConfigError::SecretsInvalidJson {
            secret_id: String::from("prod/app"),
            region: String::from("us-west-2"),
        })
    );
    assert_eq!(
        load_secrets::<NoSecrets>(&endpoint(), SecretFetch::NoText).err(),
        Some(ConfigError::SecretsInvalidJson {
            secret_id: String::from("prod/app"),
            region: String::from("us-west-2"),
        })
    );
}

#[test]
fn payload_function_takes_the_parsed_object() {
    let object = ValueTable::from_pairs(vec![
        (String::from("SECOND"), String::from("2")),
        (String::from("FIRST"), String::from("1")),
        (String::from("THIRD"), String::from("3")),
    ]);
    let secrets = secrets_from_payload::<TwoSecrets>(&endpoint(), Some(object)).unwrap();
    assert_eq!(secrets.get(&TwoSecrets::First).unwrap(), "1");
    assert_eq!(secrets.get(&TwoSecrets::Second).unwrap(), "2");
    assert_eq!(secrets.values().len(), 2);

    let lacking = ValueTable::from_pairs(vec![(String::from("THIRD"), String::from("3"))]);
    assert_eq!(
        secrets_from_payload::<TwoSecrets>(&endpoint(), Some(lacking)).err(),
        Some(ConfigError::MissingSecretKey {
            secret_id: String::from("prod/app"),
            region: String::from("us-west-2"),
            missing_key: String::from("FIRST"),
        })
    );
    assert_eq!(
        secrets_from_payload::<TwoSecrets>(&endpoint(), None).err(),
        Some(ConfigError::SecretsInvalidJson {
            secret_id: String::from("prod/app"),
            region: String::from("us-west-2"),
        })
    );
}

#[test]
fn secret_get_on_a_container_that_lacks_the_key_is_a_critical_fault() {
    let secrets: SecretValues<TwoSecrets> =
        SecretValues::from(vec![("FIRST", String::from("1"))]);
    assert_eq!(secrets.get(&TwoSecrets::First).unwrap(), "1");
    let error = secrets.get(&TwoSecrets::Second).err().unwrap();
    assert_eq!(
        error,
        ConfigError::SecretNotLoaded {
            key: String::from("SECOND")
        }
    );
    assert!(error.is_critical());
}

#[test]
fn secrets_narrow_to_a_subset() {
    let wide: SecretValues<WantsMissingKey> = SecretValues::from(vec![
        ("OPENAI_KEY", String::from("abc123")),
        ("MISSING_KEY", String::from("m")),
        ("ALSO_MISSING", String::from("a")),
    ]);
    let narrow: SecretValues<OpenAiConfig> = wide.clone_into().unwrap();
    assert_eq!(narrow.get(&OpenAiConfig::OpenAIKey).unwrap(), "abc123");
    assert_eq!(
        narrow.get(&OpenAiConfig::OpenAIKey).unwrap(),
        wide.get(&WantsMissingKey::OpenAIKey).unwrap()
    );
    assert_eq!(narrow.values().len(), 1);
    assert_eq!(wide.values().len(), 3);
}

#[test]
fn secrets_narrowing_to_a_set_that_is_no_subset_names_the_first_missing_secret() {
    let wide: SecretValues<OpenAiConfig> =
        SecretValues::from(vec![("OPENAI_KEY", String::from("abc123"))]);
    let error = wide.clone_into::<WantsMissingKey>().err().unwrap();
    assert_eq!(
        error,
        ConfigError::InvalidSecretsCloneInto {
            missing_secret: String::from("MISSING_KEY")
        }
    );
    assert!(!error.is_critical());
}

#[test]
fn secrets_narrow_to_the_empty_key_set() {
    let wide: SecretValues<OpenAiConfig> =
        SecretValues::from(vec![("OPENAI_KEY", String::from("abc123"))]);
    let narrow: SecretValues<NoSecrets> = wide.clone_into().unwrap();
    assert!(narrow.values().is_empty());
    let nothing: SecretValues<OpenAiConfig> = SecretValues::from(vec![]);
    assert!(nothing.clone_into::<NoSecrets>().unwrap().values().is_empty());
}

#[test]
fn secret_container_clone_holds_the_same_values() {
    let secrets: SecretValues<TwoSecrets> = SecretValues::from(vec![
        ("FIRST", String::from("1")),
        ("SECOND", String::from("2")),
    ]);
    let copy = secrets.clone();
    assert_eq!(copy.get(&TwoSecrets::First).unwrap(), "1");
    assert_eq!(copy.get(&TwoSecrets::Second).unwrap(), "2");
    assert_eq!(copy.values().len(), 2);
}
