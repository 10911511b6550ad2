use keyset_config::{load_env, ConfigError, EnvConfigEnum, EnvVariables, ValueTable};

const COGNITO_REGION: &str = "COGNITO_REGION";
const COGNITO_USER_POOL_ID: &str = "COGNITO_USER_POOL_ID";
const DYNAMO_REGION: &str = "DYNAMO_REGION";
const POLLY_REGION: &str = "POLLY_REGION";

#[derive(Debug, PartialEq, Eq, Hash, Clone)]
pub enum AllVariablesConfig {
    CognitoRegion,
    CognitoUserPoolId,
    DynamoRegion,
    PollyRegion,
}

impl EnvConfigEnum for AllVariablesConfig {
    fn as_str(&self) -> &'static str {
        match *self {
            AllVariablesConfig::CognitoRegion => COGNITO_REGION,
            AllVariablesConfig::CognitoUserPoolId => COGNITO_USER_POOL_ID,
            AllVariablesConfig::DynamoRegion => DYNAMO_REGION,
            AllVariablesConfig::PollyRegion => POLLY_REGION,
        }
    }

    fn value_list() -> Vec<Self> {
        [
            AllVariablesConfig::CognitoRegion,
            AllVariablesConfig::CognitoUserPoolId,
            AllVariablesConfig::DynamoRegion,
            AllVariablesConfig::PollyRegion,
        ]
        .to_vec()
    }
}

#[derive(Debug, PartialEq, Eq, Hash, Clone)]
pub enum CognitoRegionOnlyConfig {
    CognitoRegion,
}

impl EnvConfigEnum for CognitoRegionOnlyConfig {
    fn as_str(&self) -> &'static str {
        match *self {
            CognitoRegionOnlyConfig::CognitoRegion => COGNITO_REGION,
        }
    }

    fn value_list() -> Vec<Self> {
        [CognitoRegionOnlyConfig::CognitoRegion].to_vec()
    }
}

#[derive(Debug, PartialEq, Eq, Hash, Clone)]
pub enum EmptyConfig {}

impl EnvConfigEnum for EmptyConfig {
    fn as_str(&self) -> &'static str {
        match *self {}
    }

    fn value_list() -> Vec<Self> {
        [].to_vec()
    }
}

fn environment(pairs: &[(&str, &str)]) -> ValueTable {
    ValueTable::from_pairs(
        pairs
            .iter()
            .map(|(name, value)| (name.to_string(), value.to_string()))
            .collect(),
    )
}

#[test]
fn test_env_variable_as_str() {
    assert_eq!(AllVariablesConfig::CognitoRegion.as_str(), "COGNITO_REGION");
    assert_eq!(AllVariablesConfig::DynamoRegion.as_str(), "DYNAMO_REGION");
    assert_eq!(AllVariablesConfig::PollyRegion.as_str(), "POLLY_REGION");
}

#[test]
fn test_load_config_partial_valid() {
    let env = environment(&[("COGNITO_REGION", "us-west-2")]);
    assert!(!env.contains_key("COGNITO_USER_POOL_ID"));
    assert!(!env.contains_key("DYNAMO_REGION"));
    assert!(!env.contains_key("POLLY_REGION"));

    let expected_config =
        ValueTable::from_named(vec![(COGNITO_REGION, String::from("us-west-2"))]);
    let config = load_env::<CognitoRegionOnlyConfig>(&env).unwrap();
    assert_eq!(*config.values(), expected_config);
}

#[test]
fn test_load_config_partial_invalid() {
    let env = environment(&[("COGNITO_REGION", "us-west-2")]);
    assert!(!env.contains_key("COGNITO_USER_POOL_ID"));
    assert!(!env.contains_key("DYNAMO_REGION"));
    assert!(!env.contains_key("POLLY_REGION"));

    let config = load_env::<AllVariablesConfig>(&env);
    assert!(config.is_err());
}

#[test]
fn test_load_config_var_not_set() {
    let env = environment(&[]);
    assert!(!env.contains_key("COGNITO_REGION"));

    let config = load_env::<CognitoRegionOnlyConfig>(&env);
    assert!(config.is_err());
}

#[test]
fn test_load_config_empty() {
    let config = load_env::<EmptyConfig>(&environment(&[])).unwrap();
    assert_eq!(*config.values(), ValueTable::new());
}

#[test]
fn test_subset_valid() {
    let input_map: Vec<(&'static str, String)> = vec![
        (COGNITO_REGION, String::from("us-west-2")),
        (COGNITO_USER_POOL_ID, String::from("pool-id")),
        (DYNAMO_REGION, String::from("us-west-2")),
        (POLLY_REGION, String::from("us-east-1")),
    ];

    let env_variables: EnvVariables<AllVariablesConfig> = EnvVariables::from(input_map);
    let subset: EnvVariables<CognitoRegionOnlyConfig> = env_variables.clone_into().unwrap();

    assert_eq!(
        subset.get(&CognitoRegionOnlyConfig::CognitoRegion).unwrap(),
        "us-west-2"
    );
}

#[test]
fn test_subset_invalid() {
    let input_map: Vec<(&'static str, String)> = vec![
        (COGNITO_USER_POOL_ID, String::from("pool-id")),
        (DYNAMO_REGION, String::from("us-west-2")),
    ];

    let env_variables: EnvVariables<AllVariablesConfig> = EnvVariables::from(input_map);
    let subset_result = env_variables.clone_into::<CognitoRegionOnlyConfig>();

    assert!(subset_result.is_err());
}

#[test]
fn test_subset_empty() {
    let input_map: Vec<(&'static str, String)> =
        vec![(COGNITO_REGION, String::from("us-west-2"))];

    let env_variables: EnvVariables<AllVariablesConfig> = EnvVariables::from(input_map);
    let subset: EnvVariables<EmptyConfig> = env_variables.clone_into().unwrap();

    assert_eq!(*subset.values(), ValueTable::new());
}

#[test]
fn test_env_variables_from_hashmap() {
    let input_map: Vec<(&'static str, String)> = vec![
        (COGNITO_REGION, String::from("us-west-2")),
        (DYNAMO_REGION, String::from("us-west-2")),
    ];

    let env_variables: EnvVariables<AllVariablesConfig> = EnvVariables::from(input_map);

    assert_eq!(
        env_variables
            .get(&AllVariablesConfig::CognitoRegion)
            .unwrap(),
        "us-west-2"
    );
    assert_eq!(
        env_variables
            .get(&AllVariablesConfig::DynamoRegion)
            .unwrap(),
        "us-west-2"
    );
}

#[test]
fn test_env_variables_get_invalid_key() {
    let input_map: Vec<(&'static str, String)> =
        vec![(COGNITO_REGION, String::from("us-west-2"))];
    let env_variables: EnvVariables<AllVariablesConfig> = EnvVariables::from(input_map);
    let result = env_variables.get(&AllVariablesConfig::PollyRegion);
    assert!(result.is_err());
    assert_eq!(
        result.unwrap_err(),
        ConfigError::EnvVariableNotLoaded {
            key: String::from("POLLY_REGION")
        }
    );
}
