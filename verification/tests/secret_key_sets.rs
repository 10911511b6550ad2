use keyset_config::{SecretValues, SecretsConfigEnum};

const TEST_SECRET_VAR: &str = "TEST_SECRET_VAR";
const TEST_SECRET_VAR_1: &str = "TEST_SECRET_VAR_1";
const TEST_SECRET_VAR_2: &str = "TEST_SECRET_VAR_2";
const TEST_SECRET_VAR_SINGLE: &str = "TEST_SECRET_VAR_SINGLE";

#[derive(Debug, PartialEq, Eq, Hash, Clone)]
pub enum TestConfig {
    TestVar1,
    TestVar2,
}

impl SecretsConfigEnum for TestConfig {
    fn as_str(&self) -> &'static str {
        match *self {
            TestConfig::TestVar1 => TEST_SECRET_VAR_1,
            TestConfig::TestVar2 => TEST_SECRET_VAR_2,
        }
    }

    fn value_list() -> Vec<Self> {
        [TestConfig::TestVar1, TestConfig::TestVar2].to_vec()
    }
}

#[derive(Debug, PartialEq, Eq, Hash, Clone)]
pub enum EmptyConfig {}

impl SecretsConfigEnum for EmptyConfig {
    fn as_str(&self) -> &'static str {
        match *self {}
    }

    fn value_list() -> Vec<Self> {
        [].to_vec()
    }
}

#[derive(Debug, PartialEq, Eq, Hash, Clone)]
pub enum SingleConfig {
    SingleVar,
}

impl SecretsConfigEnum for SingleConfig {
    fn as_str(&self) -> &'static str {
        match *self {
            SingleConfig::SingleVar => TEST_SECRET_VAR_SINGLE,
        }
    }

    fn value_list() -> Vec<Self> {
        [SingleConfig::SingleVar].to_vec()
    }
}

#[test]
fn test_define_env_variable() {
    assert_eq!(TEST_SECRET_VAR, "TEST_SECRET_VAR");
}

#[test]
fn test_define_env_config() {
    assert_eq!(TestConfig::TestVar1.as_str(), "TEST_SECRET_VAR_1");
    assert_eq!(TestConfig::TestVar2.as_str(), "TEST_SECRET_VAR_2");

    let expected_list = vec![TestConfig::TestVar1, TestConfig::TestVar2];
    assert_eq!(TestConfig::value_list(), expected_list);
}

#[test]
fn test_env_variables_with_macros() {
    let mut env_map: Vec<(&'static str, String)> = Vec::new();
    env_map.push((TEST_SECRET_VAR_1, String::from("value1")));
    env_map.push((TEST_SECRET_VAR_2, String::from("value2")));

    let env_variables: SecretValues<TestConfig> = SecretValues::from(env_map);

    assert_eq!(env_variables.get(&TestConfig::TestVar1).unwrap(), "value1");
    assert_eq!(env_variables.get(&TestConfig::TestVar2).unwrap(), "value2");
}

#[test]
fn test_define_env_config_empty() {
    let expected_list: Vec<EmptyConfig> = vec![];
    assert_eq!(EmptyConfig::value_list(), expected_list);
}

#[test]
fn test_define_env_config_single() {
    assert_eq!(SingleConfig::SingleVar.as_str(), "TEST_SECRET_VAR_SINGLE");

    let expected_list = vec![SingleConfig::SingleVar];
    assert_eq!(SingleConfig::value_list(), expected_list);
}
