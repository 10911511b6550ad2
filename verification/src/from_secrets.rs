//! Key-sets of secrets, the containers of their values, and the loading of
//! a secret that the environment locates.

use crate::errors::{ConfigError, ConfigErrorView};
use crate::from_env::{key_names, EnvConfigEnum, EnvVariables};
use crate::json::{json_string_map, parse_string_map};
use crate::values::{
    covers, lemma_selection, lemma_selection_of_nothing, named_texts, pairs_to_map, selection,
    texts, Table, ValueTable,
};
use std::marker::PhantomData;
use vstd::prelude::*;

verus! {

/// The environment variable that names the region of the secret store.
pub const SECRETS_REGION: &'static str = "SECRETS_REGION";

/// The environment variable that names the secret.
pub const SECRETS_ID: &'static str = "SECRETS_ID";

/// The environment variables that locate the secret.
#[derive(Debug, PartialEq, Eq, Hash, Clone, Copy)]
pub enum SecretsEnvConfig {
    /// The region of the secret store.
    SecretsRegion,
    /// The name of the secret.
    SecretsId,
}

impl EnvConfigEnum for SecretsEnvConfig {
    open spec fn external_name(&self) -> Seq<char> {
        match *self {
            SecretsEnvConfig::SecretsRegion => SECRETS_REGION@,
            SecretsEnvConfig::SecretsId => SECRETS_ID@,
        }
    }

    open spec fn all_keys() -> Seq<Self> {
        seq![SecretsEnvConfig::SecretsRegion, SecretsEnvConfig::SecretsId]
    }

    fn as_str(&self) -> (name: &'static str) {
        match *self {
            SecretsEnvConfig::SecretsRegion => SECRETS_REGION,
            SecretsEnvConfig::SecretsId => SECRETS_ID,
        }
    }

    fn value_list() -> (keys: Vec<Self>) {
        let mut keys: Vec<SecretsEnvConfig> = Vec::new();
        keys.push(SecretsEnvConfig::SecretsRegion);
        keys.push(SecretsEnvConfig::SecretsId);
        keys
    }
}

/// The key-set of the two variables that locate the secret lists both, under
/// names that are not empty and differ.
pub proof fn lemma_secrets_env_config_well_declared()
    ensures
        crate::from_env::well_declared::<SecretsEnvConfig>(),
        key_names::<SecretsEnvConfig>() == seq![SECRETS_REGION@, SECRETS_ID@],
{
    reveal_strlit("SECRETS_REGION");
    reveal_strlit("SECRETS_ID");
    let names = key_names::<SecretsEnvConfig>();
    assert(names[0].len() == 14 && names[1].len() == 10);
    assert forall|key: SecretsEnvConfig| #[trigger]
        SecretsEnvConfig::all_keys().contains(key) by {
        match key {
            SecretsEnvConfig::SecretsRegion => {
                assert(SecretsEnvConfig::all_keys()[0] == key);
            },
            SecretsEnvConfig::SecretsId => {
                assert(SecretsEnvConfig::all_keys()[1] == key);
            },
        }
    }
}

/// A closed set of keys, each bound to the name of one field of the secret.
///
/// A key-set is an enum without fields: `as_str` gives the name of a
/// variant and `value_list` every variant in the order of declaration.
///
/// `external_name` and `all_keys` say in contracts what the two methods
/// return. A key-set that is declared in verified code states both; one
/// that leaves them as they are here claims no more than that the methods
/// answer the same way each time.
pub trait SecretsConfigEnum:
    core::fmt::Debug + PartialEq + Eq + core::hash::Hash + Clone + Send + Sync
{
    /// The name of the field of the secret that this key is bound to.
    open spec fn external_name(&self) -> Seq<char> {
        arbitrary::<spec_fn(Self) -> Seq<char>>()(*self)
    }

    /// Every key of the set, in the order of declaration.
    open spec fn all_keys() -> Seq<Self> {
        arbitrary()
    }

    /// The name that this key is bound to.
    fn as_str(&self) -> (name: &'static str)
        ensures
            name@ == self.external_name(),
    ;

    /// Every key of the set, in the order of declaration.
    fn value_list() -> (keys: Vec<Self>)
        ensures
            keys@ == Self::all_keys(),
    ;
}

/// The names that a key-set is bound to, in the order of its keys.
pub open spec fn secret_names<T: SecretsConfigEnum>() -> Seq<Seq<char>> {
    Seq::new(T::all_keys().len(), |i: int| T::all_keys()[i].external_name())
}

/// Whether `T` is declared as a key-set should be: every key of the type is
/// listed, no key is bound to the empty name, and no two keys to one name.
pub open spec fn well_declared<T: SecretsConfigEnum>() -> bool {
    &&& forall|key: T| #[trigger] T::all_keys().contains(key)
    &&& secret_names::<T>().no_duplicates()
    &&& forall|i: int|
        0 <= i < T::all_keys().len() ==> (#[trigger] secret_names::<T>()[i]).len() > 0
}

/// What `get` answers for `key` on a container that holds `values`.
pub open spec fn spec_get<T: SecretsConfigEnum>(
    values: Table,
    key: T,
) -> Result<Seq<char>, ConfigErrorView> {
    if values.contains_key(key.external_name()) {
        Ok(values[key.external_name()])
    } else {
        Err(ConfigErrorView::SecretNotLoaded { key: key.external_name() })
    }
}

/// What `clone_into` answers for the narrower key-set `Child` on a container
/// that holds `wide`.
pub open spec fn spec_clone_into<Child: SecretsConfigEnum>(
    wide: Table,
) -> Result<Table, ConfigErrorView> {
    match selection(wide, secret_names::<Child>()) {
        Ok(values) => Ok(values),
        Err(name) => Err(ConfigErrorView::InvalidSecretsCloneInto { missing_secret: name }),
    }
}

/// The names of a key-set, as its own methods give them.
fn name_list<T: SecretsConfigEnum>() -> (names: Vec<&'static str>)
    ensures
        texts(names@) == secret_names::<T>(),
{
    let keys = T::value_list();
    let mut names: Vec<&'static str> = Vec::new();
    let mut i: usize = 0;
    while i < keys.len()
        invariant
            i <= keys@.len(),
            keys@ == T::all_keys(),
            names@.len() == i,
            forall|j: int| 0 <= j < i ==> (#[trigger] names@[j])@ == keys@[j].external_name(),
        decreases keys@.len() - i,
    {
        let name = keys[i].as_str();
        names.push(name);
        i = i + 1;
    }
    names
}

/// The values of the secrets of the key-set `T`, by name.
///
/// A container that `load_secrets` or `clone_into` made holds a value for
/// every key of `T`. One made with `from` holds what it was given.
#[derive(Debug)]
pub struct SecretValues<T: SecretsConfigEnum> {
    values: ValueTable,
    key_set: PhantomData<T>,
}

impl<T: SecretsConfigEnum> View for SecretValues<T> {
    type V = Table;

    closed spec fn view(&self) -> Table {
        self.values@
    }
}

impl<T: SecretsConfigEnum> Clone for SecretValues<T> {
    fn clone(&self) -> (copy: Self)
        ensures
            copy@ == self@,
    {
        SecretValues { values: self.values.clone(), key_set: PhantomData }
    }
}

impl<T: SecretsConfigEnum> SecretValues<T> {
    /// The value of the secret that `key` is bound to. That the container
    /// lacks it is a fault of whoever made the container, and is reported
    /// as such.
    pub fn get(&self, key: &T) -> (value: Result<&String, ConfigError>)
        ensures
            match value {
                Ok(v) => spec_get(self@, *key) == Ok::<_, ConfigErrorView>(v@),
                Err(e) => spec_get(self@, *key) == Err::<Seq<char>, _>(e@),
            },
    {
        self.get_raw(key.as_str())
    }

    fn get_raw(&self, key: &str) -> (value: Result<&String, ConfigError>)
        ensures
            match value {
                Ok(v) => self@.contains_key(key@) && v@ == self@[key@],
                Err(e) => {
                    &&& !self@.contains_key(key@)
                    &&& e@ == (ConfigErrorView::SecretNotLoaded { key: key@ })
                },
            },
    {
        match self.values.get(key) {
            Some(value) => Ok(value),
            None => Err(ConfigError::SecretNotLoaded { key: key.to_owned() }),
        }
    }

    /// The names and values that the container holds.
    pub fn values(&self) -> (values: &ValueTable)
        ensures
            values@ == self@,
    {
        &self.values
    }

    /// The container of the narrower key-set `ChildConfig`, with the value
    /// that this container has under each of its names. Fails on the first
    /// name, in the order of `ChildConfig`'s keys, that this container lacks.
    pub fn clone_into<ChildConfig: SecretsConfigEnum>(&self) -> (narrow: Result<
        SecretValues<ChildConfig>,
        ConfigError,
    >)
        ensures
            match narrow {
                Ok(child) => spec_clone_into::<ChildConfig>(self@) == Ok::<_, ConfigErrorView>(
                    child@,
                ),
                Err(e) => spec_clone_into::<ChildConfig>(self@) == Err::<Table, _>(e@),
            },
    {
        let names = name_list::<ChildConfig>();
        match self.values.select(&names) {
            Ok(values) => Ok(SecretValues { values, key_set: PhantomData }),
            Err(name) => Err(
                ConfigError::InvalidSecretsCloneInto { missing_secret: name.to_owned() },
            ),
        }
    }
}

impl<T: SecretsConfigEnum> From<Vec<(&'static str, String)>> for SecretValues<T> {
    /// The container that holds exactly the given names with their values,
    /// whatever the keys of `T` are. Of two pairs with one name the later
    /// one counts.
    fn from(pairs: Vec<(&'static str, String)>) -> (secrets: Self)
        ensures
            secrets@ == pairs_to_map(named_texts(pairs@)),
    {
        SecretValues { values: ValueTable::from_named(pairs), key_set: PhantomData }
    }
}

impl<T: SecretsConfigEnum> vstd::std_specs::convert::FromSpecImpl<Vec<(&'static str, String)>>
    for SecretValues<T> {
    /// The order in which the pairs are kept is left open, so the container
    /// is described by its view, in the contract of `from`.
    open spec fn obeys_from_spec() -> bool {
        false
    }

    open spec fn from_spec(pairs: Vec<(&'static str, String)>) -> Self {
        arbitrary()
    }
}

/// Where the secret is kept: the region of the store and the secret's name.
#[derive(Debug)]
pub struct SecretsEndpoint {
    pub region: String,
    pub secret_id: String,
}

/// What `secrets_endpoint` answers on a container that holds `env`: the
/// region and the name of the secret.
pub open spec fn spec_secrets_endpoint(env: Table) -> Result<
    (Seq<char>, Seq<char>),
    ConfigErrorView,
> {
    if !env.contains_key(SECRETS_REGION@) {
        Err(ConfigErrorView::MissingEnvVariable { missing_var: SECRETS_REGION@ })
    } else if !env.contains_key(SECRETS_ID@) {
        Err(ConfigErrorView::MissingEnvVariable { missing_var: SECRETS_ID@ })
    } else {
        Ok((env[SECRETS_REGION@], env[SECRETS_ID@]))
    }
}

/// Where the secret is kept, as the environment says: the region first,
/// then the name of the secret.
pub fn secrets_endpoint(env: &EnvVariables<SecretsEnvConfig>) -> (endpoint: Result<
    SecretsEndpoint,
    ConfigError,
>)
    ensures
        match endpoint {
            Ok(at) => spec_secrets_endpoint(env@) == Ok::<_, ConfigErrorView>(
                (at.region@, at.secret_id@),
            ),
            Err(e) => spec_secrets_endpoint(env@) == Err::<(Seq<char>, Seq<char>), _>(e@),
        },
{
    let region = match env.get(&SecretsEnvConfig::SecretsRegion) {
        Ok(region) => region.clone(),
        Err(_) => {
            return Err(ConfigError::MissingEnvVariable { missing_var: SECRETS_REGION.to_owned() });
        },
    };
    let secret_id = match env.get(&SecretsEnvConfig::SecretsId) {
        Ok(secret_id) => secret_id.clone(),
        Err(_) => {
            return Err(ConfigError::MissingEnvVariable { missing_var: SECRETS_ID.to_owned() });
        },
    };
    Ok(SecretsEndpoint { region, secret_id })
}

/// How the one call to the secret store ended.
#[derive(Debug)]
pub enum SecretFetch {
    /// The store answered with the secret's text.
    Text(String),
    /// The store answered, and the secret has no text: there is nothing to
    /// read an object from.
    NoText,
    /// The call failed.
    Failed { cause: String },
}

/// A `SecretFetch` with each string taken as its sequence of characters.
pub enum SecretFetchView {
    Text(Seq<char>),
    NoText,
    Failed { cause: Seq<char> },
}

impl View for SecretFetch {
    type V = SecretFetchView;

    open spec fn view(&self) -> SecretFetchView {
        match *self {
            SecretFetch::Text(text) => SecretFetchView::Text(text@),
            SecretFetch::NoText => SecretFetchView::NoText,
            SecretFetch::Failed { cause } => SecretFetchView::Failed { cause: cause@ },
        }
    }
}

/// The object that an optional table stands for.
pub open spec fn payload_view(payload: Option<ValueTable>) -> Option<Table> {
    match payload {
        Some(object) => Some(object@),
        None => None,
    }
}

/// What `secrets_from_payload` answers for the key-set `T`: `payload` is the
/// object read from the secret's text, or `None` where the text holds none.
pub open spec fn spec_secrets_from_payload<T: SecretsConfigEnum>(
    region: Seq<char>,
    secret_id: Seq<char>,
    payload: Option<Table>,
) -> Result<Table, ConfigErrorView> {
    match payload {
        None => Err(ConfigErrorView::SecretsInvalidJson { secret_id, region }),
        Some(object) => match selection(object, secret_names::<T>()) {
            Ok(values) => Ok(values),
            Err(name) => Err(
                ConfigErrorView::MissingSecretKey { secret_id, region, missing_key: name },
            ),
        },
    }
}

/// What `load_secrets` answers for the key-set `T`. A secret without text
/// holds no object, as a text does that is no JSON object of strings.
pub open spec fn spec_load_secrets<T: SecretsConfigEnum>(
    region: Seq<char>,
    secret_id: Seq<char>,
    fetched: SecretFetchView,
) -> Result<Table, ConfigErrorView> {
    match fetched {
        SecretFetchView::Failed { cause } => Err(
            ConfigErrorView::FailedToFetchSecretsJson { secret_id, region, cause },
        ),
        SecretFetchView::NoText => spec_secrets_from_payload::<T>(region, secret_id, None),
        SecretFetchView::Text(text) => spec_secrets_from_payload::<T>(
            region,
            secret_id,
            json_string_map(text),
        ),
    }
}

/// The container of the key-set `T` with the value that the secret's object
/// has under each of its names. Fails where the text held no object, and on
/// the first name, in the order of `T`'s keys, that the object lacks.
pub fn secrets_from_payload<T: SecretsConfigEnum>(
    endpoint: &SecretsEndpoint,
    payload: Option<ValueTable>,
) -> (loaded: Result<SecretValues<T>, ConfigError>)
    ensures
        match loaded {
            Ok(secrets) => spec_secrets_from_payload::<T>(
                endpoint.region@,
                endpoint.secret_id@,
                payload_view(payload),
            ) == Ok::<_, ConfigErrorView>(secrets@),
            Err(e) => spec_secrets_from_payload::<T>(
                endpoint.region@,
                endpoint.secret_id@,
                payload_view(payload),
            ) == Err::<Table, _>(e@),
        },
{
    match payload {
        None => Err(
            ConfigError::SecretsInvalidJson {
                secret_id: endpoint.secret_id.clone(),
                region: endpoint.region.clone(),
            },
        ),
        Some(object) => {
            let names = name_list::<T>();
            match object.select(&names) {
                Ok(values) => Ok(SecretValues { values, key_set: PhantomData }),
                Err(name) => Err(
                    ConfigError::MissingSecretKey {
                        secret_id: endpoint.secret_id.clone(),
                        region: endpoint.region.clone(),
                        missing_key: name.to_owned(),
                    },
                ),
            }
        },
    }
}

/// The container of the key-set `T` from what the call to the secret store
/// gave: reports a failed call, reads the secret's text as a JSON object of
/// strings, and takes from it the value under each name of `T`. A secret
/// without text is an invalid payload, like a text that holds no object.
pub fn load_secrets<T: SecretsConfigEnum>(
    endpoint: &SecretsEndpoint,
    fetched: SecretFetch,
) -> (loaded: Result<SecretValues<T>, ConfigError>)
    ensures
        match loaded {
            Ok(secrets) => spec_load_secrets::<T>(endpoint.region@, endpoint.secret_id@, fetched@)
                == Ok::<_, ConfigErrorView>(secrets@),
            Err(e) => spec_load_secrets::<T>(endpoint.region@, endpoint.secret_id@, fetched@)
                == Err::<Table, _>(e@),
        },
{
    match fetched {
        SecretFetch::Failed { cause } => Err(
            ConfigError::FailedToFetchSecretsJson {
                secret_id: endpoint.secret_id.clone(),
                region: endpoint.region.clone(),
                cause,
            },
        ),
        SecretFetch::NoText => secrets_from_payload::<T>(endpoint, None),
        SecretFetch::Text(text) => {
            let payload = match parse_string_map(text.as_str()) {
                Ok(pairs) => Some(ValueTable::from_pairs(pairs)),
                Err(_) => None,
            };
            secrets_from_payload::<T>(endpoint, payload)
        },
    }
}

/// Loading is all or nothing: a fetched text gives a container exactly when
/// it holds an object that has every name of `T`. A text without an object
/// gives the error of an invalid payload; an object that lacks a name gives
/// the error that names the first name, in the order of `T`'s keys, that it
/// lacks. Neither gives a container.
pub proof fn lemma_load_secrets_all_or_nothing<T: SecretsConfigEnum>(
    region: Seq<char>,
    secret_id: Seq<char>,
    payload: Option<Table>,
)
    ensures
        ({
            let names = secret_names::<T>();
            let loaded = spec_secrets_from_payload::<T>(region, secret_id, payload);
            match payload {
                None => loaded == Err::<Table, _>(
                    ConfigErrorView::SecretsInvalidJson { secret_id, region },
                ),
                Some(object) => {
                    &&& loaded is Ok <==> covers(object, names)
                    &&& loaded matches Err(e) ==> exists|i: int|
                        0 <= i < names.len() && e == (ConfigErrorView::MissingSecretKey {
                            secret_id,
                            region,
                            missing_key: #[trigger] names[i],
                        }) && !object.contains_key(names[i]) && covers(object, names.take(i))
                },
            }
        }),
{
    if payload is Some {
        lemma_selection(payload.unwrap(), secret_names::<T>());
    }
}

/// A call that failed, or a secret without text, gives no container,
/// whatever the key-set is: the first gives the error of a failed fetch with
/// its cause, the second the error of an invalid payload. Neither is a fault
/// of the library.
pub proof fn lemma_load_secrets_needs_text<T: SecretsConfigEnum>(
    region: Seq<char>,
    secret_id: Seq<char>,
    fetched: SecretFetchView,
)
    requires
        !(fetched is Text),
    ensures
        ({
            let loaded = spec_load_secrets::<T>(region, secret_id, fetched);
            &&& loaded matches Err(e) && !e.is_critical()
            &&& match fetched {
                SecretFetchView::Failed { cause } => loaded == Err::<Table, _>(
                    ConfigErrorView::FailedToFetchSecretsJson { secret_id, region, cause },
                ),
                SecretFetchView::NoText => loaded == Err::<Table, _>(
                    ConfigErrorView::SecretsInvalidJson { secret_id, region },
                ),
                SecretFetchView::Text(_) => true,
            }
        }),
{
}

/// A container that `load_secrets` made holds every key of `T`: `get`
/// succeeds on each, with the value that the secret's object has under the
/// key's name.
pub proof fn lemma_loaded_is_complete<T: SecretsConfigEnum>(
    region: Seq<char>,
    secret_id: Seq<char>,
    object: Table,
    key: T,
)
    requires
        spec_secrets_from_payload::<T>(region, secret_id, Some(object)) is Ok,
        T::all_keys().contains(key),
    ensures
        spec_secrets_from_payload::<T>(region, secret_id, Some(object)) matches Ok(values)
            && spec_get(values, key) == Ok::<_, ConfigErrorView>(object[key.external_name()]),
{
    let names = secret_names::<T>();
    lemma_selection(object, names);
    let i = choose|i: int| 0 <= i < T::all_keys().len() && T::all_keys()[i] == key;
    assert(names[i] == key.external_name());
}

/// A container that `load_secrets` made for a key-set whose names differ
/// from one another holds as many values as the key-set has keys.
pub proof fn lemma_loaded_len<T: SecretsConfigEnum>(
    region: Seq<char>,
    secret_id: Seq<char>,
    object: Table,
)
    requires
        spec_secrets_from_payload::<T>(region, secret_id, Some(object)) is Ok,
        well_declared::<T>(),
    ensures
        spec_secrets_from_payload::<T>(region, secret_id, Some(object)) matches Ok(values)
            && values.len() == T::all_keys().len(),
{
    lemma_selection(object, secret_names::<T>());
    secret_names::<T>().unique_seq_to_set();
}

/// Narrowing succeeds exactly when the wider container has every name of
/// the narrower key-set. Otherwise it fails with the error that names the
/// first name, in the order of the narrower set's keys, that the wider
/// container lacks.
pub proof fn lemma_clone_into_subset<Child: SecretsConfigEnum>(wide: Table)
    ensures
        ({
            let names = secret_names::<Child>();
            let narrowed = spec_clone_into::<Child>(wide);
            &&& narrowed is Ok <==> covers(wide, names)
            &&& narrowed matches Err(e) ==> exists|i: int|
                0 <= i < names.len() && e == (ConfigErrorView::InvalidSecretsCloneInto {
                    missing_secret: #[trigger] names[i],
                }) && !wide.contains_key(names[i]) && covers(wide, names.take(i))
        }),
{
    lemma_selection(wide, secret_names::<Child>());
}

/// A container that `clone_into` made holds every key of the narrower
/// key-set: `get` succeeds on each.
pub proof fn lemma_narrowed_is_complete<Child: SecretsConfigEnum>(wide: Table, key: Child)
    requires
        spec_clone_into::<Child>(wide) is Ok,
        Child::all_keys().contains(key),
    ensures
        spec_clone_into::<Child>(wide) matches Ok(narrow) && spec_get(narrow, key) is Ok,
{
    let names = secret_names::<Child>();
    lemma_selection(wide, names);
    let i = choose|i: int| 0 <= i < Child::all_keys().len() && Child::all_keys()[i] == key;
    assert(names[i] == key.external_name());
}

/// Narrowing keeps the values: a key of the narrower set reads from the
/// narrowed container what the key of the wider set with the same name
/// reads from the wider container.
pub proof fn lemma_clone_into_keeps_values<Parent: SecretsConfigEnum, Child: SecretsConfigEnum>(
    wide: Table,
    key: Child,
    wide_key: Parent,
)
    requires
        spec_clone_into::<Child>(wide) is Ok,
        Child::all_keys().contains(key),
        wide_key.external_name() == key.external_name(),
    ensures
        spec_clone_into::<Child>(wide) matches Ok(narrow) && spec_get(narrow, key) == spec_get(
            wide,
            wide_key,
        ) && spec_get(narrow, key) is Ok,
{
    let names = secret_names::<Child>();
    lemma_selection(wide, names);
    let i = choose|i: int| 0 <= i < Child::all_keys().len() && Child::all_keys()[i] == key;
    assert(names[i] == key.external_name());
}

/// For a key-set without keys, narrowing succeeds on every container, and
/// loading on every secret whose text holds an object; both give the
/// container that holds nothing.
pub proof fn lemma_empty_key_set<T: SecretsConfigEnum>(
    region: Seq<char>,
    secret_id: Seq<char>,
    source: Table,
)
    requires
        T::all_keys().len() == 0,
    ensures
        spec_secrets_from_payload::<T>(region, secret_id, Some(source)) == Ok::<_, ConfigErrorView>(
            Table::empty(),
        ),
        spec_clone_into::<T>(source) == Ok::<_, ConfigErrorView>(Table::empty()),
{
    lemma_selection_of_nothing(source, secret_names::<T>());
}

} // verus!
