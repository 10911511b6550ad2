//! Key-sets of environment variables and the containers of their values.

use crate::errors::{ConfigError, ConfigErrorView};
use crate::values::{
    covers, lemma_selection, lemma_selection_of_nothing, named_texts, pairs_to_map, selection,
    texts, Table, ValueTable,
};
use std::marker::PhantomData;
use vstd::prelude::*;

verus! {

/// A closed set of keys, each bound to the name of one environment variable.
///
/// A key-set is an enum without fields: `as_str` gives the name of a
/// variant and `value_list` every variant in the order of declaration.
///
/// `external_name` and `all_keys` say in contracts what the two methods
/// return. A key-set that is declared in verified code states both; one
/// that leaves them as they are here claims no more than that the methods
/// answer the same way each time.
pub trait EnvConfigEnum:
    core::fmt::Debug + PartialEq + Eq + core::hash::Hash + Clone + Send + Sync
{
    /// The name of the environment variable that this key is bound to.
    open spec fn external_name(&self) -> Seq<char> {
        arbitrary::<spec_fn(Self) -> Seq<char>>()(*self)
    }

    /// Every key of the set, in the order of declaration.
    open spec fn all_keys() -> Seq<Self> {
        arbitrary()
    }

    /// The name that this key is bound to.
    fn as_str(&self) -> (name: &'static str)
        ensures
            name@ == self.external_name(),
    ;

    /// Every key of the set, in the order of declaration.
    fn value_list() -> (keys: Vec<Self>)
        ensures
            keys@ == Self::all_keys(),
    ;
}

/// The names that a key-set is bound to, in the order of its keys.
pub open spec fn key_names<T: EnvConfigEnum>() -> Seq<Seq<char>> {
    Seq::new(T::all_keys().len(), |i: int| T::all_keys()[i].external_name())
}

/// Whether `T` is declared as a key-set should be: every key of the type is
/// listed, no key is bound to the empty name, and no two keys to one name.
pub open spec fn well_declared<T: EnvConfigEnum>() -> bool {
    &&& forall|key: T| #[trigger] T::all_keys().contains(key)
    &&& key_names::<T>().no_duplicates()
    &&& forall|i: int| 0 <= i < T::all_keys().len() ==> (#[trigger] key_names::<T>()[i]).len() > 0
}

/// What `get` answers for `key` on a container that holds `values`.
pub open spec fn spec_get<T: EnvConfigEnum>(values: Table, key: T) -> Result<
    Seq<char>,
    ConfigErrorView,
> {
    if values.contains_key(key.external_name()) {
        Ok(values[key.external_name()])
    } else {
        Err(ConfigErrorView::EnvVariableNotLoaded { key: key.external_name() })
    }
}

/// What `load_env` answers for the key-set `T` on an environment.
pub open spec fn spec_load_env<T: EnvConfigEnum>(environment: Table) -> Result<
    Table,
    ConfigErrorView,
> {
    match selection(environment, key_names::<T>()) {
        Ok(values) => Ok(values),
        Err(name) => Err(ConfigErrorView::MissingEnvVariable { missing_var: name }),
    }
}

/// What `clone_into` answers for the narrower key-set `Child` on a container
/// that holds `wide`.
pub open spec fn spec_clone_into<Child: EnvConfigEnum>(wide: Table) -> Result<
    Table,
    ConfigErrorView,
> {
    match selection(wide, key_names::<Child>()) {
        Ok(values) => Ok(values),
        Err(name) => Err(ConfigErrorView::InvalidEnvCloneInto { missing_var: name }),
    }
}

/// The names of a key-set, as its own methods give them.
fn name_list<T: EnvConfigEnum>() -> (names: Vec<&'static str>)
    ensures
        texts(names@) == key_names::<T>(),
{
    let keys = T::value_list();
    let mut names: Vec<&'static str> = Vec::new();
    let mut i: usize = 0;
    while i < keys.len()
        invariant
            i <= keys@.len(),
            keys@ == T::all_keys(),
            names@.len() == i,
            forall|j: int| 0 <= j < i ==> (#[trigger] names@[j])@ == keys@[j].external_name(),
        decreases keys@.len() - i,
    {
        let name = keys[i].as_str();
        names.push(name);
        i = i + 1;
    }
    names
}

/// The values of the environment variables of the key-set `T`, by name.
///
/// A container that `load_env` or `clone_into` made holds a value for every
/// key of `T`. One made with `from` holds what it was given.
#[derive(Debug)]
pub struct EnvVariables<T: EnvConfigEnum> {
    values: ValueTable,
    key_set: PhantomData<T>,
}

impl<T: EnvConfigEnum> View for EnvVariables<T> {
    type V = Table;

    closed spec fn view(&self) -> Table {
        self.values@
    }
}

impl<T: EnvConfigEnum> Clone for EnvVariables<T> {
    fn clone(&self) -> (copy: Self)
        ensures
            copy@ == self@,
    {
        EnvVariables { values: self.values.clone(), key_set: PhantomData }
    }
}

impl<T: EnvConfigEnum> EnvVariables<T> {
    /// The value of the variable that `key` is bound to. That the container
    /// lacks it is a fault of whoever made the container, and is reported
    /// as such.
    pub fn get(&self, key: &T) -> (value: Result<&String, ConfigError>)
        ensures
            match value {
                Ok(v) => spec_get(self@, *key) == Ok::<_, ConfigErrorView>(v@),
                Err(e) => spec_get(self@, *key) == Err::<Seq<char>, _>(e@),
            },
    {
        self.get_raw(key.as_str())
    }

    fn get_raw(&self, key: &str) -> (value: Result<&String, ConfigError>)
        ensures
            match value {
                Ok(v) => self@.contains_key(key@) && v@ == self@[key@],
                Err(e) => {
                    &&& !self@.contains_key(key@)
                    &&& e@ == (ConfigErrorView::EnvVariableNotLoaded { key: key@ })
                },
            },
    {
        match self.values.get(key) {
            Some(value) => Ok(value),
            None => Err(ConfigError::EnvVariableNotLoaded { key: key.to_owned() }),
        }
    }

    /// The names and values that the container holds.
    pub fn values(&self) -> (values: &ValueTable)
        ensures
            values@ == self@,
    {
        &self.values
    }

    /// The container of the narrower key-set `ChildConfig`, with the value
    /// that this container has under each of its names. Fails on the first
    /// name, in the order of `ChildConfig`'s keys, that this container lacks.
    pub fn clone_into<ChildConfig: EnvConfigEnum>(&self) -> (narrow: Result<
        EnvVariables<ChildConfig>,
        ConfigError,
    >)
        ensures
            match narrow {
                Ok(child) => spec_clone_into::<ChildConfig>(self@) == Ok::<_, ConfigErrorView>(
                    child@,
                ),
                Err(e) => spec_clone_into::<ChildConfig>(self@) == Err::<Table, _>(e@),
            },
    {
        let names = name_list::<ChildConfig>();
        match self.values.select(&names) {
            Ok(values) => Ok(EnvVariables { values, key_set: PhantomData }),
            Err(name) => Err(ConfigError::InvalidEnvCloneInto { missing_var: name.to_owned() }),
        }
    }
}

impl<T: EnvConfigEnum> From<Vec<(&'static str, String)>> for EnvVariables<T> {
    /// The container that holds exactly the given names with their values,
    /// whatever the keys of `T` are. Of two pairs with one name the later
    /// one counts.
    fn from(pairs: Vec<(&'static str, String)>) -> (variables: Self)
        ensures
            variables@ == pairs_to_map(named_texts(pairs@)),
    {
        EnvVariables { values: ValueTable::from_named(pairs), key_set: PhantomData }
    }
}

impl<T: EnvConfigEnum> vstd::std_specs::convert::FromSpecImpl<Vec<(&'static str, String)>>
    for EnvVariables<T> {
    /// The order in which the pairs are kept is left open, so the container
    /// is described by its view, in the contract of `from`.
    open spec fn obeys_from_spec() -> bool {
        false
    }

    open spec fn from_spec(pairs: Vec<(&'static str, String)>) -> Self {
        arbitrary()
    }
}

/// The container of the key-set `T` with the value that `environment` has
/// under each of its names. Fails on the first name, in the order of `T`'s
/// keys, that `environment` lacks.
pub fn load_env<T: EnvConfigEnum>(environment: &ValueTable) -> (loaded: Result<
    EnvVariables<T>,
    ConfigError,
>)
    ensures
        match loaded {
            Ok(variables) => spec_load_env::<T>(environment@) == Ok::<_, ConfigErrorView>(
                variables@,
            ),
            Err(e) => spec_load_env::<T>(environment@) == Err::<Table, _>(e@),
        },
{
    let names = name_list::<T>();
    match environment.select(&names) {
        Ok(values) => Ok(EnvVariables { values, key_set: PhantomData }),
        Err(name) => Err(ConfigError::MissingEnvVariable { missing_var: name.to_owned() }),
    }
}

/// Loading is all or nothing: `load_env` gives a container exactly when the
/// environment has every name of `T`. Otherwise it gives no container but
/// the error that names the first name, in the order of `T`'s keys, that the
/// environment lacks.
pub proof fn lemma_load_env_all_or_nothing<T: EnvConfigEnum>(environment: Table)
    ensures
        ({
            let names = key_names::<T>();
            let loaded = spec_load_env::<T>(environment);
            &&& loaded is Ok <==> covers(environment, names)
            &&& loaded matches Err(e) ==> exists|i: int|
                0 <= i < names.len() && e == (ConfigErrorView::MissingEnvVariable {
                    missing_var: #[trigger] names[i],
                }) && !environment.contains_key(names[i]) && covers(environment, names.take(i))
        }),
{
    lemma_selection(environment, key_names::<T>());
}

/// A container that `load_env` made holds every key of `T`: `get` succeeds
/// on each, with the value that the environment has under the key's name.
pub proof fn lemma_loaded_is_complete<T: EnvConfigEnum>(environment: Table, key: T)
    requires
        spec_load_env::<T>(environment) is Ok,
        T::all_keys().contains(key),
    ensures
        spec_load_env::<T>(environment) matches Ok(values) && spec_get(values, key) == Ok::<
            _,
            ConfigErrorView,
        >(environment[key.external_name()]),
{
    let names = key_names::<T>();
    lemma_selection(environment, names);
    let i = choose|i: int| 0 <= i < T::all_keys().len() && T::all_keys()[i] == key;
    assert(names[i] == key.external_name());
}

/// A container that `load_env` made for a key-set whose names differ from
/// one another holds as many values as the key-set has keys.
pub proof fn lemma_loaded_len<T: EnvConfigEnum>(environment: Table)
    requires
        spec_load_env::<T>(environment) is Ok,
        well_declared::<T>(),
    ensures
        spec_load_env::<T>(environment) matches Ok(values) && values.len() == T::all_keys().len(),
{
    lemma_selection(environment, key_names::<T>());
    key_names::<T>().unique_seq_to_set();
}

/// Narrowing succeeds exactly when the wider container has every name of
/// the narrower key-set. Otherwise it fails with the error that names the
/// first name, in the order of the narrower set's keys, that the wider
/// container lacks.
pub proof fn lemma_clone_into_subset<Child: EnvConfigEnum>(wide: Table)
    ensures
        ({
            let names = key_names::<Child>();
            let narrowed = spec_clone_into::<Child>(wide);
            &&& narrowed is Ok <==> covers(wide, names)
            &&& narrowed matches Err(e) ==> exists|i: int|
                0 <= i < names.len() && e == (ConfigErrorView::InvalidEnvCloneInto {
                    missing_var: #[trigger] names[i],
                }) && !wide.contains_key(names[i]) && covers(wide, names.take(i))
        }),
{
    lemma_selection(wide, key_names::<Child>());
}

/// A container that `clone_into` made holds every key of the narrower
/// key-set: `get` succeeds on each.
pub proof fn lemma_narrowed_is_complete<Child: EnvConfigEnum>(wide: Table, key: Child)
    requires
        spec_clone_into::<Child>(wide) is Ok,
        Child::all_keys().contains(key),
    ensures
        spec_clone_into::<Child>(wide) matches Ok(narrow) && spec_get(narrow, key) is Ok,
{
    let names = key_names::<Child>();
    lemma_selection(wide, names);
    let i = choose|i: int| 0 <= i < Child::all_keys().len() && Child::all_keys()[i] == key;
    assert(names[i] == key.external_name());
}

/// Narrowing keeps the values: a key of the narrower set reads from the
/// narrowed container what the key of the wider set with the same name
/// reads from the wider container.
pub proof fn lemma_clone_into_keeps_values<Parent: EnvConfigEnum, Child: EnvConfigEnum>(
    wide: Table,
    key: Child,
    wide_key: Parent,
)
    requires
        spec_clone_into::<Child>(wide) is Ok,
        Child::all_keys().contains(key),
        wide_key.external_name() == key.external_name(),
    ensures
        spec_clone_into::<Child>(wide) matches Ok(narrow) && spec_get(narrow, key) == spec_get(
            wide,
            wide_key,
        ) && spec_get(narrow, key) is Ok,
{
    let names = key_names::<Child>();
    lemma_selection(wide, names);
    let i = choose|i: int| 0 <= i < Child::all_keys().len() && Child::all_keys()[i] == key;
    assert(names[i] == key.external_name());
}

/// For a key-set without keys, loading and narrowing succeed on every
/// source and give the container that holds nothing.
pub proof fn lemma_empty_key_set<T: EnvConfigEnum>(source: Table)
    requires
        T::all_keys().len() == 0,
    ensures
        spec_load_env::<T>(source) == Ok::<_, ConfigErrorView>(Table::empty()),
        spec_clone_into::<T>(source) == Ok::<_, ConfigErrorView>(Table::empty()),
{
    lemma_selection_of_nothing(source, key_names::<T>());
}

} // verus!
