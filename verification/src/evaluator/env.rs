//! Environments: persistent maps from names to records.

use super::ast::{EnvRecord, SpecRecord};
use vstd::prelude::*;

verus! {

/// An environment.  It is a persistent hash trie: extending it gives a new
/// environment and leaves the old one as it was.
///
/// The trie is `rpds::HashTrieMap`, which Verus does not read; what it
/// holds is named by [`environment_bindings`].
#[verifier::external_body]
#[derive(Debug)]
pub struct Environment {
    trie: rpds::HashTrieMap<String, EnvRecord>,
}

/// The names that an environment binds, each with the model of its record.
pub uninterp spec fn environment_bindings(env: Environment) -> Map<Seq<char>, SpecRecord>;

/// `rpds::HashTrieMap::new`: a trie that holds nothing.
#[verifier::external_body]
fn trie_new() -> (r: Environment)
    ensures
        environment_bindings(r) =~= Map::empty(),
{
    Environment { trie: rpds::HashTrieMap::new() }
}

/// `rpds::HashTrieMap::get`: the entry that the trie holds under `name`,
/// or nothing if it holds none.
#[verifier::external_body]
fn trie_get<'a>(env: &'a Environment, name: &String) -> (r: Option<&'a EnvRecord>)
    ensures
        r is Some == environment_bindings(*env).contains_key(name@),
        r is Some ==> r->0@ == environment_bindings(*env)[name@],
{
    env.trie.get(name)
}

/// `rpds::HashTrieMap::insert`: a new trie that holds what `env` holds,
/// but `record` under `name`.
#[verifier::external_body]
fn trie_insert(env: &Environment, name: String, record: EnvRecord) -> (r: Environment)
    ensures
        environment_bindings(r) == environment_bindings(*env).insert(name@, record@),
{
    Environment { trie: env.trie.insert(name, record) }
}

/// `rpds::HashTrieMap::clone`: a trie that holds what `env` holds.
#[verifier::external_body]
fn trie_clone(env: &Environment) -> (r: Environment)
    ensures
        environment_bindings(r) == environment_bindings(*env),
{
    Environment { trie: env.trie.clone() }
}

/// How many names are bound, where they are finitely many.
pub open spec fn entry_count(bindings: Map<Seq<char>, SpecRecord>) -> Option<nat> {
    if bindings.dom().finite() {
        Some(bindings.dom().len())
    } else {
        None
    }
}

/// `rpds::HashTrieMap::size`: how many entries the trie holds.  A trie
/// holds finitely many.
#[verifier::external_body]
fn trie_size(env: &Environment) -> (r: usize)
    ensures
        entry_count(environment_bindings(*env)) == Some(r as nat),
{
    env.trie.size()
}

/// `PartialEq::eq` of `rpds::HashTrieMap`: whether two tries hold the same
/// entries.  It compares the sizes and looks each entry of the one up in
/// the other; two records are compared by their own `==`, which is
/// verified in this crate to decide whether their models are the same.
#[verifier::external_body]
fn trie_eq(a: &Environment, b: &Environment) -> (r: bool)
    ensures
        r == (environment_bindings(*a) == environment_bindings(*b)),
{
    a.trie == b.trie
}

/// `rpds::HashTrieMap::keys`: the keys of the entries, each once.  In
/// which order they come is left open.
#[verifier::external_body]
fn trie_keys(env: &Environment) -> (r: Vec<String>)
    ensures
        entry_count(environment_bindings(*env)) == Some(r@.len()),
        forall|i: int| 0 <= i < r@.len() ==> environment_bindings(*env).contains_key(#[trigger] r@[i]@),
        forall|i: int, j: int| 0 <= i < j < r@.len() ==> r@[i]@ != r@[j]@,
        forall|name: Seq<char>|
            environment_bindings(*env).contains_key(name) ==> exists|i: int|
                0 <= i < r@.len() && #[trigger] r@[i]@ == name,
{
    env.trie.keys().cloned().collect()
}

impl View for Environment {
    type V = Map<Seq<char>, SpecRecord>;

    open spec fn view(&self) -> Map<Seq<char>, SpecRecord> {
        environment_bindings(*self)
    }
}

impl Environment {
    /// The empty environment.
    pub fn new() -> (r: Environment)
        ensures
            r@ =~= Map::empty(),
    {
        trie_new()
    }

    /// The record that the environment holds under `name`, if it binds it.
    pub fn get(&self, name: &String) -> (r: Option<&EnvRecord>)
        ensures
            r is Some == self@.contains_key(name@),
            r is Some ==> r->0@ == self@[name@],
    {
        trie_get(self, name)
    }

    /// The environment extended by one binding.  A binding of the same
    /// name is shadowed; `self` is left as it was.
    pub fn insert(&self, name: String, record: EnvRecord) -> (r: Environment)
        ensures
            r@ == self@.insert(name@, record@),
    {
        trie_insert(self, name, record)
    }

    /// How many names the environment binds.
    pub fn size(&self) -> (r: usize)
        ensures
            self@.dom().finite(),
            r == self@.dom().len(),
    {
        trie_size(self)
    }

    /// The names that the environment binds, each once, in no stated order.
    pub fn names(&self) -> (r: Vec<String>)
        ensures
            self@.dom().finite(),
            r@.len() == self@.dom().len(),
            forall|i: int| 0 <= i < r@.len() ==> self@.contains_key(#[trigger] r@[i]@),
            forall|i: int, j: int| 0 <= i < j < r@.len() ==> r@[i]@ != r@[j]@,
            forall|name: Seq<char>|
                self@.contains_key(name) ==> exists|i: int|
                    0 <= i < r@.len() && #[trigger] r@[i]@ == name,
    {
        trie_keys(self)
    }
}

impl Clone for Environment {
    fn clone(&self) -> (r: Self)
        ensures
            r@ == self@,
    {
        trie_clone(self)
    }
}

impl PartialEq for Environment {
    fn eq(&self, other: &Self) -> (r: bool) {
        trie_eq(self, other)
    }
}

impl Eq for Environment {

}

impl vstd::std_specs::cmp::PartialEqSpecImpl for Environment {
    open spec fn obeys_eq_spec() -> bool {
        true
    }

    open spec fn eq_spec(&self, other: &Self) -> bool {
        self@ == other@
    }
}

} // verus!
