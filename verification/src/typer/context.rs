//! Typing contexts: persistent maps from names to types.

use super::types::{SpecType, Type};
use vstd::prelude::*;

verus! {

/// A typing context.  It is a persistent hash trie: extending it gives a
/// new context and leaves the old one as it was.
///
/// The trie is `rpds::HashTrieMap`, which Verus does not read; what it
/// holds is named by [`context_bindings`].
#[verifier::external_body]
#[derive(Debug)]
pub struct Context {
    trie: rpds::HashTrieMap<String, Type>,
}

/// The names that a context binds, each with the model of its type.
pub uninterp spec fn context_bindings(ctx: Context) -> Map<Seq<char>, SpecType>;

/// `rpds::HashTrieMap::new`: a trie that holds nothing.
#[verifier::external_body]
fn trie_new() -> (r: Context)
    ensures
        context_bindings(r) =~= Map::empty(),
{
    Context { trie: rpds::HashTrieMap::new() }
}

/// `rpds::HashTrieMap::get`: the entry that the trie holds under `name`,
/// or nothing if it holds none.
#[verifier::external_body]
fn trie_get<'a>(ctx: &'a Context, name: &String) -> (r: Option<&'a Type>)
    ensures
        r is Some == context_bindings(*ctx).contains_key(name@),
        r is Some ==> r->0@ == context_bindings(*ctx)[name@],
{
    ctx.trie.get(name)
}

/// `rpds::HashTrieMap::insert`: a new trie that holds what `ctx` holds,
/// but `ty` under `name`.
#[verifier::external_body]
fn trie_insert(ctx: &Context, name: String, ty: Type) -> (r: Context)
    ensures
        context_bindings(r) == context_bindings(*ctx).insert(name@, ty@),
{
    Context { trie: ctx.trie.insert(name, ty) }
}

/// `rpds::HashTrieMap::clone`: a trie that holds what `ctx` holds.
#[verifier::external_body]
fn trie_clone(ctx: &Context) -> (r: Context)
    ensures
        context_bindings(r) == context_bindings(*ctx),
{
    Context { trie: ctx.trie.clone() }
}

/// How many names are bound, where they are finitely many.
pub open spec fn entry_count(bindings: Map<Seq<char>, SpecType>) -> Option<nat> {
    if bindings.dom().finite() {
        Some(bindings.dom().len())
    } else {
        None
    }
}

/// `rpds::HashTrieMap::size`: how many entries the trie holds.  A trie
/// holds finitely many.
#[verifier::external_body]
fn trie_size(ctx: &Context) -> (r: usize)
    ensures
        entry_count(context_bindings(*ctx)) == Some(r as nat),
{
    ctx.trie.size()
}

/// `PartialEq::eq` of `rpds::HashTrieMap`: whether two tries hold the same
/// entries.  It compares the sizes and looks each entry of the one up in
/// the other; two types are compared by their own `==`, which is
/// verified in this crate to decide whether their models are the same.
#[verifier::external_body]
fn trie_eq(a: &Context, b: &Context) -> (r: bool)
    ensures
        r == (context_bindings(*a) == context_bindings(*b)),
{
    a.trie == b.trie
}

/// `rpds::HashTrieMap::keys`: the keys of the entries, each once.  In
/// which order they come is left open.
#[verifier::external_body]
fn trie_keys(ctx: &Context) -> (r: Vec<String>)
    ensures
        entry_count(context_bindings(*ctx)) == Some(r@.len()),
        forall|i: int| 0 <= i < r@.len() ==> context_bindings(*ctx).contains_key(#[trigger] r@[i]@),
        forall|i: int, j: int| 0 <= i < j < r@.len() ==> r@[i]@ != r@[j]@,
        forall|name: Seq<char>|
            context_bindings(*ctx).contains_key(name) ==> exists|i: int|
                0 <= i < r@.len() && #[trigger] r@[i]@ == name,
{
    ctx.trie.keys().cloned().collect()
}

impl View for Context {
    type V = Map<Seq<char>, SpecType>;

    open spec fn view(&self) -> Map<Seq<char>, SpecType> {
        context_bindings(*self)
    }
}

impl Context {
    /// The empty context.
    pub fn new() -> (r: Context)
        ensures
            r@ =~= Map::empty(),
    {
        trie_new()
    }

    /// The type that the context gives to `name`, if it binds it.
    pub fn get(&self, name: &String) -> (r: Option<&Type>)
        ensures
            r is Some == self@.contains_key(name@),
            r is Some ==> r->0@ == self@[name@],
    {
        trie_get(self, name)
    }

    /// The context extended by one binding.  A binding of the same name
    /// is shadowed; `self` is left as it was.
    pub fn insert(&self, name: String, ty: Type) -> (r: Context)
        ensures
            r@ == self@.insert(name@, ty@),
    {
        trie_insert(self, name, ty)
    }

    /// How many names the context binds.
    pub fn size(&self) -> (r: usize)
        ensures
            self@.dom().finite(),
            r == self@.dom().len(),
    {
        trie_size(self)
    }

    /// The names that the context binds, each once, in no stated order.
    pub fn names(&self) -> (r: Vec<String>)
        ensures
            self@.dom().finite(),
            r@.len() == self@.dom().len(),
            forall|i: int| 0 <= i < r@.len() ==> self@.contains_key(#[trigger] r@[i]@),
            forall|i: int, j: int| 0 <= i < j < r@.len() ==> r@[i]@ != r@[j]@,
            forall|name: Seq<char>|
                self@.contains_key(name) ==> exists|i: int|
                    0 <= i < r@.len() && #[trigger] r@[i]@ == name,
    {
        trie_keys(self)
    }
}

impl Clone for Context {
    fn clone(&self) -> (r: Self)
        ensures
            r@ == self@,
    {
        trie_clone(self)
    }
}

impl PartialEq for Context {
    fn eq(&self, other: &Self) -> (r: bool) {
        trie_eq(self, other)
    }
}

impl Eq for Context {

}

impl vstd::std_specs::cmp::PartialEqSpecImpl for Context {
    open spec fn obeys_eq_spec() -> bool {
        true
    }

    open spec fn eq_spec(&self, other: &Self) -> bool {
        self@ == other@
    }
}

} // verus!
