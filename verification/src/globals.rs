//! The table of builtins: the types and functions every module can see, each
//! under a name of its own.
use crate::opcodes::{builtin_type_name, BuiltinTypeId};
use crate::runtime_module::ModuleValues;
use vstd::prelude::*;

verus! {

/// What the table holds under a name: a builtin type or a builtin function.
pub enum GlobalValue<T, F> {
    Type(T),
    Function(F),
}

/// The builtin types and functions, by name.
pub struct VmGlobals<T, F> {
    values: ModuleValues<GlobalValue<T, F>, ()>,
}

impl<T, F> VmGlobals<T, F> {
    /// The builtins, by name.
    pub closed spec fn map(&self) -> Map<Seq<char>, GlobalValue<T, F>> {
        Map::new(|k: Seq<char>| self.values.map().dom().contains(k), |k: Seq<char>| self.values.map()[k].0)
    }

    /// A table with no builtin in it.
    pub fn new() -> (r: Self)
        ensures
            r.map() == Map::<Seq<char>, GlobalValue<T, F>>::empty(),
    {
        let r = VmGlobals { values: ModuleValues::new() };
        assert(r.map() =~= Map::<Seq<char>, GlobalValue<T, F>>::empty());
        r
    }

    /// Whether a builtin is registered under `name`.
    pub fn contains(&self, name: &str) -> (r: bool)
        ensures
            r == self.map().dom().contains(name@),
    {
        self.values.contains(name)
    }

    /// Registers `val` under `name`, which no builtin has yet.
    pub fn insert(&mut self, name: &str, val: GlobalValue<T, F>)
        requires
            !old(self).map().dom().contains(name@),
        ensures
            final(self).map() == old(self).map().insert(name@, val),
    {
        self.values.store_named_value(name, val, ());
        proof {
            assert(self.map() =~= old(self).map().insert(name@, val));
        }
    }

    /// Registers the builtin function `f` under its name `name`, which no
    /// builtin has yet.
    pub fn insert_builtin(&mut self, name: &str, f: F)
        requires
            !old(self).map().dom().contains(name@),
        ensures
            final(self).map() == old(self).map().insert(name@, GlobalValue::Function(f)),
    {
        self.insert(name, GlobalValue::Function(f));
    }

    /// The builtin registered under `name`, if any.
    pub fn load_named_value(&self, name: &str) -> (r: Option<&GlobalValue<T, F>>)
        ensures
            r is Some <==> self.map().dom().contains(name@),
            r matches Some(v) ==> self.map()[name@] == *v,
    {
        self.values.load_named_value(name)
    }

    /// The builtin type registered under `name`; nothing where the name is
    /// missing or holds a function.
    pub fn get_builtin_type_by_name(&self, name: &str) -> (r: Option<&T>)
        ensures
            r is Some <==> (self.map().dom().contains(name@) && self.map()[name@] is Type),
            r matches Some(t) ==> self.map()[name@] == GlobalValue::<T, F>::Type(*t),
    {
        match self.load_named_value(name) {
            Some(GlobalValue::Type(t)) => Some(t),
            _ => None,
        }
    }

    /// The builtin type that identifier `id` stands for, looked up by its name.
    pub fn get_builtin_type_by_id(&self, id: BuiltinTypeId) -> (r: Option<&T>)
        ensures
            r is Some <==> (self.map().dom().contains(builtin_type_name(id)) && self.map()[builtin_type_name(id)] is Type),
            r matches Some(t) ==> self.map()[builtin_type_name(id)] == GlobalValue::<T, F>::Type(*t),
    {
        self.get_builtin_type_by_name(id.name())
    }
}

/// Registering a builtin and then looking its name up gives what was
/// registered, and leaves every other name as it was.
pub proof fn lemma_insert_then_load<T, F>(before: VmGlobals<T, F>, after: VmGlobals<T, F>, name: Seq<char>, val: GlobalValue<T, F>, other: Seq<char>)
    requires
        after.map() == before.map().insert(name, val),
    ensures
        after.map().dom().contains(name),
        after.map()[name] == val,
        other != name ==> (after.map().dom().contains(other) == before.map().dom().contains(other)),
        other != name && before.map().dom().contains(other) ==> after.map()[other] == before.map()[other],
{
}

} // verus!
