//! Reading, writing and listing the attributes of a value: where the
//! machine looks, in which order, and when a method found is bound to the
//! value it was read from.
use crate::errors::AttributeError;
use crate::object::{attribute_spec, box_consistent, lemma_write_then_read, write_spec};
use crate::shape::{shapes_wf, ShapeId, SlotTable, TransitionTable, MAX_SHAPES};
use crate::symbol::{resolve_spec, Interner, Symbol};
use vstd::prelude::*;

verus! {

/// What a value is, as far as its attributes go.
#[derive(Clone, Copy, Debug, PartialEq, Eq, Structural)]
pub enum AttributeHolder {
    /// A module; `name_known` tells whether the attribute's symbol has a name,
    /// by which modules hold their values.
    Module { name_known: bool },
    Object,
    Mixin,
    EnumValue,
    /// An integer, float, boolean or string.
    BuiltinValue,
    Function,
    List,
    Type,
    /// A value without attributes.
    Other,
}

/// What a lookup of an attribute found.
pub enum Lookup<V> {
    Missing,
    /// A value that is not a function.
    Plain(V),
    /// A function; `type_method` tells whether it is a method of the type
    /// itself rather than of its values.
    Function { value: V, type_method: bool },
}

/// What reading an attribute gives.
pub enum AttributeValue<V> {
    /// The value found, as it is.
    Plain(V),
    /// The function found, bound to the value it was read from.
    Bound(V),
}

/// What a value's attribute `found` gives when read from the value: a method of
/// its values is bound to it, a method of its type cannot be, and any other
/// value is given as it is.
pub open spec fn bound_spec<V>(found: Lookup<V>) -> Result<AttributeValue<V>, AttributeError> {
    match found {
        Lookup::Missing => Err(AttributeError::NoSuchAttribute),
        Lookup::Plain(v) => Ok(AttributeValue::Plain(v)),
        Lookup::Function { value, type_method } => if type_method {
            Err(AttributeError::InvalidFunctionBinding)
        } else {
            Ok(AttributeValue::Bound(value))
        },
    }
}

/// Found as it is, whatever it is.
pub open spec fn plain_spec<V>(found: Lookup<V>) -> Result<AttributeValue<V>, AttributeError> {
    match found {
        Lookup::Missing => Err(AttributeError::NoSuchAttribute),
        Lookup::Plain(v) => Ok(AttributeValue::Plain(v)),
        Lookup::Function { value, type_method } => Ok(AttributeValue::Plain(value)),
    }
}

/// Read from a type: a method of the type is bound to it, a method of its
/// values cannot be.
pub open spec fn type_read_spec<V>(found: Lookup<V>) -> Result<AttributeValue<V>, AttributeError> {
    match found {
        Lookup::Missing => Err(AttributeError::NoSuchAttribute),
        Lookup::Plain(v) => Ok(AttributeValue::Plain(v)),
        Lookup::Function { value, type_method } => if type_method {
            Ok(AttributeValue::Bound(value))
        } else {
            Err(AttributeError::InvalidFunctionBinding)
        },
    }
}

/// What reading an attribute of a value of kind `holder` gives, `own` being
/// what the value's own attributes hold under the name and `shared` what its
/// struct or builtin type holds: modules, mixins, functions and the own
/// attributes of objects and lists give what they hold; enum values give the
/// enum's, bound; builtin values, and lists and objects for what they lack,
/// fall back on their type's, bound; types bind their own methods.
pub open spec fn read_attribute_spec<V>(holder: AttributeHolder, own: Lookup<V>, shared: Lookup<V>) -> Result<AttributeValue<V>, AttributeError> {
    match holder {
        AttributeHolder::Module { name_known } => if name_known {
            plain_spec(own)
        } else {
            Err(AttributeError::ValueHasNoAttributes)
        },
        AttributeHolder::Object => if own is Missing {
            bound_spec(shared)
        } else {
            plain_spec(own)
        },
        AttributeHolder::Mixin => plain_spec(own),
        AttributeHolder::EnumValue => bound_spec(own),
        AttributeHolder::BuiltinValue => if own is Missing {
            bound_spec(shared)
        } else {
            bound_spec(own)
        },
        AttributeHolder::Function => plain_spec(own),
        AttributeHolder::List => if own is Missing {
            bound_spec(shared)
        } else {
            plain_spec(own)
        },
        AttributeHolder::Type => type_read_spec(own),
        AttributeHolder::Other => Err(AttributeError::ValueHasNoAttributes),
    }
}

/// Binds a method found on a value to it, refusing a method of the type.
pub fn val_or_bound_func<V>(found: Lookup<V>) -> (r: Result<AttributeValue<V>, AttributeError>)
    ensures
        r == bound_spec(found),
{
    match found {
        Lookup::Missing => Err(AttributeError::NoSuchAttribute),
        Lookup::Plain(v) => Ok(AttributeValue::Plain(v)),
        Lookup::Function { value, type_method } => if type_method {
            Err(AttributeError::InvalidFunctionBinding)
        } else {
            Ok(AttributeValue::Bound(value))
        },
    }
}

fn as_found<V>(found: Lookup<V>) -> (r: Result<AttributeValue<V>, AttributeError>)
    ensures
        r == plain_spec(found),
{
    match found {
        Lookup::Missing => Err(AttributeError::NoSuchAttribute),
        Lookup::Plain(v) => Ok(AttributeValue::Plain(v)),
        Lookup::Function { value, type_method: _ } => Ok(AttributeValue::Plain(value)),
    }
}

/// What reading an attribute of a value of kind `holder` gives, from what its
/// own attributes and its struct or type hold under the name.
pub fn read_attribute<V>(holder: AttributeHolder, own: Lookup<V>, shared: Lookup<V>) -> (r: Result<AttributeValue<V>, AttributeError>)
    ensures
        r == read_attribute_spec(holder, own, shared),
{
    match holder {
        AttributeHolder::Module { name_known } => if name_known {
            as_found(own)
        } else {
            Err(AttributeError::ValueHasNoAttributes)
        },
        AttributeHolder::Object => match own {
            Lookup::Missing => val_or_bound_func(shared),
            found => as_found(found),
        },
        AttributeHolder::Mixin => as_found(own),
        AttributeHolder::EnumValue => val_or_bound_func(own),
        AttributeHolder::BuiltinValue => match own {
            Lookup::Missing => val_or_bound_func(shared),
            found => val_or_bound_func(found),
        },
        AttributeHolder::Function => as_found(own),
        AttributeHolder::List => match own {
            Lookup::Missing => val_or_bound_func(shared),
            found => as_found(found),
        },
        AttributeHolder::Type => match own {
            Lookup::Missing => Err(AttributeError::NoSuchAttribute),
            Lookup::Plain(v) => Ok(AttributeValue::Plain(v)),
            Lookup::Function { value, type_method } => if type_method {
                Ok(AttributeValue::Bound(value))
            } else {
                Err(AttributeError::InvalidFunctionBinding)
            },
        },
        AttributeHolder::Other => Err(AttributeError::ValueHasNoAttributes),
    }
}

/// What a lookup finds from a value that an attribute store holds (or not):
/// `function` tells, for a function, whether it is a method of the type.
pub open spec fn lookup_of<V>(found: Option<V>, function: Option<bool>) -> Lookup<V> {
    match found {
        None => Lookup::Missing,
        Some(v) => match function {
            None => Lookup::Plain(v),
            Some(type_method) => Lookup::Function { value: v, type_method },
        },
    }
}

/// Whether values of kind `holder` have attributes at all (a module has them
/// by name, so only for a symbol that has one).
pub open spec fn has_attributes(holder: AttributeHolder) -> bool {
    match holder {
        AttributeHolder::Module { name_known } => name_known,
        AttributeHolder::Other => false,
        _ => true,
    }
}

/// Reading an attribute that a value holds as a plain value, not a function,
/// gives that value as it is, whatever kind of value holds it (types
/// included) and whatever its struct or type holds; reading one that neither
/// holds fails as missing; and a value without attributes refuses every read.
pub proof fn lemma_plain_attributes_read_as_they_are<V>(holder: AttributeHolder, v: V, shared: Lookup<V>, own: Lookup<V>)
    ensures
        has_attributes(holder) ==> read_attribute_spec(holder, Lookup::Plain(v), shared) == Ok::<
            AttributeValue<V>,
            AttributeError,
        >(AttributeValue::Plain(v)),
        has_attributes(holder) ==> read_attribute_spec(holder, Lookup::<V>::Missing, Lookup::<V>::Missing) == Err::<
            AttributeValue<V>,
            AttributeError,
        >(AttributeError::NoSuchAttribute),
        !has_attributes(holder) ==> read_attribute_spec(holder, own, shared) == Err::<AttributeValue<V>, AttributeError>(
            AttributeError::ValueHasNoAttributes,
        ),
{
}

/// How a function found as an attribute is read. Modules, mixins and
/// functions give what they hold as it is, and so do objects and lists for
/// their own attributes. Enum values and builtin values, and objects and
/// lists for what their struct or type holds, bind a method of their values
/// to themselves and refuse a method of the type. A type binds its own
/// methods and refuses those of its values.
pub proof fn lemma_functions_read<V>(v: V, tm: bool)
    ensures
        ({
            let f = Lookup::Function { value: v, type_method: tm };
            let as_is = Ok::<AttributeValue<V>, AttributeError>(AttributeValue::Plain(v));
            let bound = Ok::<AttributeValue<V>, AttributeError>(AttributeValue::Bound(v));
            let refused = Err::<AttributeValue<V>, AttributeError>(AttributeError::InvalidFunctionBinding);
            &&& read_attribute_spec(AttributeHolder::Module { name_known: true }, f, Lookup::Missing) == as_is
            &&& read_attribute_spec(AttributeHolder::Mixin, f, Lookup::Missing) == as_is
            &&& read_attribute_spec(AttributeHolder::Function, f, Lookup::Missing) == as_is
            &&& read_attribute_spec(AttributeHolder::Object, f, Lookup::Missing) == as_is
            &&& read_attribute_spec(AttributeHolder::List, f, Lookup::Missing) == as_is
            &&& read_attribute_spec(AttributeHolder::EnumValue, f, Lookup::Missing) == (if tm { refused } else { bound })
            &&& read_attribute_spec(AttributeHolder::BuiltinValue, f, Lookup::Missing) == (if tm {
                refused
            } else {
                bound
            })
            &&& read_attribute_spec(AttributeHolder::BuiltinValue, Lookup::Missing, f) == (if tm {
                refused
            } else {
                bound
            })
            &&& read_attribute_spec(AttributeHolder::Object, Lookup::Missing, f) == (if tm { refused } else { bound })
            &&& read_attribute_spec(AttributeHolder::List, Lookup::Missing, f) == (if tm { refused } else { bound })
            &&& read_attribute_spec(AttributeHolder::Type, f, Lookup::Missing) == (if tm { bound } else { refused })
        }),
{
}

/// Reading through a type: a plain value comes as it is, a method of the
/// type comes bound to the type, a method of its values is refused, and
/// only a missing attribute fails as missing.
pub proof fn lemma_type_reads<V>(own: Lookup<V>, shared: Lookup<V>, v: V)
    ensures
        read_attribute_spec(AttributeHolder::Type, Lookup::Plain(v), shared) == Ok::<AttributeValue<V>, AttributeError>(
            AttributeValue::Plain(v),
        ),
        read_attribute_spec(AttributeHolder::Type, Lookup::Function { value: v, type_method: true }, shared) == Ok::<
            AttributeValue<V>,
            AttributeError,
        >(AttributeValue::Bound(v)),
        read_attribute_spec(AttributeHolder::Type, Lookup::Function { value: v, type_method: false }, shared) == Err::<
            AttributeValue<V>,
            AttributeError,
        >(AttributeError::InvalidFunctionBinding),
        (read_attribute_spec(AttributeHolder::Type, own, shared) == Err::<AttributeValue<V>, AttributeError>(
            AttributeError::NoSuchAttribute,
        )) <==> own is Missing,
{
}

/// Writing an attribute of an object, a mixin, a function or a list into
/// its own attribute slots and then reading it through the value gives the
/// value written, as it is, whether or not it is a function and whatever
/// the value's struct or type holds under the name; the other attributes
/// read as before.
pub proof fn lemma_object_write_then_read<V>(
    holder: AttributeHolder,
    st: SlotTable,
    tt: TransitionTable,
    shape: ShapeId,
    values: Seq<V>,
    name: Symbol,
    val: V,
    function: Option<bool>,
    shared: Lookup<V>,
    other: Symbol,
)
    requires
        holder == AttributeHolder::Object || holder == AttributeHolder::Mixin || holder == AttributeHolder::Function
            || holder == AttributeHolder::List,
        shapes_wf(st, tt),
        box_consistent(st, shape, values),
        st.len() < MAX_SHAPES,
    ensures
        ({
            let (st2, tt2, sid, v2) = write_spec(st, tt, shape, values, name, val);
            &&& read_attribute_spec(holder, lookup_of(attribute_spec(st2, sid, v2, name), function), shared)
                == Ok::<AttributeValue<V>, AttributeError>(AttributeValue::Plain(val))
            &&& other != name ==> attribute_spec(st2, sid, v2, other) == attribute_spec(st, shape, values, other)
        }),
{
    lemma_write_then_read(st, tt, shape, values, name, val, other);
}

/// Whether a value has an attribute named by a symbol: the name must be
/// interned (`symbol_known`), and reading it must succeed.
pub fn has_attribute<V>(symbol_known: bool, holder: AttributeHolder, own: Lookup<V>, shared: Lookup<V>) -> (r: bool)
    ensures
        r == (symbol_known && read_attribute_spec(holder, own, shared) is Ok),
{
    if !symbol_known {
        return false;
    }
    read_attribute(holder, own, shared).is_ok()
}

/// Where writing an attribute stores it.
#[derive(Clone, Copy, Debug, PartialEq, Eq, Structural)]
pub enum WriteTarget {
    /// The module's table of named values, under the symbol's name.
    ModuleTable,
    /// The value's own attribute slots.
    AttributeStore,
}

/// Where writing an attribute of a value of kind `holder` goes: a module
/// stores it by name if the symbol has one; a value with slots of its own
/// stores it there; any other value has no attributes.
pub fn write_attribute_target(holder: AttributeHolder, has_store: bool) -> (r: Result<WriteTarget, AttributeError>)
    ensures
        holder matches AttributeHolder::Module { name_known } && name_known ==> r == Ok::<WriteTarget, AttributeError>(
            WriteTarget::ModuleTable,
        ),
        !(holder matches AttributeHolder::Module { name_known } && name_known) ==> (if has_store {
            r == Ok::<WriteTarget, AttributeError>(WriteTarget::AttributeStore)
        } else {
            r == Err::<WriteTarget, AttributeError>(AttributeError::ValueHasNoAttributes)
        }),
{
    match holder {
        AttributeHolder::Module { name_known: true } => Ok(WriteTarget::ModuleTable),
        _ => if has_store {
            Ok(WriteTarget::AttributeStore)
        } else {
            Err(AttributeError::ValueHasNoAttributes)
        },
    }
}

/// Whether some symbol of `syms` has the name `t` in `names`.
pub open spec fn named_by(syms: Seq<Symbol>, names: Seq<Seq<char>>, t: Seq<char>) -> bool {
    exists|s: Symbol| syms.contains(s) && resolve_spec(names, s) == Some(t)
}

/// Whether some symbol among the first `i` of `syms` has the name `t` in `names`.
pub open spec fn named_by_prefix(syms: Seq<Symbol>, i: int, names: Seq<Seq<char>>, t: Seq<char>) -> bool {
    exists|k: int| 0 <= k < i && resolve_spec(names, #[trigger] syms[k]) == Some(t)
}

/// Whether `t` occurs in `v`.
pub open spec fn has_name(v: Seq<String>, t: Seq<char>) -> bool {
    exists|k: int| 0 <= k < v.len() && v[k]@ == t
}

/// The names of the attributes whose symbols are `own` and `shared`, each
/// once; a symbol without a name is passed over.
pub fn list_attributes(globals: &Interner, own: &[Symbol], shared: &[Symbol]) -> (r: Vec<String>)
    ensures
        forall|a: int, b: int| 0 <= a < r@.len() && 0 <= b < r@.len() && a != b ==> r@[a]@ != r@[b]@,
        forall|t: Seq<char>| #[trigger] has_name(r@, t) <==> (named_by(own@, globals.names(), t) || named_by(
            shared@,
            globals.names(),
            t,
        )),
{
    let mut r: Vec<String> = Vec::new();
    add_names(globals, own, &mut r);
    add_names(globals, shared, &mut r);
    r
}

/// Whether `name` occurs in `r`.
fn holds_name(r: &Vec<String>, name: &String) -> (b: bool)
    ensures
        b == has_name(r@, name@),
{
    let mut k: usize = 0;
    while k < r.len()
        invariant
            k <= r@.len(),
            forall|j: int| 0 <= j < k ==> r@[j]@ != name@,
        decreases r@.len() - k,
    {
        if r[k] == *name {
            return true;
        }
        k += 1;
    }
    false
}

fn add_names(globals: &Interner, syms: &[Symbol], r: &mut Vec<String>)
    requires
        forall|a: int, b: int| 0 <= a < old(r)@.len() && 0 <= b < old(r)@.len() && a != b ==> old(r)@[a]@ != old(r)@[b]@,
    ensures
        forall|a: int, b: int| 0 <= a < final(r)@.len() && 0 <= b < final(r)@.len() && a != b ==> final(r)@[a]@ != final(r)@[b]@,
        forall|t: Seq<char>| #[trigger] has_name(final(r)@, t) <==> (has_name(old(r)@, t) || named_by(syms@, globals.names(), t)),
{
    let mut i: usize = 0;
    while i < syms.len()
        invariant
            i <= syms@.len(),
            forall|a: int, b: int| 0 <= a < r@.len() && 0 <= b < r@.len() && a != b ==> r@[a]@ != r@[b]@,
            forall|t: Seq<char>| #[trigger] has_name(r@, t) <==> (has_name(old(r)@, t) || named_by_prefix(syms@, i as int, globals.names(), t)),
        decreases syms@.len() - i,
    {
        let ghost before = r@;
        let ghost sym = syms@[i as int];
        match globals.resolve(syms[i]) {
            Some(name) => {
                let owned = name.to_owned();
                let found = holds_name(r, &owned);
                if !found {
                    r.push(owned);
                    proof {
                        assert forall|t: Seq<char>| #[trigger] has_name(r@, t) <==> (has_name(before, t) || t == owned@) by {
                            if has_name(before, t) {
                                let j = choose|j: int| 0 <= j < before.len() && before[j]@ == t;
                                assert(r@[j]@ == t);
                            }
                            if t == owned@ {
                                assert(r@[before.len() as int]@ == t);
                            }
                            if has_name(r@, t) {
                                let j = choose|j: int| 0 <= j < r@.len() && r@[j]@ == t;
                                if j < before.len() {
                                    assert(before[j]@ == t);
                                }
                            }
                        }
                    }
                }
                proof {
                    assert(resolve_spec(globals.names(), sym) == Some(owned@));
                }
            },
            None => {},
        }
        proof {
            assert forall|t: Seq<char>| #[trigger] has_name(r@, t) <==> (has_name(old(r)@, t) || named_by_prefix(
                syms@,
                i + 1,
                globals.names(),
                t,
            )) by {
                if named_by_prefix(syms@, i + 1, globals.names(), t) {
                    let k = choose|k: int| 0 <= k < i + 1 && resolve_spec(globals.names(), #[trigger] syms@[k]) == Some(t);
                    if k < i {
                        assert(named_by_prefix(syms@, i as int, globals.names(), t));
                    }
                }
                if named_by_prefix(syms@, i as int, globals.names(), t) {
                    let k = choose|k: int| 0 <= k < i && resolve_spec(globals.names(), #[trigger] syms@[k]) == Some(t);
                    assert(0 <= k < i + 1);
                }
                if resolve_spec(globals.names(), sym) == Some(t) {
                    assert(resolve_spec(globals.names(), syms@[i as int]) == Some(t));
                    assert(named_by_prefix(syms@, i + 1, globals.names(), t));
                }
                assert(has_name(r@, t) <==> (has_name(before, t) || resolve_spec(globals.names(), sym) == Some(t)));
            }
        }
        i += 1;
    }
    proof {
        assert forall|t: Seq<char>| #[trigger] named_by(syms@, globals.names(), t) <==> named_by_prefix(
            syms@,
            syms@.len() as int,
            globals.names(),
            t,
        ) by {
            if named_by(syms@, globals.names(), t) {
                let s = choose|s: Symbol| syms@.contains(s) && resolve_spec(globals.names(), s) == Some(t);
                let k = choose|k: int| 0 <= k < syms@.len() && syms@[k] == s;
                assert(resolve_spec(globals.names(), syms@[k]) == Some(t));
            }
            if named_by_prefix(syms@, syms@.len() as int, globals.names(), t) {
                let k = choose|k: int| 0 <= k < syms@.len() && resolve_spec(globals.names(), #[trigger] syms@[k]) == Some(t);
                assert(syms@.contains(syms@[k]));
            }
        }
    }
}

} // verus!
