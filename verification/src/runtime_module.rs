//! Loading a compiled module into the virtual machine: decoding its code,
//! turning attribute names into interned symbols, and the table of the
//! module's named values.
use crate::bc_reader::{byte_array_to_opcode_array, decode_stream, MAX_BYTECODE_LEN};
use crate::compiled::{line_entries_view, string_constant, CompiledCodeObject, CompiledModule, ConstantValue, LineTable};
use crate::errors::VmErrorReason;
use crate::opcodes::Opcode;
use crate::symbol::{intern_spec, Interner, InternError, Symbol};
use vstd::prelude::*;

verus! {

/// Whether every attribute instruction of `ops` names a string constant of
/// `consts`.
pub open spec fn attribute_names_resolve(consts: Seq<ConstantValue>, ops: Seq<Opcode>) -> bool {
    forall|i: int|
        0 <= i < ops.len() ==> match #[trigger] ops[i] {
            Opcode::ReadAttribute(n) => string_constant(consts, n) is Some,
            Opcode::WriteAttribute(n) => string_constant(consts, n) is Some,
            _ => true,
        }
}

/// The interned names and the instructions after each attribute instruction
/// of `ops` is made to name the interned symbol of its attribute: the names
/// are interned in order, and an instruction that already names a symbol, or a
/// name that cannot be interned, is refused.
pub open spec fn intern_attributes_spec(names: Seq<Seq<char>>, consts: Seq<ConstantValue>, ops: Seq<Opcode>) -> (
    Seq<Seq<char>>,
    Result<Seq<Opcode>, VmErrorReason>,
)
    decreases ops.len(),
{
    if ops.len() == 0 {
        (names, Ok(Seq::empty()))
    } else {
        let rest = ops.drop_first();
        match ops[0] {
            Opcode::ReadAttribute(n) => {
                let (names2, r) = intern_spec(names, string_constant(consts, n)->Some_0);
                match r {
                    Ok(sym) => {
                        let (names3, tail) = intern_attributes_spec(names2, consts, rest);
                        (names3, prepend_op(Opcode::ReadAttributeSymbol(sym.0), tail))
                    },
                    Err(_) => (names2, Err(VmErrorReason::UnexpectedVmState)),
                }
            },
            Opcode::WriteAttribute(n) => {
                let (names2, r) = intern_spec(names, string_constant(consts, n)->Some_0);
                match r {
                    Ok(sym) => {
                        let (names3, tail) = intern_attributes_spec(names2, consts, rest);
                        (names3, prepend_op(Opcode::WriteAttributeSymbol(sym.0), tail))
                    },
                    Err(_) => (names2, Err(VmErrorReason::UnexpectedVmState)),
                }
            },
            Opcode::ReadAttributeSymbol(_) => (names, Err(VmErrorReason::UnexpectedVmState)),
            Opcode::WriteAttributeSymbol(_) => (names, Err(VmErrorReason::UnexpectedVmState)),
            op => {
                let (names3, tail) = intern_attributes_spec(names, consts, rest);
                (names3, prepend_op(op, tail))
            },
        }
    }
}

/// `op` followed by the outcome `r`.
pub open spec fn prepend_op(op: Opcode, r: Result<Seq<Opcode>, VmErrorReason>) -> Result<Seq<Opcode>, VmErrorReason> {
    match r {
        Ok(rest) => Ok(seq![op] + rest),
        Err(e) => Err(e),
    }
}

/// `prefix` followed by the outcome `r`.
pub open spec fn prepend_all(prefix: Seq<Opcode>, r: Result<Seq<Opcode>, VmErrorReason>) -> Result<Seq<Opcode>, VmErrorReason> {
    match r {
        Ok(rest) => Ok(prefix + rest),
        Err(e) => Err(e),
    }
}

/// Makes each attribute instruction of `opcodes` name the interned symbol of
/// its attribute, interning the names as it goes; an instruction that already
/// names a symbol makes the whole body invalid.
pub fn replace_attribute_access_with_interned(globals: &mut Interner, cm: &CompiledModule, opcodes: &mut Vec<Opcode>) -> (r: Result<(), VmErrorReason>)
    requires
        attribute_names_resolve(cm.constants.values@, old(opcodes)@),
    ensures
        ({
            let (names, out) = intern_attributes_spec(old(globals).names(), cm.constants.values@, old(opcodes)@);
            &&& final(globals).names() == names
            &&& r is Ok ==> out == Ok::<Seq<Opcode>, VmErrorReason>(final(opcodes)@)
            &&& r matches Err(e) ==> (out matches Err(f) && crate::errors::same_reason(e, f))
        }),
{
    let ghost consts = cm.constants.values@;
    let ghost orig = opcodes@;
    let ghost names0 = globals.names();
    let n = opcodes.len();
    let mut i: usize = 0;
    proof {
        assert(orig.subrange(0, 0) =~= Seq::<Opcode>::empty());
        assert(orig.subrange(0, n as int) =~= orig);
        assert(prepend_all(Seq::<Opcode>::empty(), intern_attributes_spec(names0, consts, orig).1) == intern_attributes_spec(
            names0,
            consts,
            orig,
        ).1) by {
            match intern_attributes_spec(names0, consts, orig).1 {
                Ok(x) => {
                    assert(Seq::<Opcode>::empty() + x =~= x);
                },
                Err(_) => {},
            }
        }
    }
    while i < n
        invariant
            i <= n,
            n == opcodes@.len(),
            n == orig.len(),
            consts == cm.constants.values@,
            names0 == old(globals).names(),
            orig == old(opcodes)@,
            attribute_names_resolve(consts, orig),
            opcodes@.subrange(i as int, n as int) == orig.subrange(i as int, n as int),
            intern_attributes_spec(globals.names(), consts, orig.subrange(i as int, n as int)).0
                == intern_attributes_spec(names0, consts, orig).0,
            prepend_all(opcodes@.subrange(0, i as int), intern_attributes_spec(globals.names(), consts, orig.subrange(i as int, n as int)).1)
                == intern_attributes_spec(names0, consts, orig).1,
        decreases n - i,
    {
        let ghost rest = orig.subrange(i as int, n as int);
        let ghost names_now = globals.names();
        proof {
            assert(rest[0] == orig[i as int]);
            assert(rest.drop_first() =~= orig.subrange(i + 1, n as int));
            assert(opcodes@[i as int] == orig[i as int]) by {
                assert(opcodes@.subrange(i as int, n as int)[0] == orig.subrange(i as int, n as int)[0]);
            }
        }
        let op = opcodes[i];
        let replacement = match op {
            Opcode::ReadAttribute(k) => {
                let name = match cm.load_indexed_const(k) {
                    Some(ConstantValue::String(s)) => s.as_str(),
                    _ => {
                        proof {
                            assert(match orig[i as int] {
                                Opcode::ReadAttribute(n) => string_constant(consts, n) is Some,
                                Opcode::WriteAttribute(n) => string_constant(consts, n) is Some,
                                _ => true,
                            });
                        }
                        return Err(VmErrorReason::UnexpectedVmState);
                    },
                };
                match globals.intern(name) {
                    Ok(sym) => Opcode::ReadAttributeSymbol(sym.0),
                    Err(_) => {
                        proof {
                            assert(name@ == string_constant(consts, k)->Some_0);
                            assert(intern_attributes_spec(names_now, consts, rest).0 == globals.names());
                            assert(intern_attributes_spec(names_now, consts, rest).1 == Err::<Seq<Opcode>, VmErrorReason>(VmErrorReason::UnexpectedVmState));
                        }
                        return Err(VmErrorReason::UnexpectedVmState);
                    },
                }
            },
            Opcode::WriteAttribute(k) => {
                let name = match cm.load_indexed_const(k) {
                    Some(ConstantValue::String(s)) => s.as_str(),
                    _ => {
                        proof {
                            assert(match orig[i as int] {
                                Opcode::ReadAttribute(n) => string_constant(consts, n) is Some,
                                Opcode::WriteAttribute(n) => string_constant(consts, n) is Some,
                                _ => true,
                            });
                        }
                        return Err(VmErrorReason::UnexpectedVmState);
                    },
                };
                match globals.intern(name) {
                    Ok(sym) => Opcode::WriteAttributeSymbol(sym.0),
                    Err(_) => {
                        proof {
                            assert(name@ == string_constant(consts, k)->Some_0);
                            assert(intern_attributes_spec(names_now, consts, rest).0 == globals.names());
                            assert(intern_attributes_spec(names_now, consts, rest).1 == Err::<Seq<Opcode>, VmErrorReason>(VmErrorReason::UnexpectedVmState));
                        }
                        return Err(VmErrorReason::UnexpectedVmState);
                    },
                }
            },
            Opcode::ReadAttributeSymbol(_) => {
                proof {
                    assert(intern_attributes_spec(names_now, consts, rest).1 == Err::<Seq<Opcode>, VmErrorReason>(VmErrorReason::UnexpectedVmState));
                }
                return Err(VmErrorReason::UnexpectedVmState);
            },
            Opcode::WriteAttributeSymbol(_) => {
                proof {
                    assert(intern_attributes_spec(names_now, consts, rest).1 == Err::<Seq<Opcode>, VmErrorReason>(VmErrorReason::UnexpectedVmState));
                }
                return Err(VmErrorReason::UnexpectedVmState);
            },
            other => other,
        };
        let ghost before = opcodes@;
        opcodes.set(i, replacement);
        proof {
            assert(opcodes@.subrange(0, i + 1) =~= before.subrange(0, i as int).push(replacement));
            assert(opcodes@.subrange(i + 1, n as int) =~= before.subrange(i + 1, n as int));
            assert(before.subrange(i + 1, n as int) =~= before.subrange(i as int, n as int).drop_first());
            let tail = intern_attributes_spec(globals.names(), consts, orig.subrange(i + 1, n as int)).1;
            match tail {
                Ok(t) => {
                    assert(before.subrange(0, i as int) + (seq![replacement] + t) =~= opcodes@.subrange(0, i + 1) + t);
                },
                Err(_) => {},
            }
        }
        i += 1;
    }
    proof {
        assert(orig.subrange(n as int, n as int) =~= Seq::<Opcode>::empty());
        assert(opcodes@.subrange(0, n as int) =~= opcodes@);
        assert(opcodes@ + Seq::<Opcode>::empty() =~= opcodes@);
    }
    Ok(())
}


/// A function body as the virtual machine runs it.
pub struct RuntimeCodeObject {
    pub name: String,
    pub body: Vec<Opcode>,
    pub required_argc: u8,
    pub default_argc: u8,
    pub frame_size: u8,
    pub line_table: LineTable,
}

/// Whether the attribute instructions of `body`, once decoded, name string
/// constants of `consts`.
pub open spec fn body_names_resolve(consts: Seq<ConstantValue>, body: Seq<u8>) -> bool {
    body.len() <= MAX_BYTECODE_LEN ==> (decode_stream(body, 0) matches Ok(ops) ==> attribute_names_resolve(consts, ops))
}

/// The interned names and the instructions of a loaded body: decoding errors
/// are reported as such; a decoded body has its attribute names interned.
pub open spec fn load_body_spec(names: Seq<Seq<char>>, consts: Seq<ConstantValue>, body: Seq<u8>) -> (
    Seq<Seq<char>>,
    Result<Seq<Opcode>, VmErrorReason>,
) {
    if body.len() > MAX_BYTECODE_LEN {
        (names, Err(VmErrorReason::BytecodeDecodeError(crate::bc_reader::DecodeError::DataTooLarge)))
    } else {
        match decode_stream(body, 0) {
            Ok(ops) => intern_attributes_spec(names, consts, ops),
            Err(e) => (names, Err(VmErrorReason::BytecodeDecodeError(e))),
        }
    }
}

/// Makes the compiled body `cco` runnable: decodes it and interns the names of
/// the attributes it reads and writes.
pub fn compiled_code_object_to_runtime_code_object(globals: &mut Interner, cm: &CompiledModule, cco: &CompiledCodeObject) -> (r: Result<RuntimeCodeObject, VmErrorReason>)
    requires
        body_names_resolve(cm.constants.values@, cco.body@),
    ensures
        ({
            let (names, out) = load_body_spec(old(globals).names(), cm.constants.values@, cco.body@);
            &&& final(globals).names() == names
            &&& r matches Ok(co) ==> (out == Ok::<Seq<Opcode>, VmErrorReason>(co.body@) && co.name@ == cco.name@
                && co.required_argc == cco.required_argc && co.default_argc == cco.default_argc && co.frame_size
                == cco.frame_size && line_entries_view(co.line_table.entries@) == line_entries_view(cco.line_table.entries@))
            &&& r matches Err(e) ==> (out matches Err(f) && crate::errors::same_reason(e, f))
        }),
{
    let mut ops = match byte_array_to_opcode_array(cco.body.as_slice()) {
        Ok(ops) => ops,
        Err(e) => {
            return Err(VmErrorReason::BytecodeDecodeError(e));
        },
    };
    replace_attribute_access_with_interned(globals, cm, &mut ops)?;
    Ok(RuntimeCodeObject {
        name: cco.name.clone(),
        body: ops,
        required_argc: cco.required_argc,
        default_argc: cco.default_argc,
        frame_size: cco.frame_size,
        line_table: cco.line_table.duplicate(),
    })
}

/// A constant of a loaded module.
pub enum RuntimeConstant {
    Integer(i64),
    String(String),
    CodeObject(RuntimeCodeObject),
}

/// Whether every compiled body among `consts` names only string constants in
/// its attribute instructions.
pub open spec fn module_names_resolve(consts: Seq<ConstantValue>) -> bool {
    forall|i: int|
        0 <= i < consts.len() ==> match #[trigger] consts[i] {
            ConstantValue::CompiledCodeObject(c) => body_names_resolve(consts, c.body@),
            _ => true,
        }
}

/// The interned names and the instructions of the loaded bodies of the first
/// `k` constants (none for a constant that is not a body), stopping at the
/// first failure.
pub open spec fn load_bodies_spec(names: Seq<Seq<char>>, consts: Seq<ConstantValue>, k: nat) -> (
    Seq<Seq<char>>,
    Result<Seq<Seq<Opcode>>, VmErrorReason>,
)
    decreases k,
{
    if k == 0 {
        (names, Ok(Seq::empty()))
    } else {
        let (n1, r1) = load_bodies_spec(names, consts, (k - 1) as nat);
        match r1 {
            Err(e) => (n1, Err(e)),
            Ok(bodies) => match consts[k - 1] {
                ConstantValue::CompiledCodeObject(c) => {
                    let (n2, out) = load_body_spec(n1, consts, c.body@);
                    match out {
                        Ok(ops) => (n2, Ok(bodies.push(ops))),
                        Err(e) => (n2, Err(e)),
                    }
                },
                _ => (n1, Ok(bodies.push(Seq::empty()))),
            },
        }
    }
}

/// Whether `rc` is the loaded form of the constant `c`, a body becoming the
/// instructions `ops`.
pub open spec fn loaded_as(c: ConstantValue, rc: RuntimeConstant, ops: Seq<Opcode>) -> bool {
    match (c, rc) {
        (ConstantValue::Integer(n), RuntimeConstant::Integer(m)) => n == m,
        (ConstantValue::String(s), RuntimeConstant::String(t)) => s@ == t@,
        (ConstantValue::CompiledCodeObject(cco), RuntimeConstant::CodeObject(co)) => co.body@ == ops && co.name@
            == cco.name@ && co.required_argc == cco.required_argc && co.default_argc == cco.default_argc
            && co.frame_size == cco.frame_size && line_entries_view(co.line_table.entries@) == line_entries_view(
            cco.line_table.entries@,
        ),
        _ => false,
    }
}

/// Loads the constants of `cm`, in order: numbers and texts as they are,
/// bodies made runnable; the first body that fails to load fails the whole.
pub fn load_module_constants(globals: &mut Interner, cm: &CompiledModule) -> (r: Result<Vec<RuntimeConstant>, VmErrorReason>)
    requires
        module_names_resolve(cm.constants.values@),
    ensures
        ({
            let consts = cm.constants.values@;
            let (names, out) = load_bodies_spec(old(globals).names(), consts, consts.len());
            &&& final(globals).names() == names
            &&& r matches Ok(v) ==> (out matches Ok(bodies) && v@.len() == consts.len() && forall|i: int|
                0 <= i < consts.len() ==> loaded_as(consts[i], #[trigger] v@[i], bodies[i]))
            &&& r matches Err(e) ==> (out matches Err(f) && crate::errors::same_reason(e, f))
        }),
{
    let ghost consts = cm.constants.values@;
    let ghost names0 = globals.names();
    let n = cm.constants.values.len();
    let mut out: Vec<RuntimeConstant> = Vec::new();
    let mut i: usize = 0;
    while i < n
        invariant
            i <= n,
            n == consts.len(),
            consts == cm.constants.values@,
            names0 == old(globals).names(),
            module_names_resolve(consts),
            globals.names() == load_bodies_spec(names0, consts, i as nat).0,
            load_bodies_spec(names0, consts, i as nat).1 matches Ok(bodies) && bodies.len() == i && out@.len() == i && forall|k: int|
                0 <= k < i ==> loaded_as(consts[k], #[trigger] out@[k], bodies[k]),
        decreases n - i,
    {
        let ghost bodies = load_bodies_spec(names0, consts, i as nat).1->Ok_0;
        let ghost names_i = globals.names();
        let ghost mut step: Seq<Opcode> = Seq::empty();
        let rc = match &cm.constants.values[i] {
            ConstantValue::Integer(x) => RuntimeConstant::Integer(*x),
            ConstantValue::String(s) => RuntimeConstant::String(s.clone()),
            ConstantValue::CompiledCodeObject(c) => {
                proof {
                    assert(match consts[i as int] {
                        ConstantValue::CompiledCodeObject(c) => body_names_resolve(consts, c.body@),
                        _ => true,
                    });
                }
                match compiled_code_object_to_runtime_code_object(globals, cm, c) {
                    Ok(co) => {
                        proof {
                            step = co.body@;
                            assert(load_body_spec(names_i, consts, c.body@).1 == Ok::<Seq<Opcode>, VmErrorReason>(step));
                        }
                        RuntimeConstant::CodeObject(co)
                    },
                    Err(e) => {
                        proof {
                            assert(load_bodies_spec(names0, consts, (i + 1) as nat).1 is Err);
                            lemma_load_bodies_stays_failed(names0, consts, (i + 1) as nat, consts.len());
                        }
                        return Err(e);
                    },
                }
            },
        };
        proof {
            assert(load_bodies_spec(names0, consts, (i + 1) as nat).1 == Ok::<Seq<Seq<Opcode>>, VmErrorReason>(
                bodies.push(step),
            ));
            assert(loaded_as(consts[i as int], rc, step));
        }
        let ghost before = out@;
        out.push(rc);
        proof {
            let nb = bodies.push(step);
            assert forall|k: int| 0 <= k < i + 1 implies loaded_as(consts[k], #[trigger] out@[k], nb[k]) by {
                if k < i {
                    assert(out@[k] == before[k]);
                    assert(nb[k] == bodies[k]);
                }
            }
        }
        i += 1;
    }
    Ok(out)
}

/// Once loading the constants has failed, loading more of them fails the
/// same way and interns nothing more.
proof fn lemma_load_bodies_stays_failed(names: Seq<Seq<char>>, consts: Seq<ConstantValue>, k: nat, m: nat)
    requires
        k <= m,
        load_bodies_spec(names, consts, k).1 is Err,
    ensures
        load_bodies_spec(names, consts, m) == load_bodies_spec(names, consts, k),
    decreases m - k,
{
    if k < m {
        lemma_load_bodies_stays_failed(names, consts, k, (m - 1) as nat);
    }
}


/// A value that a module holds under a name, with the type its stores are
/// checked against.
pub struct NamedValue<V, T> {
    pub val: V,
    pub ty: T,
}

/// Whether no name occurs twice among `entries`.
pub open spec fn distinct_keys<V, T>(entries: Seq<(String, NamedValue<V, T>)>) -> bool {
    forall|i: int, j: int| 0 <= i < entries.len() && 0 <= j < entries.len() && i != j ==> entries[i].0@ != entries[j].0@
}

/// The position of `name` among `entries`, if it is there.
pub open spec fn key_index<V, T>(entries: Seq<(String, NamedValue<V, T>)>, name: Seq<char>) -> Option<int> {
    if exists|i: int| 0 <= i < entries.len() && entries[i].0@ == name {
        Some(choose|i: int| 0 <= i < entries.len() && entries[i].0@ == name)
    } else {
        None
    }
}

/// The named values of `entries`, by name.
pub open spec fn entries_map<V, T>(entries: Seq<(String, NamedValue<V, T>)>) -> Map<Seq<char>, (V, T)> {
    Map::new(
        |k: Seq<char>| key_index(entries, k) is Some,
        |k: Seq<char>| {
            let e = entries[key_index(entries, k)->Some_0].1;
            (e.val, e.ty)
        },
    )
}

proof fn lemma_key_index_at<V, T>(entries: Seq<(String, NamedValue<V, T>)>, i: int)
    requires
        distinct_keys(entries),
        0 <= i < entries.len(),
    ensures
        key_index(entries, entries[i].0@) == Some(i),
{
    let c = choose|k: int| 0 <= k < entries.len() && entries[k].0@ == entries[i].0@;
    assert(0 <= c < entries.len() && entries[c].0@ == entries[i].0@);
}

proof fn lemma_update_entry<V, T>(entries: Seq<(String, NamedValue<V, T>)>, i: int, nv: NamedValue<V, T>)
    requires
        distinct_keys(entries),
        0 <= i < entries.len(),
    ensures
        ({
            let e2 = entries.update(i, (entries[i].0, nv));
            &&& distinct_keys(e2)
            &&& entries_map(e2) == entries_map(entries).insert(entries[i].0@, (nv.val, nv.ty))
        }),
{
    let e2 = entries.update(i, (entries[i].0, nv));
    let k0 = entries[i].0@;
    assert forall|k: Seq<char>| #[trigger] key_index(e2, k) is Some <==> key_index(entries, k) is Some by {
        if key_index(entries, k) is Some {
            let j = choose|j: int| 0 <= j < entries.len() && entries[j].0@ == k;
            assert(e2[j].0@ == k);
        }
        if key_index(e2, k) is Some {
            let j = choose|j: int| 0 <= j < e2.len() && e2[j].0@ == k;
            assert(entries[j].0@ == k);
        }
    }
    assert forall|k: Seq<char>| key_index(e2, k) is Some implies #[trigger] key_index(e2, k) == key_index(entries, k) by {
        let j = choose|j: int| 0 <= j < entries.len() && entries[j].0@ == k;
        assert(0 <= j < entries.len() && entries[j].0@ == k);
        lemma_key_index_at(entries, j);
        lemma_key_index_at(e2, j);
    }
    lemma_key_index_at(e2, i);
    assert(entries_map(e2) =~= entries_map(entries).insert(k0, (nv.val, nv.ty)));
}

proof fn lemma_push_entry<V, T>(entries: Seq<(String, NamedValue<V, T>)>, name: String, nv: NamedValue<V, T>)
    requires
        distinct_keys(entries),
        key_index(entries, name@) is None,
    ensures
        ({
            let e2 = entries.push((name, nv));
            &&& distinct_keys(e2)
            &&& entries_map(e2) == entries_map(entries).insert(name@, (nv.val, nv.ty))
        }),
{
    let e2 = entries.push((name, nv));
    assert forall|i: int, j: int| 0 <= i < e2.len() && 0 <= j < e2.len() && i != j implies e2[i].0@ != e2[j].0@ by {
        if i == entries.len() as int {
            assert(entries[j].0@ != name@);
        }
        if j == entries.len() as int {
            assert(entries[i].0@ != name@);
        }
    }
    assert forall|k: Seq<char>| key_index(entries, k) is Some implies #[trigger] key_index(e2, k) == key_index(entries, k) by {
        let j = choose|j: int| 0 <= j < entries.len() && entries[j].0@ == k;
        assert(0 <= j < entries.len() && entries[j].0@ == k);
        lemma_key_index_at(entries, j);
        assert(e2[j] == entries[j]);
        lemma_key_index_at(e2, j);
    }
    assert forall|k: Seq<char>| #[trigger] key_index(e2, k) is Some <==> (key_index(entries, k) is Some || k == name@) by {
        if key_index(e2, k) is Some {
            let j = choose|j: int| 0 <= j < e2.len() && e2[j].0@ == k;
            if j < entries.len() {
                assert(entries[j].0@ == k);
            }
        }
        if key_index(entries, k) is Some {
            let j = choose|j: int| 0 <= j < entries.len() && entries[j].0@ == k;
            assert(e2[j].0@ == k);
        }
        if k == name@ {
            assert(e2[entries.len() as int].0@ == k);
        }
    }
    lemma_key_index_at(e2, entries.len() as int);
    assert(entries_map(e2) =~= entries_map(entries).insert(name@, (nv.val, nv.ty)));
}

/// The values a module holds, by name.
pub struct ModuleValues<V, T> {
    entries: Vec<(String, NamedValue<V, T>)>,
}

impl<V, T> ModuleValues<V, T> {
    /// The named values, by name: each its value and its type.
    pub closed spec fn map(&self) -> Map<Seq<char>, (V, T)> {
        entries_map(self.entries@)
    }

    #[verifier::type_invariant]
    closed spec fn inv(&self) -> bool {
        distinct_keys(self.entries@)
    }

    /// A module that holds no named value.
    pub fn new() -> (r: Self)
        ensures
            r.map() == Map::<Seq<char>, (V, T)>::empty(),
    {
        let r = ModuleValues { entries: Vec::new() };
        assert(entries_map(r.entries@) =~= Map::<Seq<char>, (V, T)>::empty());
        r
    }

    fn find(&self, name: &str) -> (r: Option<usize>)
        ensures
            r is Some <==> key_index(self.entries@, name@) is Some,
            r matches Some(i) ==> i < self.entries@.len() && self.entries@[i as int].0@ == name@ && key_index(
                self.entries@,
                name@,
            ) == Some(i as int),
    {
        proof {
            use_type_invariant(self);
        }
        let r = find_in(&self.entries, name);
        proof {
            match r {
                Some(i) => lemma_key_index_at(self.entries@, i as int),
                None => {},
            }
        }
        r
    }

    /// Whether the module holds a value named `name`.
    pub fn contains(&self, name: &str) -> (r: bool)
        ensures
            r == self.map().dom().contains(name@),
    {
        self.find(name).is_some()
    }

    /// The value named `name`, if the module holds one.
    pub fn load_named_value(&self, name: &str) -> (r: Option<&V>)
        ensures
            r is Some <==> self.map().dom().contains(name@),
            r matches Some(v) ==> self.map()[name@].0 == *v,
    {
        match self.find(name) {
            Some(i) => Some(&self.entries[i].1.val),
            None => None,
        }
    }

    /// Stores `val` under `name`: a value already there is replaced and keeps
    /// its type; a new name gets the type `untyped`, which accepts anything.
    pub fn store_named_value(&mut self, name: &str, val: V, untyped: T)
        ensures
            old(self).map().dom().contains(name@) ==> final(self).map() == old(self).map().insert(
                name@,
                (val, old(self).map()[name@].1),
            ),
            !old(self).map().dom().contains(name@) ==> final(self).map() == old(self).map().insert(name@, (val, untyped)),
    {
        proof {
            use_type_invariant(&*self);
        }
        let mut entries: Vec<(String, NamedValue<V, T>)> = Vec::new();
        std::mem::swap(&mut entries, &mut self.entries);
        let ghost old_entries = entries@;
        let pos = find_in(&entries, name);
        match pos {
            Some(i) => {
                let (key, old_nv) = entries.remove(i);
                let nv = NamedValue { val, ty: old_nv.ty };
                proof {
                    lemma_update_entry(old_entries, i as int, nv);
                    assert(old_entries.update(i as int, (key, nv)) =~= entries@.insert(i as int, (key, nv)));
                }
                entries.insert(i, (key, nv));
            },
            None => {
                let nv = NamedValue { val, ty: untyped };
                let key = name.to_owned();
                proof {
                    lemma_push_entry(old_entries, key, nv);
                }
                entries.push((key, nv));
            },
        }
        self.entries = entries;
    }

    /// Gives `name` the type `ty`: a value already there keeps its value; a new
    /// name holds `placeholder` until something is stored.
    pub fn typedef_named_value(&mut self, name: &str, ty: T, placeholder: V)
        ensures
            old(self).map().dom().contains(name@) ==> final(self).map() == old(self).map().insert(
                name@,
                (old(self).map()[name@].0, ty),
            ),
            !old(self).map().dom().contains(name@) ==> final(self).map() == old(self).map().insert(name@, (placeholder, ty)),
    {
        proof {
            use_type_invariant(&*self);
        }
        let mut entries: Vec<(String, NamedValue<V, T>)> = Vec::new();
        std::mem::swap(&mut entries, &mut self.entries);
        let ghost old_entries = entries@;
        let pos = find_in(&entries, name);
        match pos {
            Some(i) => {
                let (key, old_nv) = entries.remove(i);
                let nv = NamedValue { val: old_nv.val, ty };
                proof {
                    lemma_update_entry(old_entries, i as int, nv);
                    assert(old_entries.update(i as int, (key, nv)) =~= entries@.insert(i as int, (key, nv)));
                }
                entries.insert(i, (key, nv));
            },
            None => {
                let nv = NamedValue { val: placeholder, ty };
                let key = name.to_owned();
                proof {
                    lemma_push_entry(old_entries, key, nv);
                }
                entries.push((key, nv));
            },
        }
        self.entries = entries;
    }

    /// Stores `val` under `name` if the type of `name` accepts it, as `isa`
    /// judges: a name the module lacks is reported missing, a value the type
    /// refuses is reported of the wrong type, and in both cases nothing changes.
    pub fn store_typechecked_named_value<F: Fn(&T, &V) -> bool>(&mut self, name: &str, val: V, isa: &F) -> (r: Result<(), VmErrorReason>)
        requires
            forall|t: &T, v: &V| #[trigger] isa.requires((t, v)),
        ensures
            !old(self).map().dom().contains(name@) ==> (r matches Err(VmErrorReason::NoSuchIdentifier(s)) && s@
                == name@ && final(self).map() == old(self).map()),
            old(self).map().dom().contains(name@) && r is Ok ==> (isa.ensures((&old(self).map()[name@].1, &val), true)
                && final(self).map() == old(self).map().insert(name@, (val, old(self).map()[name@].1))),
            old(self).map().dom().contains(name@) && r is Err ==> (isa.ensures((&old(self).map()[name@].1, &val), false)
                && (r matches Err(e) && e is UnexpectedType) && final(self).map() == old(self).map()),
    {
        proof {
            use_type_invariant(&*self);
        }
        let pos = self.find(name);
        match pos {
            None => Err(VmErrorReason::NoSuchIdentifier(name.to_owned())),
            Some(i) => {
                let fits = isa(&self.entries[i].1.ty, &val);
                if !fits {
                    return Err(VmErrorReason::UnexpectedType);
                }
                let mut entries: Vec<(String, NamedValue<V, T>)> = Vec::new();
                std::mem::swap(&mut entries, &mut self.entries);
                let ghost old_entries = entries@;
                let (key, old_nv) = entries.remove(i);
                let nv = NamedValue { val, ty: old_nv.ty };
                proof {
                    lemma_update_entry(old_entries, i as int, nv);
                    assert(old_entries.update(i as int, (key, nv)) =~= entries@.insert(i as int, (key, nv)));
                }
                entries.insert(i, (key, nv));
                self.entries = entries;
                Ok(())
            },
        }
    }

    /// The names the module holds values under.
    pub fn list_named_values(&self) -> (r: Vec<String>)
        ensures
            forall|k: Seq<char>| self.map().dom().contains(k) <==> exists|i: int| 0 <= i < r@.len() && #[trigger] r@[i]@ == k,
    {
        proof {
            use_type_invariant(self);
        }
        let mut r: Vec<String> = Vec::new();
        let mut i: usize = 0;
        while i < self.entries.len()
            invariant
                i <= self.entries@.len(),
                r@.len() == i,
                forall|k: int| 0 <= k < i ==> #[trigger] r@[k]@ == self.entries@[k].0@,
            decreases self.entries@.len() - i,
        {
            r.push(self.entries[i].0.clone());
            i += 1;
        }
        proof {
            assert forall|k: Seq<char>| self.map().dom().contains(k) <==> exists|i: int| 0 <= i < r@.len() && #[trigger] r@[i]@ == k by {
                if self.map().dom().contains(k) {
                    let j = choose|j: int| 0 <= j < self.entries@.len() && self.entries@[j].0@ == k;
                    assert(r@[j]@ == k);
                }
                if exists|i: int| 0 <= i < r@.len() && #[trigger] r@[i]@ == k {
                    let j = choose|j: int| 0 <= j < r@.len() && #[trigger] r@[j]@ == k;
                    assert(self.entries@[j].0@ == k);
                }
            }
        }
        r
    }
}

impl<V: Clone, T: Clone> ModuleValues<V, T> {
    /// The names and named values of the module, each once.
    pub fn named_values_of_this(&self) -> (r: Vec<(String, NamedValue<V, T>)>)
        ensures
            r@.len() == self.map().dom().len(),
            forall|i: int, j: int| 0 <= i < r@.len() && 0 <= j < r@.len() && i != j ==> r@[i].0@ != r@[j].0@,
            forall|k: Seq<char>| self.map().dom().contains(k) <==> exists|i: int| 0 <= i < r@.len() && #[trigger] r@[i].0@ == k,
            forall|i: int| 0 <= i < r@.len() ==> cloned::<V>(self.map()[#[trigger] r@[i].0@].0, r@[i].1.val)
                && cloned::<T>(self.map()[r@[i].0@].1, r@[i].1.ty),
    {
        proof {
            use_type_invariant(self);
        }
        let mut r: Vec<(String, NamedValue<V, T>)> = Vec::new();
        let mut i: usize = 0;
        while i < self.entries.len()
            invariant
                i <= self.entries@.len(),
                distinct_keys(self.entries@),
                r@.len() == i,
                forall|k: int| 0 <= k < i ==> #[trigger] r@[k].0@ == self.entries@[k].0@,
                forall|k: int| 0 <= k < i ==> cloned::<V>(self.entries@[k].1.val, #[trigger] r@[k].1.val)
                    && cloned::<T>(self.entries@[k].1.ty, r@[k].1.ty),
            decreases self.entries@.len() - i,
        {
            let e = &self.entries[i];
            let item = (e.0.clone(), NamedValue { val: e.1.val.clone(), ty: e.1.ty.clone() });
            r.push(item);
            i += 1;
        }
        proof {
            let es = self.entries@;
            assert forall|k: Seq<char>| self.map().dom().contains(k) <==> exists|i: int| 0 <= i < r@.len() && #[trigger] r@[i].0@ == k by {
                if self.map().dom().contains(k) {
                    let j = choose|j: int| 0 <= j < es.len() && es[j].0@ == k;
                    assert(r@[j].0@ == k);
                }
                if exists|i: int| 0 <= i < r@.len() && #[trigger] r@[i].0@ == k {
                    let j = choose|j: int| 0 <= j < r@.len() && #[trigger] r@[j].0@ == k;
                    assert(es[j].0@ == k);
                }
            }
            assert forall|i: int| 0 <= i < r@.len() implies cloned::<V>(self.map()[#[trigger] r@[i].0@].0, r@[i].1.val)
                && cloned::<T>(self.map()[r@[i].0@].1, r@[i].1.ty) by {
                lemma_key_index_at(es, i);
            }
            lemma_entries_dom_len(es);
        }
        r
    }
}

impl<V: Clone, T: Clone> ModuleValues<V, T> {
    /// Takes over every named value of `prior_art`: each name gets its type
    /// there (a new name holding `placeholder` meanwhile), then its value,
    /// checked against that type by `isa`; the first value refused stops the
    /// lifting.
    pub fn lift_all_symbols_from_other<F: Fn(&T, &V) -> bool>(&mut self, prior_art: &Self, placeholder: &V, isa: &F) -> (r: Result<(), VmErrorReason>)
        requires
            forall|t: &T, v: &V| #[trigger] isa.requires((t, v)),
        ensures
            r matches Err(e) ==> e is UnexpectedType,
            forall|k: Seq<char>| #[trigger] final(self).map().dom().contains(k) ==> old(self).map().dom().contains(k)
                || prior_art.map().dom().contains(k),
            forall|k: Seq<char>| old(self).map().dom().contains(k) ==> #[trigger] final(self).map().dom().contains(k),
            forall|k: Seq<char>| #[trigger] old(self).map().dom().contains(k) && !prior_art.map().dom().contains(k)
                ==> final(self).map()[k] == old(self).map()[k],
            r is Ok ==> forall|k: Seq<char>| #[trigger] prior_art.map().dom().contains(k) ==> final(self).map().dom().contains(k)
                && cloned::<V>(prior_art.map()[k].0, final(self).map()[k].0) && cloned::<T>(prior_art.map()[k].1, final(self).map()[k].1),
    {
        let mut items = prior_art.named_values_of_this();
        let ghost all = items@;
        let ghost pm = prior_art.map();
        let ghost om = self.map();
        let n = items.len();
        while items.len() > 0
            invariant
                items@.len() <= n,
                n == all.len(),
                items@ == all.subrange(0, items@.len() as int),
                pm == prior_art.map(),
                om == old(self).map(),
                forall|t: &T, v: &V| #[trigger] isa.requires((t, v)),
                forall|k: Seq<char>| pm.dom().contains(k) <==> exists|j: int| 0 <= j < all.len() && #[trigger] all[j].0@ == k,
                forall|j: int| 0 <= j < all.len() ==> cloned::<V>(pm[#[trigger] all[j].0@].0, all[j].1.val)
                    && cloned::<T>(pm[all[j].0@].1, all[j].1.ty),
                forall|j1: int, j2: int| 0 <= j1 < all.len() && 0 <= j2 < all.len() && j1 != j2 ==> all[j1].0@ != all[j2].0@,
                forall|k: Seq<char>| #[trigger] self.map().dom().contains(k) ==> om.dom().contains(k) || pm.dom().contains(k),
                forall|k: Seq<char>| om.dom().contains(k) ==> #[trigger] self.map().dom().contains(k),
                forall|k: Seq<char>| #[trigger] om.dom().contains(k) && !pm.dom().contains(k) ==> self.map()[k] == om[k],
                forall|j: int| items@.len() <= j < n ==> self.map().dom().contains(#[trigger] all[j].0@) && self.map()[all[j].0@]
                    == (all[j].1.val, all[j].1.ty),
            decreases items@.len(),
        {
            let ghost k = items@.len() - 1;
            let item = items.pop().unwrap();
            let (name, nv) = item;
            proof {
                assert(item == all[k]);
                assert(pm.dom().contains(all[k].0@));
            }
            self.typedef_named_value(name.as_str(), nv.ty, placeholder.clone());
            let res = self.store_typechecked_named_value(name.as_str(), nv.val, isa);
            proof {
                assert(items@ =~= all.subrange(0, k));
                assert forall|j: int| k < j < n implies self.map().dom().contains(#[trigger] all[j].0@) && self.map()[all[j].0@]
                    == (all[j].1.val, all[j].1.ty) by {
                    assert(all[j].0@ != all[k].0@);
                }
            }
            match res {
                Ok(()) => {},
                Err(e) => {
                    return Err(e);
                },
            }
        }
        proof {
            assert forall|q: Seq<char>| #[trigger] pm.dom().contains(q) implies self.map().dom().contains(q) && cloned::<V>(
                pm[q].0,
                self.map()[q].0,
            ) && cloned::<T>(pm[q].1, self.map()[q].1) by {
                let j = choose|j: int| 0 <= j < all.len() && #[trigger] all[j].0@ == q;
                assert(self.map().dom().contains(all[j].0@));
            }
        }
        Ok(())
    }
}

proof fn lemma_entries_dom_len<V, T>(entries: Seq<(String, NamedValue<V, T>)>)
    requires
        distinct_keys(entries),
    ensures
        entries_map(entries).dom().len() == entries.len(),
        entries_map(entries).dom().finite(),
    decreases entries.len(),
{
    let m = entries_map(entries);
    if entries.len() == 0 {
        assert(m.dom() =~= Set::<Seq<char>>::empty());
    } else {
        let init = entries.drop_last();
        let last = entries.last();
        assert(distinct_keys(init));
        lemma_entries_dom_len(init);
        assert forall|k: Seq<char>| #[trigger] key_index(entries, k) is Some <==> (key_index(init, k) is Some || k == last.0@) by {
            if key_index(entries, k) is Some {
                let j = choose|j: int| 0 <= j < entries.len() && entries[j].0@ == k;
                if j < init.len() {
                    assert(init[j].0@ == k);
                }
            }
            if key_index(init, k) is Some {
                let j = choose|j: int| 0 <= j < init.len() && init[j].0@ == k;
                assert(entries[j].0@ == k);
            }
            if k == last.0@ {
                assert(entries[entries.len() - 1].0@ == k);
            }
        }
        assert(m.dom() =~= entries_map(init).dom().insert(last.0@));
        if entries_map(init).dom().contains(last.0@) {
            let j = choose|j: int| 0 <= j < init.len() && init[j].0@ == last.0@;
            assert(entries[j].0@ == entries[entries.len() - 1].0@);
        }
    }
}

fn find_in<V, T>(entries: &Vec<(String, NamedValue<V, T>)>, name: &str) -> (r: Option<usize>)
    requires
        distinct_keys(entries@),
    ensures
        r is Some <==> key_index(entries@, name@) is Some,
        r matches Some(i) ==> i < entries@.len() && entries@[i as int].0@ == name@,
{
    let wanted = name.to_owned();
    let mut i: usize = 0;
    while i < entries.len()
        invariant
            i <= entries@.len(),
            wanted@ == name@,
            forall|k: int| 0 <= k < i ==> entries@[k].0@ != name@,
        decreases entries@.len() - i,
    {
        if entries[i].0 == wanted {
            return Some(i);
        }
        i += 1;
    }
    None
}

/// Storing a value under a name and then loading that name gives the value
/// stored, and leaves every other name as it was.
pub proof fn lemma_store_then_load<V, T>(m: Map<Seq<char>, (V, T)>, name: Seq<char>, val: V, ty: T, other: Seq<char>)
    ensures
        m.insert(name, (val, ty)).dom().contains(name),
        m.insert(name, (val, ty))[name].0 == val,
        other != name ==> (m.insert(name, (val, ty)).dom().contains(other) == m.dom().contains(other)),
        other != name && m.dom().contains(other) ==> m.insert(name, (val, ty))[other] == m[other],
{
}

} // verus!
