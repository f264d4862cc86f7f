use haxby::compiled::{CompiledCodeObject, CompiledModule, ConstantValue, ConstantValues, LineTable, RuntimeOpcodePrinter};
use haxby::dump::{const_best_repr, opcode_prettyprint, try_protocol_mode_to_str};
use haxby::opcodes::{BuiltinTypeId, Opcode, OPCODE_CALL, OPCODE_PUSH, OPCODE_READ_ATTRIBUTE, OPCODE_RETURN};
use haxby::shape::{ShapeId, SlotId};
use haxby::sidecar::{sidecar_prettyprint, NewEnumValSidecar, OpcodeSidecar, ReadAttributeSidecar};
use haxby::symbol::Interner;

fn sample_module() -> CompiledModule {
    CompiledModule {
        constants: ConstantValues {
            values: vec![
                ConstantValue::String("greeting".to_owned()),
                ConstantValue::Integer(-42),
                ConstantValue::CompiledCodeObject(CompiledCodeObject {
                    name: "main".to_owned(),
                    body: vec![OPCODE_PUSH, 0, 0, OPCODE_READ_ATTRIBUTE, 0, 0, OPCODE_CALL, 1, OPCODE_RETURN],
                    required_argc: 1,
                    default_argc: 0,
                    frame_size: 3,
                    line_table: LineTable { entries: vec![(1, "main.aria:4".to_owned()), (3, "main.aria:5".to_owned())] },
                }),
            ],
        },
    }
}

#[test]
fn instructions_show_their_constants() {
    let m = sample_module();
    assert_eq!(opcode_prettyprint(&Opcode::Push(0), &m, String::new()), "PUSH(@0) [greeting]");
    assert_eq!(opcode_prettyprint(&Opcode::Push(7), &m, String::new()), "PUSH(@7) [invalid const @7]");
    assert_eq!(opcode_prettyprint(&Opcode::Call(2), &m, "> ".to_owned()), "> CALL(2)");
    assert_eq!(opcode_prettyprint(&Opcode::JumpIfArgSupplied(1, 20), &m, String::new()), "JUMP_IF_ARG_SUPPLIED(1,20)");
    assert_eq!(opcode_prettyprint(&Opcode::PushBuiltinTy(BuiltinTypeId::Int), &m, String::new()), "PUSH_BUILTIN_TY(2) [Int]");
    assert_eq!(opcode_prettyprint(&Opcode::TryUnwrapProtocol(1), &m, String::new()), "TRY_UNWRAP_PROTOCOL ASSERT");
    assert_eq!(opcode_prettyprint(&Opcode::BindMethod(1, 0), &m, String::new()), "BIND_METHOD(1,@0) [greeting]");
    assert_eq!(opcode_prettyprint(&Opcode::Push(1), &m, String::new()), "PUSH(@1) [-42]");
    let mut buf = String::new();
    const_best_repr(&mut buf, &m, 1);
    assert_eq!(buf, "-42");
    let mut buf = String::new();
    const_best_repr(&mut buf, &m, 2);
    assert_eq!(buf, "main");
    let mut buf = String::new();
    const_best_repr(&mut buf, &m, 9);
    assert_eq!(buf, "invalid const @9");
}

#[test]
fn line_tables_give_source_locations() {
    let t = LineTable { entries: vec![(2, "a:1".to_owned()), (2, "a:9".to_owned()), (5, "a:3".to_owned())] };
    assert_eq!(t.get(2), Some("a:1"));
    assert_eq!(t.get(5), Some("a:3"));
    assert_eq!(t.get(0), None);
    assert_eq!(LineTable::new().get(0), None);
    let d = t.duplicate();
    assert_eq!(d.entries, t.entries);
}

#[test]
fn run_time_symbols_come_from_the_interner() {
    let mut globals = Interner::new_empty();
    let sym = globals.intern("size").unwrap();
    let printer = RuntimeOpcodePrinter { globals: Some(&globals), module: None };
    assert_eq!(opcode_prettyprint(&Opcode::ReadAttributeSymbol(sym.0), &printer, String::new()), "READ_ATTRIB_SYMBOL(0) [size]");
    assert_eq!(
        opcode_prettyprint(&Opcode::WriteAttributeSymbol(5), &printer, String::new()),
        "WRITE_ATTRIB_SYMBOL(5) [invalid symbol @5]"
    );
    assert_eq!(opcode_prettyprint(&Opcode::Push(0), &printer, String::new()), "PUSH(@0) [invalid const @0]");
}

#[test]
fn module_listing() {
    let m = sample_module();
    let text = m.prettyprint(String::new());
    let expected = [
        "cv @0 -> str(\"greeting\")\n",
        "cv @1 -> int(-42)\n",
        "cv @2 -> cco(name:\"main required arguments:1 default arguments:0 frame size:3) bc=\n",
        "    00000: PUSH(@0) [greeting]\n",
        "    00001: READ_ATTRIB(@0) [greeting] --> main.aria:4\n",
        "    00002: CALL(1)\n",
        "    00003: RETURN --> main.aria:5\n",
        "\n",
    ]
    .concat();
    assert_eq!(text, expected);
}

#[test]
fn try_protocol_modes() {
    assert_eq!(try_protocol_mode_to_str(0), "RETURN");
    assert_eq!(try_protocol_mode_to_str(1), "ASSERT");
    assert_eq!(try_protocol_mode_to_str(2), "Unknown");
}

#[test]
fn sidecars() {
    let sc = OpcodeSidecar::ReadAttribute(ReadAttributeSidecar { misses: 3, shape_id: ShapeId(4), slot_id: SlotId(1) });
    assert_eq!(sidecar_prettyprint(sc, String::new()), "[sidecar misses=3 shape_id=4 slot_id=1]");
    let sc = OpcodeSidecar::NewEnumVal(NewEnumValSidecar { misses: 0, shape_id: ShapeId(2), slot_id: SlotId(0) });
    assert_eq!(sidecar_prettyprint(sc, "x".to_owned()), "x[enum_case misses=0 shape_id=2 slot_id=0]");
    assert_eq!(ReadAttributeSidecar::MAXIMUM_ALLOWED_MISSES, 16);
    let _ = OPCODE_RETURN;
}
