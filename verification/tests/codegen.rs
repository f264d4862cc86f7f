use haxby::codegen::{
    compile_try_unwrap, BlockWriter, CompilationError, CompilationErrorReason, CompilerOp, LocatedOp, MAX_CONSTANTS,
};
use haxby::compiled::{ConstantValue, ConstantValues};
use haxby::exception::SourcePointer;
use haxby::opcodes::{BuiltinTypeId, Opcode, TRY_UNWRAP_PROTOCOL_FLAG_TO_CALLER};

const HERE: SourcePointer = SourcePointer { buffer: 1, start: 10, stop: 20 };
const LEFT: SourcePointer = SourcePointer { buffer: 1, start: 10, stop: 12 };
const RIGHT: SourcePointer = SourcePointer { buffer: 1, start: 16, stop: 20 };

fn at(op: CompilerOp, loc: SourcePointer) -> LocatedOp {
    LocatedOp { op, loc }
}

#[test]
fn try_unwrap_makes_a_fallback_and_an_end_block() {
    let mut w = BlockWriter::new("entry");
    let mut consts = ConstantValues { values: vec![ConstantValue::Integer(1)] };
    let left = [at(CompilerOp::Plain(Opcode::ReadLocal(0)), LEFT)];
    let right = [at(CompilerOp::Plain(Opcode::Push0), RIGHT)];
    assert!(compile_try_unwrap(&mut w, &mut consts, HERE, "3:7", Ok(&left[..]), Ok(&right[..])).is_ok());
    assert_eq!(consts.values.len(), 2);
    assert!(matches!(consts.values[1], ConstantValue::String(ref s) if s == "try_unwrap_protocol"));
    let (name, ops) = w.block(0);
    assert_eq!(name, "entry");
    assert_eq!(
        ops,
        &[
            at(CompilerOp::Plain(Opcode::ReadLocal(0)), LEFT),
            at(CompilerOp::Plain(Opcode::PushBuiltinTy(BuiltinTypeId::Result)), HERE),
            at(CompilerOp::Plain(Opcode::ReadAttribute(1)), HERE),
            at(CompilerOp::Plain(Opcode::Call(1)), HERE),
            at(CompilerOp::Plain(Opcode::TryUnwrapProtocol(TRY_UNWRAP_PROTOCOL_FLAG_TO_CALLER)), HERE),
            at(CompilerOp::JumpConditionally(2, 1), HERE),
        ]
    );
    let (name, ops) = w.block(1);
    assert_eq!(name, "try_unwrap_fallback_3:7");
    assert_eq!(
        ops,
        &[at(CompilerOp::Plain(Opcode::Pop), HERE), at(CompilerOp::Plain(Opcode::Push0), RIGHT), at(CompilerOp::Jump(2), HERE)]
    );
    let (name, ops) = w.block(2);
    assert_eq!(name, "try_unwrap_end_3:7");
    assert!(ops.is_empty());
    assert_eq!(w.current_block(), 2);
}

#[test]
fn the_protocol_constant_is_shared() {
    let mut w = BlockWriter::new("entry");
    let mut consts = ConstantValues { values: vec![ConstantValue::String("try_unwrap_protocol".to_owned())] };
    assert!(compile_try_unwrap(&mut w, &mut consts, HERE, "a", Ok(&[][..]), Ok(&[][..])).is_ok());
    assert!(compile_try_unwrap(&mut w, &mut consts, HERE, "b", Ok(&[][..]), Ok(&[][..])).is_ok());
    assert_eq!(consts.values.len(), 1);
    assert_eq!(w.block(2).0, "try_unwrap_end_a");
    assert_eq!(w.block(3).0, "try_unwrap_fallback_b");
    assert_eq!(w.current_block(), 4);
}

#[test]
fn a_full_module_refuses_the_constant() {
    let mut w = BlockWriter::new("entry");
    let mut consts = ConstantValues { values: (0..MAX_CONSTANTS).map(|i| ConstantValue::Integer(i as i64)).collect() };
    let left = [at(CompilerOp::Plain(Opcode::Push1), LEFT)];
    assert_eq!(
        compile_try_unwrap(&mut w, &mut consts, HERE, "x", Ok(&left[..]), Ok(&[][..])),
        Err(CompilationError { loc: HERE, reason: CompilationErrorReason::TooManyConstants })
    );
    assert_eq!(w.block(0).1, &[at(CompilerOp::Plain(Opcode::Push1), LEFT)]);
    assert_eq!(consts.values.len(), MAX_CONSTANTS);
}

#[test]
fn operand_errors_stop_compiling_where_they_arise() {
    let failed = CompilationError { loc: LEFT, reason: CompilationErrorReason::TooManyConstants };
    let mut w = BlockWriter::new("entry");
    let mut consts = ConstantValues { values: vec![] };
    assert_eq!(compile_try_unwrap(&mut w, &mut consts, HERE, "x", Err(failed), Ok(&[][..])), Err(failed));
    assert!(w.block(0).1.is_empty());
    assert!(consts.values.is_empty());
    let failed_right = CompilationError { loc: RIGHT, reason: CompilationErrorReason::TooManyConstants };
    assert_eq!(compile_try_unwrap(&mut w, &mut consts, HERE, "y", Ok(&[][..]), Err(failed_right)), Err(failed_right));
    assert_eq!(w.current_block(), 1);
    assert_eq!(w.block(1).1, &[at(CompilerOp::Plain(Opcode::Pop), HERE)]);
    assert!(w.block(2).1.is_empty());
}
