//! The instruction set of the virtual machine: opcode bytes, the decoded
//! `Opcode` type, the builtin type and value identifiers that opcodes carry,
//! and the byte encoding of each instruction.
use vstd::prelude::*;

verus! {

pub const OPCODE_NOP: u8 = 0;
pub const OPCODE_PUSH: u8 = 1;
pub const OPCODE_PUSH_0: u8 = 2;
pub const OPCODE_PUSH_1: u8 = 3;
pub const OPCODE_PUSH_TRUE: u8 = 4;
pub const OPCODE_PUSH_FALSE: u8 = 5;
pub const OPCODE_PUSH_BUILTIN_TYPE: u8 = 6;
pub const OPCODE_PUSH_RUNTIME_VALUE: u8 = 7;
pub const OPCODE_POP: u8 = 8;
pub const OPCODE_DUP: u8 = 9;
pub const OPCODE_SWAP: u8 = 10;
pub const OPCODE_COPY: u8 = 11;
pub const OPCODE_ADD: u8 = 12;
pub const OPCODE_SUB: u8 = 13;
pub const OPCODE_MUL: u8 = 14;
pub const OPCODE_DIV: u8 = 15;
pub const OPCODE_REM: u8 = 16;
pub const OPCODE_EQ: u8 = 17;
pub const OPCODE_GT: u8 = 18;
pub const OPCODE_LT: u8 = 19;
pub const OPCODE_GTE: u8 = 20;
pub const OPCODE_LTE: u8 = 21;
pub const OPCODE_NEG: u8 = 22;
pub const OPCODE_SHL: u8 = 23;
pub const OPCODE_SHR: u8 = 24;
pub const OPCODE_NOT: u8 = 25;
pub const OPCODE_READ_LOCAL: u8 = 26;
pub const OPCODE_WRITE_LOCAL: u8 = 27;
pub const OPCODE_TYPEDEF_LOCAL: u8 = 28;
pub const OPCODE_READ_NAMED: u8 = 29;
pub const OPCODE_WRITE_NAMED: u8 = 30;
pub const OPCODE_TYPEDEF_NAMED: u8 = 31;
pub const OPCODE_READ_INDEX: u8 = 32;
pub const OPCODE_WRITE_INDEX: u8 = 33;
pub const OPCODE_READ_ATTRIBUTE: u8 = 34;
pub const OPCODE_WRITE_ATTRIBUTE: u8 = 35;
pub const OPCODE_READ_ATTRIBUTE_SYMBOL: u8 = 36;
pub const OPCODE_WRITE_ATTRIBUTE_SYMBOL: u8 = 37;
pub const OPCODE_READ_UPLEVEL: u8 = 38;
pub const OPCODE_LOGICAL_AND: u8 = 39;
pub const OPCODE_LOGICAL_OR: u8 = 40;
pub const OPCODE_XOR: u8 = 41;
pub const OPCODE_BITWISE_AND: u8 = 42;
pub const OPCODE_BITWISE_OR: u8 = 43;
pub const OPCODE_JUMP_TRUE: u8 = 44;
pub const OPCODE_JUMP_FALSE: u8 = 45;
pub const OPCODE_JUMP: u8 = 46;
pub const OPCODE_JUMP_IF_ARG_SUPPLIED: u8 = 47;
pub const OPCODE_CALL: u8 = 48;
pub const OPCODE_RETURN: u8 = 49;
pub const OPCODE_RETURN_UNIT: u8 = 50;
pub const OPCODE_TRY_ENTER: u8 = 51;
pub const OPCODE_TRY_EXIT: u8 = 52;
pub const OPCODE_THROW: u8 = 53;
pub const OPCODE_BUILD_LIST: u8 = 54;
pub const OPCODE_BUILD_FUNCTION: u8 = 55;
pub const OPCODE_STORE_UPLEVEL: u8 = 56;
pub const OPCODE_BUILD_STRUCT: u8 = 57;
pub const OPCODE_BUILD_ENUM: u8 = 58;
pub const OPCODE_BUILD_MIXIN: u8 = 59;
pub const OPCODE_BIND_METHOD: u8 = 60;
pub const OPCODE_BIND_CASE: u8 = 61;
pub const OPCODE_INCLUDE_MIXIN: u8 = 62;
pub const OPCODE_NEW_ENUM_VAL: u8 = 63;
pub const OPCODE_ENUM_CHECK_IS_CASE: u8 = 64;
pub const OPCODE_ENUM_TRY_EXTRACT_PAYLOAD: u8 = 65;
pub const OPCODE_TRY_UNWRAP_PROTOCOL: u8 = 66;
pub const OPCODE_ISA: u8 = 67;
pub const OPCODE_IMPORT: u8 = 68;
pub const OPCODE_LIFT_MODULE: u8 = 69;
pub const OPCODE_LOAD_DYLIB: u8 = 70;
pub const OPCODE_ASSERT: u8 = 71;
pub const OPCODE_HALT: u8 = 72;

/// Modes of the `TryUnwrapProtocol` instruction.
pub const TRY_UNWRAP_PROTOCOL_PROPAGATE_ERROR: u8 = 0;
pub const TRY_UNWRAP_PROTOCOL_ASSERT_ERROR: u8 = 1;
pub const TRY_UNWRAP_PROTOCOL_FLAG_TO_CALLER: u8 = 2;

/// The builtin types that a `PushBuiltinTy` instruction can name.
#[derive(Clone, Copy, Debug, PartialEq, Eq, Structural)]
pub enum BuiltinTypeId {
    Any,
    Bool,
    Int,
    Float,
    List,
    String,
    Type,
    Maybe,
    Result,
    Unit,
    Unimplemented,
    RuntimeError,
}

/// The byte that stands for each builtin type in bytecode.
pub open spec fn builtin_type_id_byte(id: BuiltinTypeId) -> u8 {
    match id {
        BuiltinTypeId::Any => 0,
        BuiltinTypeId::Bool => 1,
        BuiltinTypeId::Int => 2,
        BuiltinTypeId::Float => 3,
        BuiltinTypeId::List => 4,
        BuiltinTypeId::String => 5,
        BuiltinTypeId::Type => 6,
        BuiltinTypeId::Maybe => 7,
        BuiltinTypeId::Result => 8,
        BuiltinTypeId::Unit => 9,
        BuiltinTypeId::Unimplemented => 10,
        BuiltinTypeId::RuntimeError => 11,
    }
}

/// The builtin type that a byte stands for, if any.
pub open spec fn builtin_type_id_of(b: u8) -> Option<BuiltinTypeId> {
    if b == 0 {
        Some(BuiltinTypeId::Any)
    } else if b == 1 {
        Some(BuiltinTypeId::Bool)
    } else if b == 2 {
        Some(BuiltinTypeId::Int)
    } else if b == 3 {
        Some(BuiltinTypeId::Float)
    } else if b == 4 {
        Some(BuiltinTypeId::List)
    } else if b == 5 {
        Some(BuiltinTypeId::String)
    } else if b == 6 {
        Some(BuiltinTypeId::Type)
    } else if b == 7 {
        Some(BuiltinTypeId::Maybe)
    } else if b == 8 {
        Some(BuiltinTypeId::Result)
    } else if b == 9 {
        Some(BuiltinTypeId::Unit)
    } else if b == 10 {
        Some(BuiltinTypeId::Unimplemented)
    } else if b == 11 {
        Some(BuiltinTypeId::RuntimeError)
    } else {
        None
    }
}

/// The name under which each builtin type is registered.
pub open spec fn builtin_type_name(id: BuiltinTypeId) -> Seq<char> {
    match id {
        BuiltinTypeId::Any => "Any"@,
        BuiltinTypeId::Bool => "Bool"@,
        BuiltinTypeId::Int => "Int"@,
        BuiltinTypeId::Float => "Float"@,
        BuiltinTypeId::List => "List"@,
        BuiltinTypeId::String => "String"@,
        BuiltinTypeId::Type => "Type"@,
        BuiltinTypeId::Maybe => "Maybe"@,
        BuiltinTypeId::Result => "Result"@,
        BuiltinTypeId::Unit => "Unit"@,
        BuiltinTypeId::Unimplemented => "Unimplemented"@,
        BuiltinTypeId::RuntimeError => "RuntimeError"@,
    }
}

impl BuiltinTypeId {
    /// Decodes a builtin type identifier from its byte.
    pub fn try_from_u8(b: u8) -> (r: Option<BuiltinTypeId>)
        ensures
            r == builtin_type_id_of(b),
    {
        match b {
            0 => Some(BuiltinTypeId::Any),
            1 => Some(BuiltinTypeId::Bool),
            2 => Some(BuiltinTypeId::Int),
            3 => Some(BuiltinTypeId::Float),
            4 => Some(BuiltinTypeId::List),
            5 => Some(BuiltinTypeId::String),
            6 => Some(BuiltinTypeId::Type),
            7 => Some(BuiltinTypeId::Maybe),
            8 => Some(BuiltinTypeId::Result),
            9 => Some(BuiltinTypeId::Unit),
            10 => Some(BuiltinTypeId::Unimplemented),
            11 => Some(BuiltinTypeId::RuntimeError),
            _ => None,
        }
    }

    /// The byte of this identifier.
    pub fn to_u8(&self) -> (r: u8)
        ensures
            r == builtin_type_id_byte(*self),
    {
        match self {
            BuiltinTypeId::Any => 0,
            BuiltinTypeId::Bool => 1,
            BuiltinTypeId::Int => 2,
            BuiltinTypeId::Float => 3,
            BuiltinTypeId::List => 4,
            BuiltinTypeId::String => 5,
            BuiltinTypeId::Type => 6,
            BuiltinTypeId::Maybe => 7,
            BuiltinTypeId::Result => 8,
            BuiltinTypeId::Unit => 9,
            BuiltinTypeId::Unimplemented => 10,
            BuiltinTypeId::RuntimeError => 11,
        }
    }

    /// The name of this builtin type.
    pub fn name(&self) -> (r: &'static str)
        ensures
            r@ == builtin_type_name(*self),
    {
        match self {
            BuiltinTypeId::Any => {
                proof {
                    reveal_strlit("Any");
                }
                "Any"
            }
            BuiltinTypeId::Bool => {
                proof {
                    reveal_strlit("Bool");
                }
                "Bool"
            }
            BuiltinTypeId::Int => {
                proof {
                    reveal_strlit("Int");
                }
                "Int"
            }
            BuiltinTypeId::Float => {
                proof {
                    reveal_strlit("Float");
                }
                "Float"
            }
            BuiltinTypeId::List => {
                proof {
                    reveal_strlit("List");
                }
                "List"
            }
            BuiltinTypeId::String => {
                proof {
                    reveal_strlit("String");
                }
                "String"
            }
            BuiltinTypeId::Type => {
                proof {
                    reveal_strlit("Type");
                }
                "Type"
            }
            BuiltinTypeId::Maybe => {
                proof {
                    reveal_strlit("Maybe");
                }
                "Maybe"
            }
            BuiltinTypeId::Result => {
                proof {
                    reveal_strlit("Result");
                }
                "Result"
            }
            BuiltinTypeId::Unit => {
                proof {
                    reveal_strlit("Unit");
                }
                "Unit"
            }
            BuiltinTypeId::Unimplemented => {
                proof {
                    reveal_strlit("Unimplemented");
                }
                "Unimplemented"
            }
            BuiltinTypeId::RuntimeError => {
                proof {
                    reveal_strlit("RuntimeError");
                }
                "RuntimeError"
            }
        }
    }
}

/// The builtin runtime values that a `PushRuntimeValue` instruction can name.
#[derive(Clone, Copy, Debug, PartialEq, Eq, Structural)]
pub enum BuiltinValueId {
    ThisModule,
}

/// The byte that stands for each builtin value in bytecode.
pub open spec fn builtin_value_id_byte(id: BuiltinValueId) -> u8 {
    match id {
        BuiltinValueId::ThisModule => 0,
    }
}

/// The builtin value that a byte stands for, if any.
pub open spec fn builtin_value_id_of(b: u8) -> Option<BuiltinValueId> {
    if b == 0 {
        Some(BuiltinValueId::ThisModule)
    } else {
        None
    }
}

/// The name of each builtin value.
pub open spec fn builtin_value_name(id: BuiltinValueId) -> Seq<char> {
    match id {
        BuiltinValueId::ThisModule => "ThisModule"@,
    }
}

impl BuiltinValueId {
    /// Decodes a builtin value identifier from its byte.
    pub fn try_from_u8(b: u8) -> (r: Option<BuiltinValueId>)
        ensures
            r == builtin_value_id_of(b),
    {
        match b {
            0 => Some(BuiltinValueId::ThisModule),
            _ => None,
        }
    }

    /// The byte of this identifier.
    pub fn to_u8(&self) -> (r: u8)
        ensures
            r == builtin_value_id_byte(*self),
    {
        match self {
            BuiltinValueId::ThisModule => 0,
        }
    }

    /// The name of this builtin value.
    pub fn name(&self) -> (r: &'static str)
        ensures
            r@ == builtin_value_name(*self),
    {
        match self {
            BuiltinValueId::ThisModule => {
                proof {
                    reveal_strlit("ThisModule");
                }
                "ThisModule"
            }
        }
    }
}

/// A decoded instruction.
#[derive(Clone, Copy, Debug, PartialEq, Eq, Structural)]
pub enum Opcode {
    Nop,
    Push(u16),
    Push0,
    Push1,
    PushTrue,
    PushFalse,
    PushBuiltinTy(BuiltinTypeId),
    PushRuntimeValue(BuiltinValueId),
    Pop,
    Dup,
    Swap,
    Copy(u8),
    Add,
    Sub,
    Mul,
    Div,
    Rem,
    Equal,
    GreaterThan,
    LessThan,
    GreaterThanEqual,
    LessThanEqual,
    Neg,
    ShiftLeft,
    ShiftRight,
    Not,
    ReadLocal(u8),
    WriteLocal(u8),
    TypedefLocal(u8),
    ReadNamed(u16),
    WriteNamed(u16),
    TypedefNamed(u16),
    ReadIndex(u8),
    WriteIndex(u8),
    ReadAttribute(u16),
    WriteAttribute(u16),
    ReadAttributeSymbol(u32),
    WriteAttributeSymbol(u32),
    ReadUplevel(u8),
    LogicalAnd,
    LogicalOr,
    Xor,
    BitwiseAnd,
    BitwiseOr,
    JumpTrue(u16),
    JumpFalse(u16),
    Jump(u16),
    JumpIfArgSupplied(u8, u16),
    Call(u8),
    Return,
    ReturnUnit,
    TryEnter(u16),
    TryExit,
    Throw,
    BuildList(u32),
    BuildFunction(u8),
    StoreUplevel(u8),
    BuildStruct,
    BuildEnum,
    BuildMixin,
    BindMethod(u8, u16),
    BindCase(u8, u16),
    IncludeMixin,
    NewEnumVal(u8, u16),
    EnumCheckIsCase(u16),
    EnumTryExtractPayload,
    TryUnwrapProtocol(u8),
    Isa,
    Import(u16),
    LiftModule,
    LoadDylib(u16),
    Assert(u16),
    Halt,
}

/// How the operands of an instruction follow its opcode byte.
#[derive(Clone, Copy, Debug, PartialEq, Eq, Structural)]
pub enum OperandLayout {
    Bare,
    Byte,
    Word,
    DWord,
    ByteWord,
    BuiltinType,
    RuntimeValue,
}

/// The operand layout of an opcode byte, or `None` for a byte that is no opcode.
pub open spec fn opcode_layout(b: u8) -> Option<OperandLayout> {
    if b < 73 {
        if b == OPCODE_PUSH || b == OPCODE_READ_NAMED || b == OPCODE_WRITE_NAMED || b == OPCODE_TYPEDEF_NAMED || b == OPCODE_READ_ATTRIBUTE || b == OPCODE_WRITE_ATTRIBUTE || b == OPCODE_JUMP_TRUE || b == OPCODE_JUMP_FALSE || b == OPCODE_JUMP || b == OPCODE_TRY_ENTER || b == OPCODE_ENUM_CHECK_IS_CASE || b == OPCODE_IMPORT || b == OPCODE_LOAD_DYLIB || b == OPCODE_ASSERT {
            Some(OperandLayout::Word)
        } else if b == OPCODE_PUSH_BUILTIN_TYPE {
            Some(OperandLayout::BuiltinType)
        } else if b == OPCODE_PUSH_RUNTIME_VALUE {
            Some(OperandLayout::RuntimeValue)
        } else if b == OPCODE_COPY || b == OPCODE_READ_LOCAL || b == OPCODE_WRITE_LOCAL || b == OPCODE_TYPEDEF_LOCAL || b == OPCODE_READ_INDEX || b == OPCODE_WRITE_INDEX || b == OPCODE_READ_UPLEVEL || b == OPCODE_CALL || b == OPCODE_BUILD_FUNCTION || b == OPCODE_STORE_UPLEVEL || b == OPCODE_TRY_UNWRAP_PROTOCOL {
            Some(OperandLayout::Byte)
        } else if b == OPCODE_READ_ATTRIBUTE_SYMBOL || b == OPCODE_WRITE_ATTRIBUTE_SYMBOL || b == OPCODE_BUILD_LIST {
            Some(OperandLayout::DWord)
        } else if b == OPCODE_JUMP_IF_ARG_SUPPLIED || b == OPCODE_BIND_METHOD || b == OPCODE_BIND_CASE || b == OPCODE_NEW_ENUM_VAL {
            Some(OperandLayout::ByteWord)
        } else {
            Some(OperandLayout::Bare)
        }
    } else {
        None
    }
}

/// The instruction built from opcode byte `b` of layout `Bare` and its operands.
pub open spec fn bare_opcode(b: u8) -> Opcode {
    if b == OPCODE_NOP {
        Opcode::Nop
    } else if b == OPCODE_PUSH_0 {
        Opcode::Push0
    } else if b == OPCODE_PUSH_1 {
        Opcode::Push1
    } else if b == OPCODE_PUSH_TRUE {
        Opcode::PushTrue
    } else if b == OPCODE_PUSH_FALSE {
        Opcode::PushFalse
    } else if b == OPCODE_POP {
        Opcode::Pop
    } else if b == OPCODE_DUP {
        Opcode::Dup
    } else if b == OPCODE_SWAP {
        Opcode::Swap
    } else if b == OPCODE_ADD {
        Opcode::Add
    } else if b == OPCODE_SUB {
        Opcode::Sub
    } else if b == OPCODE_MUL {
        Opcode::Mul
    } else if b == OPCODE_DIV {
        Opcode::Div
    } else if b == OPCODE_REM {
        Opcode::Rem
    } else if b == OPCODE_EQ {
        Opcode::Equal
    } else if b == OPCODE_GT {
        Opcode::GreaterThan
    } else if b == OPCODE_LT {
        Opcode::LessThan
    } else if b == OPCODE_GTE {
        Opcode::GreaterThanEqual
    } else if b == OPCODE_LTE {
        Opcode::LessThanEqual
    } else if b == OPCODE_NEG {
        Opcode::Neg
    } else if b == OPCODE_SHL {
        Opcode::ShiftLeft
    } else if b == OPCODE_SHR {
        Opcode::ShiftRight
    } else if b == OPCODE_NOT {
        Opcode::Not
    } else if b == OPCODE_LOGICAL_AND {
        Opcode::LogicalAnd
    } else if b == OPCODE_LOGICAL_OR {
        Opcode::LogicalOr
    } else if b == OPCODE_XOR {
        Opcode::Xor
    } else if b == OPCODE_BITWISE_AND {
        Opcode::BitwiseAnd
    } else if b == OPCODE_BITWISE_OR {
        Opcode::BitwiseOr
    } else if b == OPCODE_RETURN {
        Opcode::Return
    } else if b == OPCODE_RETURN_UNIT {
        Opcode::ReturnUnit
    } else if b == OPCODE_TRY_EXIT {
        Opcode::TryExit
    } else if b == OPCODE_THROW {
        Opcode::Throw
    } else if b == OPCODE_BUILD_STRUCT {
        Opcode::BuildStruct
    } else if b == OPCODE_BUILD_ENUM {
        Opcode::BuildEnum
    } else if b == OPCODE_BUILD_MIXIN {
        Opcode::BuildMixin
    } else if b == OPCODE_INCLUDE_MIXIN {
        Opcode::IncludeMixin
    } else if b == OPCODE_ENUM_TRY_EXTRACT_PAYLOAD {
        Opcode::EnumTryExtractPayload
    } else if b == OPCODE_ISA {
        Opcode::Isa
    } else if b == OPCODE_LIFT_MODULE {
        Opcode::LiftModule
    } else {
        Opcode::Halt
    }
}

/// The instruction built from opcode byte `b` of layout `Byte` and its operands.
pub open spec fn byte_opcode(b: u8, x: u8) -> Opcode {
    if b == OPCODE_COPY {
        Opcode::Copy(x)
    } else if b == OPCODE_READ_LOCAL {
        Opcode::ReadLocal(x)
    } else if b == OPCODE_WRITE_LOCAL {
        Opcode::WriteLocal(x)
    } else if b == OPCODE_TYPEDEF_LOCAL {
        Opcode::TypedefLocal(x)
    } else if b == OPCODE_READ_INDEX {
        Opcode::ReadIndex(x)
    } else if b == OPCODE_WRITE_INDEX {
        Opcode::WriteIndex(x)
    } else if b == OPCODE_READ_UPLEVEL {
        Opcode::ReadUplevel(x)
    } else if b == OPCODE_CALL {
        Opcode::Call(x)
    } else if b == OPCODE_BUILD_FUNCTION {
        Opcode::BuildFunction(x)
    } else if b == OPCODE_STORE_UPLEVEL {
        Opcode::StoreUplevel(x)
    } else {
        Opcode::TryUnwrapProtocol(x)
    }
}

/// The instruction built from opcode byte `b` of layout `Word` and its operands.
pub open spec fn word_opcode(b: u8, x: u16) -> Opcode {
    if b == OPCODE_PUSH {
        Opcode::Push(x)
    } else if b == OPCODE_READ_NAMED {
        Opcode::ReadNamed(x)
    } else if b == OPCODE_WRITE_NAMED {
        Opcode::WriteNamed(x)
    } else if b == OPCODE_TYPEDEF_NAMED {
        Opcode::TypedefNamed(x)
    } else if b == OPCODE_READ_ATTRIBUTE {
        Opcode::ReadAttribute(x)
    } else if b == OPCODE_WRITE_ATTRIBUTE {
        Opcode::WriteAttribute(x)
    } else if b == OPCODE_JUMP_TRUE {
        Opcode::JumpTrue(x)
    } else if b == OPCODE_JUMP_FALSE {
        Opcode::JumpFalse(x)
    } else if b == OPCODE_JUMP {
        Opcode::Jump(x)
    } else if b == OPCODE_TRY_ENTER {
        Opcode::TryEnter(x)
    } else if b == OPCODE_ENUM_CHECK_IS_CASE {
        Opcode::EnumCheckIsCase(x)
    } else if b == OPCODE_IMPORT {
        Opcode::Import(x)
    } else if b == OPCODE_LOAD_DYLIB {
        Opcode::LoadDylib(x)
    } else {
        Opcode::Assert(x)
    }
}

/// The instruction built from opcode byte `b` of layout `DWord` and its operands.
pub open spec fn dword_opcode(b: u8, x: u32) -> Opcode {
    if b == OPCODE_READ_ATTRIBUTE_SYMBOL {
        Opcode::ReadAttributeSymbol(x)
    } else if b == OPCODE_WRITE_ATTRIBUTE_SYMBOL {
        Opcode::WriteAttributeSymbol(x)
    } else {
        Opcode::BuildList(x)
    }
}

/// The instruction built from opcode byte `b` of layout `ByteWord` and its operands.
pub open spec fn byteword_opcode(b: u8, x: u8, y: u16) -> Opcode {
    if b == OPCODE_JUMP_IF_ARG_SUPPLIED {
        Opcode::JumpIfArgSupplied(x, y)
    } else if b == OPCODE_BIND_METHOD {
        Opcode::BindMethod(x, y)
    } else if b == OPCODE_BIND_CASE {
        Opcode::BindCase(x, y)
    } else {
        Opcode::NewEnumVal(x, y)
    }
}

/// The value of two bytes read in little-endian order.
pub open spec fn le_u16(b0: u8, b1: u8) -> u16 {
    (b0 + 256 * b1) as u16
}

/// The value of four bytes read in little-endian order.
pub open spec fn le_u32(b0: u8, b1: u8, b2: u8, b3: u8) -> u32 {
    (b0 + 256 * b1 + 65536 * b2 + 16777216 * b3) as u32
}

/// The little-endian bytes of a 16-bit operand.
pub open spec fn u16_bytes(x: u16) -> Seq<u8> {
    seq![(x % 256) as u8, (x / 256) as u8]
}

/// The little-endian bytes of a 32-bit operand.
pub open spec fn u32_bytes(x: u32) -> Seq<u8> {
    seq![(x % 256) as u8, ((x / 256) % 256) as u8, ((x / 65536) % 256) as u8, (x / 16777216) as u8]
}

/// The byte encoding of an instruction: its opcode byte, then its operands,
/// multi-byte operands in little-endian order.
pub open spec fn opcode_bytes(op: Opcode) -> Seq<u8> {
    match op {
        Opcode::Nop => seq![OPCODE_NOP],
        Opcode::Push(x) => seq![OPCODE_PUSH] + u16_bytes(x),
        Opcode::Push0 => seq![OPCODE_PUSH_0],
        Opcode::Push1 => seq![OPCODE_PUSH_1],
        Opcode::PushTrue => seq![OPCODE_PUSH_TRUE],
        Opcode::PushFalse => seq![OPCODE_PUSH_FALSE],
        Opcode::PushBuiltinTy(id) => seq![OPCODE_PUSH_BUILTIN_TYPE, builtin_type_id_byte(id)],
        Opcode::PushRuntimeValue(id) => seq![OPCODE_PUSH_RUNTIME_VALUE, builtin_value_id_byte(id)],
        Opcode::Pop => seq![OPCODE_POP],
        Opcode::Dup => seq![OPCODE_DUP],
        Opcode::Swap => seq![OPCODE_SWAP],
        Opcode::Copy(x) => seq![OPCODE_COPY, x],
        Opcode::Add => seq![OPCODE_ADD],
        Opcode::Sub => seq![OPCODE_SUB],
        Opcode::Mul => seq![OPCODE_MUL],
        Opcode::Div => seq![OPCODE_DIV],
        Opcode::Rem => seq![OPCODE_REM],
        Opcode::Equal => seq![OPCODE_EQ],
        Opcode::GreaterThan => seq![OPCODE_GT],
        Opcode::LessThan => seq![OPCODE_LT],
        Opcode::GreaterThanEqual => seq![OPCODE_GTE],
        Opcode::LessThanEqual => seq![OPCODE_LTE],
        Opcode::Neg => seq![OPCODE_NEG],
        Opcode::ShiftLeft => seq![OPCODE_SHL],
        Opcode::ShiftRight => seq![OPCODE_SHR],
        Opcode::Not => seq![OPCODE_NOT],
        Opcode::ReadLocal(x) => seq![OPCODE_READ_LOCAL, x],
        Opcode::WriteLocal(x) => seq![OPCODE_WRITE_LOCAL, x],
        Opcode::TypedefLocal(x) => seq![OPCODE_TYPEDEF_LOCAL, x],
        Opcode::ReadNamed(x) => seq![OPCODE_READ_NAMED] + u16_bytes(x),
        Opcode::WriteNamed(x) => seq![OPCODE_WRITE_NAMED] + u16_bytes(x),
        Opcode::TypedefNamed(x) => seq![OPCODE_TYPEDEF_NAMED] + u16_bytes(x),
        Opcode::ReadIndex(x) => seq![OPCODE_READ_INDEX, x],
        Opcode::WriteIndex(x) => seq![OPCODE_WRITE_INDEX, x],
        Opcode::ReadAttribute(x) => seq![OPCODE_READ_ATTRIBUTE] + u16_bytes(x),
        Opcode::WriteAttribute(x) => seq![OPCODE_WRITE_ATTRIBUTE] + u16_bytes(x),
        Opcode::ReadAttributeSymbol(x) => seq![OPCODE_READ_ATTRIBUTE_SYMBOL] + u32_bytes(x),
        Opcode::WriteAttributeSymbol(x) => seq![OPCODE_WRITE_ATTRIBUTE_SYMBOL] + u32_bytes(x),
        Opcode::ReadUplevel(x) => seq![OPCODE_READ_UPLEVEL, x],
        Opcode::LogicalAnd => seq![OPCODE_LOGICAL_AND],
        Opcode::LogicalOr => seq![OPCODE_LOGICAL_OR],
        Opcode::Xor => seq![OPCODE_XOR],
        Opcode::BitwiseAnd => seq![OPCODE_BITWISE_AND],
        Opcode::BitwiseOr => seq![OPCODE_BITWISE_OR],
        Opcode::JumpTrue(x) => seq![OPCODE_JUMP_TRUE] + u16_bytes(x),
        Opcode::JumpFalse(x) => seq![OPCODE_JUMP_FALSE] + u16_bytes(x),
        Opcode::Jump(x) => seq![OPCODE_JUMP] + u16_bytes(x),
        Opcode::JumpIfArgSupplied(x, y) => seq![OPCODE_JUMP_IF_ARG_SUPPLIED, x] + u16_bytes(y),
        Opcode::Call(x) => seq![OPCODE_CALL, x],
        Opcode::Return => seq![OPCODE_RETURN],
        Opcode::ReturnUnit => seq![OPCODE_RETURN_UNIT],
        Opcode::TryEnter(x) => seq![OPCODE_TRY_ENTER] + u16_bytes(x),
        Opcode::TryExit => seq![OPCODE_TRY_EXIT],
        Opcode::Throw => seq![OPCODE_THROW],
        Opcode::BuildList(x) => seq![OPCODE_BUILD_LIST] + u32_bytes(x),
        Opcode::BuildFunction(x) => seq![OPCODE_BUILD_FUNCTION, x],
        Opcode::StoreUplevel(x) => seq![OPCODE_STORE_UPLEVEL, x],
        Opcode::BuildStruct => seq![OPCODE_BUILD_STRUCT],
        Opcode::BuildEnum => seq![OPCODE_BUILD_ENUM],
        Opcode::BuildMixin => seq![OPCODE_BUILD_MIXIN],
        Opcode::BindMethod(x, y) => seq![OPCODE_BIND_METHOD, x] + u16_bytes(y),
        Opcode::BindCase(x, y) => seq![OPCODE_BIND_CASE, x] + u16_bytes(y),
        Opcode::IncludeMixin => seq![OPCODE_INCLUDE_MIXIN],
        Opcode::NewEnumVal(x, y) => seq![OPCODE_NEW_ENUM_VAL, x] + u16_bytes(y),
        Opcode::EnumCheckIsCase(x) => seq![OPCODE_ENUM_CHECK_IS_CASE] + u16_bytes(x),
        Opcode::EnumTryExtractPayload => seq![OPCODE_ENUM_TRY_EXTRACT_PAYLOAD],
        Opcode::TryUnwrapProtocol(x) => seq![OPCODE_TRY_UNWRAP_PROTOCOL, x],
        Opcode::Isa => seq![OPCODE_ISA],
        Opcode::Import(x) => seq![OPCODE_IMPORT] + u16_bytes(x),
        Opcode::LiftModule => seq![OPCODE_LIFT_MODULE],
        Opcode::LoadDylib(x) => seq![OPCODE_LOAD_DYLIB] + u16_bytes(x),
        Opcode::Assert(x) => seq![OPCODE_ASSERT] + u16_bytes(x),
        Opcode::Halt => seq![OPCODE_HALT],
    }
}

/// The mnemonic under which an instruction is printed.
pub open spec fn opcode_mnemonic(op: Opcode) -> Seq<char> {
    match op {
        Opcode::Nop => "NOP"@,
        Opcode::Push(..) => "PUSH"@,
        Opcode::Push0 => "PUSH_0"@,
        Opcode::Push1 => "PUSH_1"@,
        Opcode::PushTrue => "PUSH_TRUE"@,
        Opcode::PushFalse => "PUSH_FALSE"@,
        Opcode::PushBuiltinTy(..) => "PUSH_BUILTIN_TY"@,
        Opcode::PushRuntimeValue(..) => "PUSH_RUNTIME_VAL"@,
        Opcode::Pop => "POP"@,
        Opcode::Dup => "DUP"@,
        Opcode::Swap => "SWAP"@,
        Opcode::Copy(..) => "COPY"@,
        Opcode::Add => "ADD"@,
        Opcode::Sub => "SUB"@,
        Opcode::Mul => "MUL"@,
        Opcode::Div => "DIV"@,
        Opcode::Rem => "REM"@,
        Opcode::Equal => "EQ"@,
        Opcode::GreaterThan => "GT"@,
        Opcode::LessThan => "LT"@,
        Opcode::GreaterThanEqual => "GTE"@,
        Opcode::LessThanEqual => "LTE"@,
        Opcode::Neg => "NEG"@,
        Opcode::ShiftLeft => "SHL"@,
        Opcode::ShiftRight => "SHR"@,
        Opcode::Not => "NOT"@,
        Opcode::ReadLocal(..) => "READ_LOCAL"@,
        Opcode::WriteLocal(..) => "WRITE_LOCAL"@,
        Opcode::TypedefLocal(..) => "TYPEDEF_LOCAL"@,
        Opcode::ReadNamed(..) => "READ_NAMED"@,
        Opcode::WriteNamed(..) => "WRITE_NAMED"@,
        Opcode::TypedefNamed(..) => "TYPEDEF_NAMED"@,
        Opcode::ReadIndex(..) => "READ_INDEX"@,
        Opcode::WriteIndex(..) => "WRITE_INDEX"@,
        Opcode::ReadAttribute(..) => "READ_ATTRIB"@,
        Opcode::WriteAttribute(..) => "WRITE_ATTRIB"@,
        Opcode::ReadAttributeSymbol(..) => "READ_ATTRIB_SYMBOL"@,
        Opcode::WriteAttributeSymbol(..) => "WRITE_ATTRIB_SYMBOL"@,
        Opcode::ReadUplevel(..) => "READ_UPLEVEL"@,
        Opcode::LogicalAnd => "LOGICAL_AND"@,
        Opcode::LogicalOr => "LOGICAL_OR"@,
        Opcode::Xor => "XOR"@,
        Opcode::BitwiseAnd => "BITWISE_AND"@,
        Opcode::BitwiseOr => "BITWISE_OR"@,
        Opcode::JumpTrue(..) => "JUMP_TRUE"@,
        Opcode::JumpFalse(..) => "JUMP_FALSE"@,
        Opcode::Jump(..) => "JUMP"@,
        Opcode::JumpIfArgSupplied(..) => "JUMP_IF_ARG_SUPPLIED"@,
        Opcode::Call(..) => "CALL"@,
        Opcode::Return => "RETURN"@,
        Opcode::ReturnUnit => "RETURN_UNIT"@,
        Opcode::TryEnter(..) => "TRY_ENTER"@,
        Opcode::TryExit => "TRY_EXIT"@,
        Opcode::Throw => "THROW"@,
        Opcode::BuildList(..) => "BUILD_LIST"@,
        Opcode::BuildFunction(..) => "BUILD_FUNCTION"@,
        Opcode::StoreUplevel(..) => "STORE_UPLEVEL"@,
        Opcode::BuildStruct => "BUILD_STRUCT"@,
        Opcode::BuildEnum => "BUILD_ENUM"@,
        Opcode::BuildMixin => "BUILD_MIXIN"@,
        Opcode::BindMethod(..) => "BIND_METHOD"@,
        Opcode::BindCase(..) => "BIND_CASE"@,
        Opcode::IncludeMixin => "INCLUDE_MIXIN"@,
        Opcode::NewEnumVal(..) => "NEW_ENUM_VAL"@,
        Opcode::EnumCheckIsCase(..) => "ENUM_CHECK_IS_CASE"@,
        Opcode::EnumTryExtractPayload => "ENUM_TRY_EXTRACT_PAYLOAD"@,
        Opcode::TryUnwrapProtocol(..) => "TRY_UNWRAP_PROTOCOL"@,
        Opcode::Isa => "ISA"@,
        Opcode::Import(..) => "IMPORT"@,
        Opcode::LiftModule => "LIFT_MODULE"@,
        Opcode::LoadDylib(..) => "LOAD_DYLIB"@,
        Opcode::Assert(..) => "ASSERT"@,
        Opcode::Halt => "HALT"@,
    }
}

/// The operand layout of an opcode byte.
pub fn layout_of(b: u8) -> (r: Option<OperandLayout>)
    ensures
        r == opcode_layout(b),
{
    match b {
        OPCODE_PUSH => Some(OperandLayout::Word),
        OPCODE_PUSH_BUILTIN_TYPE => Some(OperandLayout::BuiltinType),
        OPCODE_PUSH_RUNTIME_VALUE => Some(OperandLayout::RuntimeValue),
        OPCODE_COPY => Some(OperandLayout::Byte),
        OPCODE_READ_LOCAL => Some(OperandLayout::Byte),
        OPCODE_WRITE_LOCAL => Some(OperandLayout::Byte),
        OPCODE_TYPEDEF_LOCAL => Some(OperandLayout::Byte),
        OPCODE_READ_NAMED => Some(OperandLayout::Word),
        OPCODE_WRITE_NAMED => Some(OperandLayout::Word),
        OPCODE_TYPEDEF_NAMED => Some(OperandLayout::Word),
        OPCODE_READ_INDEX => Some(OperandLayout::Byte),
        OPCODE_WRITE_INDEX => Some(OperandLayout::Byte),
        OPCODE_READ_ATTRIBUTE => Some(OperandLayout::Word),
        OPCODE_WRITE_ATTRIBUTE => Some(OperandLayout::Word),
        OPCODE_READ_ATTRIBUTE_SYMBOL => Some(OperandLayout::DWord),
        OPCODE_WRITE_ATTRIBUTE_SYMBOL => Some(OperandLayout::DWord),
        OPCODE_READ_UPLEVEL => Some(OperandLayout::Byte),
        OPCODE_JUMP_TRUE => Some(OperandLayout::Word),
        OPCODE_JUMP_FALSE => Some(OperandLayout::Word),
        OPCODE_JUMP => Some(OperandLayout::Word),
        OPCODE_JUMP_IF_ARG_SUPPLIED => Some(OperandLayout::ByteWord),
        OPCODE_CALL => Some(OperandLayout::Byte),
        OPCODE_TRY_ENTER => Some(OperandLayout::Word),
        OPCODE_BUILD_LIST => Some(OperandLayout::DWord),
        OPCODE_BUILD_FUNCTION => Some(OperandLayout::Byte),
        OPCODE_STORE_UPLEVEL => Some(OperandLayout::Byte),
        OPCODE_BIND_METHOD => Some(OperandLayout::ByteWord),
        OPCODE_BIND_CASE => Some(OperandLayout::ByteWord),
        OPCODE_NEW_ENUM_VAL => Some(OperandLayout::ByteWord),
        OPCODE_ENUM_CHECK_IS_CASE => Some(OperandLayout::Word),
        OPCODE_TRY_UNWRAP_PROTOCOL => Some(OperandLayout::Byte),
        OPCODE_IMPORT => Some(OperandLayout::Word),
        OPCODE_LOAD_DYLIB => Some(OperandLayout::Word),
        OPCODE_ASSERT => Some(OperandLayout::Word),
        _ => {
            if b < 73 {
                Some(OperandLayout::Bare)
            } else {
                None
            }
        }
    }
}

/// Builds the instruction of opcode byte `b` (layout `Bare`) from its operands.
pub fn make_bare_opcode(b: u8) -> (r: Opcode)
    ensures
        r == bare_opcode(b),
{
    match b {
        OPCODE_NOP => Opcode::Nop,
        OPCODE_PUSH_0 => Opcode::Push0,
        OPCODE_PUSH_1 => Opcode::Push1,
        OPCODE_PUSH_TRUE => Opcode::PushTrue,
        OPCODE_PUSH_FALSE => Opcode::PushFalse,
        OPCODE_POP => Opcode::Pop,
        OPCODE_DUP => Opcode::Dup,
        OPCODE_SWAP => Opcode::Swap,
        OPCODE_ADD => Opcode::Add,
        OPCODE_SUB => Opcode::Sub,
        OPCODE_MUL => Opcode::Mul,
        OPCODE_DIV => Opcode::Div,
        OPCODE_REM => Opcode::Rem,
        OPCODE_EQ => Opcode::Equal,
        OPCODE_GT => Opcode::GreaterThan,
        OPCODE_LT => Opcode::LessThan,
        OPCODE_GTE => Opcode::GreaterThanEqual,
        OPCODE_LTE => Opcode::LessThanEqual,
        OPCODE_NEG => Opcode::Neg,
        OPCODE_SHL => Opcode::ShiftLeft,
        OPCODE_SHR => Opcode::ShiftRight,
        OPCODE_NOT => Opcode::Not,
        OPCODE_LOGICAL_AND => Opcode::LogicalAnd,
        OPCODE_LOGICAL_OR => Opcode::LogicalOr,
        OPCODE_XOR => Opcode::Xor,
        OPCODE_BITWISE_AND => Opcode::BitwiseAnd,
        OPCODE_BITWISE_OR => Opcode::BitwiseOr,
        OPCODE_RETURN => Opcode::Return,
        OPCODE_RETURN_UNIT => Opcode::ReturnUnit,
        OPCODE_TRY_EXIT => Opcode::TryExit,
        OPCODE_THROW => Opcode::Throw,
        OPCODE_BUILD_STRUCT => Opcode::BuildStruct,
        OPCODE_BUILD_ENUM => Opcode::BuildEnum,
        OPCODE_BUILD_MIXIN => Opcode::BuildMixin,
        OPCODE_INCLUDE_MIXIN => Opcode::IncludeMixin,
        OPCODE_ENUM_TRY_EXTRACT_PAYLOAD => Opcode::EnumTryExtractPayload,
        OPCODE_ISA => Opcode::Isa,
        OPCODE_LIFT_MODULE => Opcode::LiftModule,
        _ => Opcode::Halt,
    }
}

/// Builds the instruction of opcode byte `b` (layout `Byte`) from its operands.
pub fn make_byte_opcode(b: u8, x: u8) -> (r: Opcode)
    ensures
        r == byte_opcode(b, x),
{
    match b {
        OPCODE_COPY => Opcode::Copy(x),
        OPCODE_READ_LOCAL => Opcode::ReadLocal(x),
        OPCODE_WRITE_LOCAL => Opcode::WriteLocal(x),
        OPCODE_TYPEDEF_LOCAL => Opcode::TypedefLocal(x),
        OPCODE_READ_INDEX => Opcode::ReadIndex(x),
        OPCODE_WRITE_INDEX => Opcode::WriteIndex(x),
        OPCODE_READ_UPLEVEL => Opcode::ReadUplevel(x),
        OPCODE_CALL => Opcode::Call(x),
        OPCODE_BUILD_FUNCTION => Opcode::BuildFunction(x),
        OPCODE_STORE_UPLEVEL => Opcode::StoreUplevel(x),
        _ => Opcode::TryUnwrapProtocol(x),
    }
}

/// Builds the instruction of opcode byte `b` (layout `Word`) from its operands.
pub fn make_word_opcode(b: u8, x: u16) -> (r: Opcode)
    ensures
        r == word_opcode(b, x),
{
    match b {
        OPCODE_PUSH => Opcode::Push(x),
        OPCODE_READ_NAMED => Opcode::ReadNamed(x),
        OPCODE_WRITE_NAMED => Opcode::WriteNamed(x),
        OPCODE_TYPEDEF_NAMED => Opcode::TypedefNamed(x),
        OPCODE_READ_ATTRIBUTE => Opcode::ReadAttribute(x),
        OPCODE_WRITE_ATTRIBUTE => Opcode::WriteAttribute(x),
        OPCODE_JUMP_TRUE => Opcode::JumpTrue(x),
        OPCODE_JUMP_FALSE => Opcode::JumpFalse(x),
        OPCODE_JUMP => Opcode::Jump(x),
        OPCODE_TRY_ENTER => Opcode::TryEnter(x),
        OPCODE_ENUM_CHECK_IS_CASE => Opcode::EnumCheckIsCase(x),
        OPCODE_IMPORT => Opcode::Import(x),
        OPCODE_LOAD_DYLIB => Opcode::LoadDylib(x),
        _ => Opcode::Assert(x),
    }
}

/// Builds the instruction of opcode byte `b` (layout `DWord`) from its operands.
pub fn make_dword_opcode(b: u8, x: u32) -> (r: Opcode)
    ensures
        r == dword_opcode(b, x),
{
    match b {
        OPCODE_READ_ATTRIBUTE_SYMBOL => Opcode::ReadAttributeSymbol(x),
        OPCODE_WRITE_ATTRIBUTE_SYMBOL => Opcode::WriteAttributeSymbol(x),
        _ => Opcode::BuildList(x),
    }
}

/// Builds the instruction of opcode byte `b` (layout `ByteWord`) from its operands.
pub fn make_byteword_opcode(b: u8, x: u8, y: u16) -> (r: Opcode)
    ensures
        r == byteword_opcode(b, x, y),
{
    match b {
        OPCODE_JUMP_IF_ARG_SUPPLIED => Opcode::JumpIfArgSupplied(x, y),
        OPCODE_BIND_METHOD => Opcode::BindMethod(x, y),
        OPCODE_BIND_CASE => Opcode::BindCase(x, y),
        _ => Opcode::NewEnumVal(x, y),
    }
}

impl Opcode {
    /// The mnemonic of this instruction.
    pub fn mnemonic(&self) -> (r: &'static str)
        ensures
            r@ == opcode_mnemonic(*self),
    {
        match self {
            Opcode::Nop => {
                proof {
                    reveal_strlit("NOP");
                }
                "NOP"
            }
            Opcode::Push(..) => {
                proof {
                    reveal_strlit("PUSH");
                }
                "PUSH"
            }
            Opcode::Push0 => {
                proof {
                    reveal_strlit("PUSH_0");
                }
                "PUSH_0"
            }
            Opcode::Push1 => {
                proof {
                    reveal_strlit("PUSH_1");
                }
                "PUSH_1"
            }
            Opcode::PushTrue => {
                proof {
                    reveal_strlit("PUSH_TRUE");
                }
                "PUSH_TRUE"
            }
            Opcode::PushFalse => {
                proof {
                    reveal_strlit("PUSH_FALSE");
                }
                "PUSH_FALSE"
            }
            Opcode::PushBuiltinTy(..) => {
                proof {
                    reveal_strlit("PUSH_BUILTIN_TY");
                }
                "PUSH_BUILTIN_TY"
            }
            Opcode::PushRuntimeValue(..) => {
                proof {
                    reveal_strlit("PUSH_RUNTIME_VAL");
                }
                "PUSH_RUNTIME_VAL"
            }
            Opcode::Pop => {
                proof {
                    reveal_strlit("POP");
                }
                "POP"
            }
            Opcode::Dup => {
                proof {
                    reveal_strlit("DUP");
                }
                "DUP"
            }
            Opcode::Swap => {
                proof {
                    reveal_strlit("SWAP");
                }
                "SWAP"
            }
            Opcode::Copy(..) => {
                proof {
                    reveal_strlit("COPY");
                }
                "COPY"
            }
            Opcode::Add => {
                proof {
                    reveal_strlit("ADD");
                }
                "ADD"
            }
            Opcode::Sub => {
                proof {
                    reveal_strlit("SUB");
                }
                "SUB"
            }
            Opcode::Mul => {
                proof {
                    reveal_strlit("MUL");
                }
                "MUL"
            }
            Opcode::Div => {
                proof {
                    reveal_strlit("DIV");
                }
                "DIV"
            }
            Opcode::Rem => {
                proof {
                    reveal_strlit("REM");
                }
                "REM"
            }
            Opcode::Equal => {
                proof {
                    reveal_strlit("EQ");
                }
                "EQ"
            }
            Opcode::GreaterThan => {
                proof {
                    reveal_strlit("GT");
                }
                "GT"
            }
            Opcode::LessThan => {
                proof {
                    reveal_strlit("LT");
                }
                "LT"
            }
            Opcode::GreaterThanEqual => {
                proof {
                    reveal_strlit("GTE");
                }
                "GTE"
            }
            Opcode::LessThanEqual => {
                proof {
                    reveal_strlit("LTE");
                }
                "LTE"
            }
            Opcode::Neg => {
                proof {
                    reveal_strlit("NEG");
                }
                "NEG"
            }
            Opcode::ShiftLeft => {
                proof {
                    reveal_strlit("SHL");
                }
                "SHL"
            }
            Opcode::ShiftRight => {
                proof {
                    reveal_strlit("SHR");
                }
                "SHR"
            }
            Opcode::Not => {
                proof {
                    reveal_strlit("NOT");
                }
                "NOT"
            }
            Opcode::ReadLocal(..) => {
                proof {
                    reveal_strlit("READ_LOCAL");
                }
                "READ_LOCAL"
            }
            Opcode::WriteLocal(..) => {
                proof {
                    reveal_strlit("WRITE_LOCAL");
                }
                "WRITE_LOCAL"
            }
            Opcode::TypedefLocal(..) => {
                proof {
                    reveal_strlit("TYPEDEF_LOCAL");
                }
                "TYPEDEF_LOCAL"
            }
            Opcode::ReadNamed(..) => {
                proof {
                    reveal_strlit("READ_NAMED");
                }
                "READ_NAMED"
            }
            Opcode::WriteNamed(..) => {
                proof {
                    reveal_strlit("WRITE_NAMED");
                }
                "WRITE_NAMED"
            }
            Opcode::TypedefNamed(..) => {
                proof {
                    reveal_strlit("TYPEDEF_NAMED");
                }
                "TYPEDEF_NAMED"
            }
            Opcode::ReadIndex(..) => {
                proof {
                    reveal_strlit("READ_INDEX");
                }
                "READ_INDEX"
            }
            Opcode::WriteIndex(..) => {
                proof {
                    reveal_strlit("WRITE_INDEX");
                }
                "WRITE_INDEX"
            }
            Opcode::ReadAttribute(..) => {
                proof {
                    reveal_strlit("READ_ATTRIB");
                }
                "READ_ATTRIB"
            }
            Opcode::WriteAttribute(..) => {
                proof {
                    reveal_strlit("WRITE_ATTRIB");
                }
                "WRITE_ATTRIB"
            }
            Opcode::ReadAttributeSymbol(..) => {
                proof {
                    reveal_strlit("READ_ATTRIB_SYMBOL");
                }
                "READ_ATTRIB_SYMBOL"
            }
            Opcode::WriteAttributeSymbol(..) => {
                proof {
                    reveal_strlit("WRITE_ATTRIB_SYMBOL");
                }
                "WRITE_ATTRIB_SYMBOL"
            }
            Opcode::ReadUplevel(..) => {
                proof {
                    reveal_strlit("READ_UPLEVEL");
                }
                "READ_UPLEVEL"
            }
            Opcode::LogicalAnd => {
                proof {
                    reveal_strlit("LOGICAL_AND");
                }
                "LOGICAL_AND"
            }
            Opcode::LogicalOr => {
                proof {
                    reveal_strlit("LOGICAL_OR");
                }
                "LOGICAL_OR"
            }
            Opcode::Xor => {
                proof {
                    reveal_strlit("XOR");
                }
                "XOR"
            }
            Opcode::BitwiseAnd => {
                proof {
                    reveal_strlit("BITWISE_AND");
                }
                "BITWISE_AND"
            }
            Opcode::BitwiseOr => {
                proof {
                    reveal_strlit("BITWISE_OR");
                }
                "BITWISE_OR"
            }
            Opcode::JumpTrue(..) => {
                proof {
                    reveal_strlit("JUMP_TRUE");
                }
                "JUMP_TRUE"
            }
            Opcode::JumpFalse(..) => {
                proof {
                    reveal_strlit("JUMP_FALSE");
                }
                "JUMP_FALSE"
            }
            Opcode::Jump(..) => {
                proof {
                    reveal_strlit("JUMP");
                }
                "JUMP"
            }
            Opcode::JumpIfArgSupplied(..) => {
                proof {
                    reveal_strlit("JUMP_IF_ARG_SUPPLIED");
                }
                "JUMP_IF_ARG_SUPPLIED"
            }
            Opcode::Call(..) => {
                proof {
                    reveal_strlit("CALL");
                }
                "CALL"
            }
            Opcode::Return => {
                proof {
                    reveal_strlit("RETURN");
                }
                "RETURN"
            }
            Opcode::ReturnUnit => {
                proof {
                    reveal_strlit("RETURN_UNIT");
                }
                "RETURN_UNIT"
            }
            Opcode::TryEnter(..) => {
                proof {
                    reveal_strlit("TRY_ENTER");
                }
                "TRY_ENTER"
            }
            Opcode::TryExit => {
                proof {
                    reveal_strlit("TRY_EXIT");
                }
                "TRY_EXIT"
            }
            Opcode::Throw => {
                proof {
                    reveal_strlit("THROW");
                }
                "THROW"
            }
            Opcode::BuildList(..) => {
                proof {
                    reveal_strlit("BUILD_LIST");
                }
                "BUILD_LIST"
            }
            Opcode::BuildFunction(..) => {
                proof {
                    reveal_strlit("BUILD_FUNCTION");
                }
                "BUILD_FUNCTION"
            }
            Opcode::StoreUplevel(..) => {
                proof {
                    reveal_strlit("STORE_UPLEVEL");
                }
                "STORE_UPLEVEL"
            }
            Opcode::BuildStruct => {
                proof {
                    reveal_strlit("BUILD_STRUCT");
                }
                "BUILD_STRUCT"
            }
            Opcode::BuildEnum => {
                proof {
                    reveal_strlit("BUILD_ENUM");
                }
                "BUILD_ENUM"
            }
            Opcode::BuildMixin => {
                proof {
                    reveal_strlit("BUILD_MIXIN");
                }
                "BUILD_MIXIN"
            }
            Opcode::BindMethod(..) => {
                proof {
                    reveal_strlit("BIND_METHOD");
                }
                "BIND_METHOD"
            }
            Opcode::BindCase(..) => {
                proof {
                    reveal_strlit("BIND_CASE");
                }
                "BIND_CASE"
            }
            Opcode::IncludeMixin => {
                proof {
                    reveal_strlit("INCLUDE_MIXIN");
                }
                "INCLUDE_MIXIN"
            }
            Opcode::NewEnumVal(..) => {
                proof {
                    reveal_strlit("NEW_ENUM_VAL");
                }
                "NEW_ENUM_VAL"
            }
            Opcode::EnumCheckIsCase(..) => {
                proof {
                    reveal_strlit("ENUM_CHECK_IS_CASE");
                }
                "ENUM_CHECK_IS_CASE"
            }
            Opcode::EnumTryExtractPayload => {
                proof {
                    reveal_strlit("ENUM_TRY_EXTRACT_PAYLOAD");
                }
                "ENUM_TRY_EXTRACT_PAYLOAD"
            }
            Opcode::TryUnwrapProtocol(..) => {
                proof {
                    reveal_strlit("TRY_UNWRAP_PROTOCOL");
                }
                "TRY_UNWRAP_PROTOCOL"
            }
            Opcode::Isa => {
                proof {
                    reveal_strlit("ISA");
                }
                "ISA"
            }
            Opcode::Import(..) => {
                proof {
                    reveal_strlit("IMPORT");
                }
                "IMPORT"
            }
            Opcode::LiftModule => {
                proof {
                    reveal_strlit("LIFT_MODULE");
                }
                "LIFT_MODULE"
            }
            Opcode::LoadDylib(..) => {
                proof {
                    reveal_strlit("LOAD_DYLIB");
                }
                "LOAD_DYLIB"
            }
            Opcode::Assert(..) => {
                proof {
                    reveal_strlit("ASSERT");
                }
                "ASSERT"
            }
            Opcode::Halt => {
                proof {
                    reveal_strlit("HALT");
                }
                "HALT"
            }
        }
    }
}

} // verus!
