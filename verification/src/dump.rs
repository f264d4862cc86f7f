//! Human-readable listings of instructions, constants and compiled code.
use crate::bc_reader::{decode_at, decode_error_text, BytecodeReader, DecodeError, MAX_BYTECODE_LEN};
use crate::opcodes::{
    builtin_type_id_byte, builtin_type_name, builtin_value_id_byte, builtin_value_name,
    opcode_mnemonic, Opcode, TRY_UNWRAP_PROTOCOL_ASSERT_ERROR, TRY_UNWRAP_PROTOCOL_PROPAGATE_ERROR,
};
use crate::compiled::{line_entry, CompiledCodeObject, CompiledModule, ConstantValue, ConstantValues};
use crate::text::{
    decimal, int_decimal, padded_decimal, push_decimal, push_int_decimal, push_padded_decimal,
    push_text,
};
use vstd::prelude::*;

verus! {

/// A source of the names that instructions refer to by number: constants of
/// the compiled module and symbols interned at run time.
pub trait StringResolver {
    /// The text of string constant `idx`, if there is one.
    spec fn constant_view(&self, idx: u16) -> Option<Seq<char>>;

    /// The name of run-time symbol `idx`, if there is one.
    spec fn symbol_view(&self, idx: u32) -> Option<Seq<char>>;

    /// The text that a listing shows for constant `idx`, if there is such a
    /// constant, whatever its kind.
    spec fn const_text_view(&self, idx: u16) -> Option<Seq<char>>;

    /// The text of string constant `idx`.
    fn resolve_compile_time_constant(&self, idx: u16) -> (r: Option<&str>)
        ensures
            r is Some <==> self.constant_view(idx) is Some,
            r matches Some(s) ==> self.constant_view(idx) == Some(s@),
    ;

    /// Appends the text of constant `idx`, if there is such a constant, and
    /// tells whether there is.
    fn push_constant_text(&self, buffer: &mut String, idx: u16) -> (r: bool)
        ensures
            r == self.const_text_view(idx) is Some,
            r ==> final(buffer)@ == old(buffer)@ + self.const_text_view(idx)->Some_0,
            !r ==> final(buffer)@ == old(buffer)@,
    ;

    /// The name of run-time symbol `idx`.
    fn resolve_run_time_symbol(&self, idx: u32) -> (r: Option<&str>)
        ensures
            r is Some <==> self.symbol_view(idx) is Some,
            r matches Some(s) ==> self.symbol_view(idx) == Some(s@),
    ;
}

/// The text of the mode of a `TryUnwrapProtocol` instruction.
pub open spec fn try_protocol_mode_text(id: u8) -> Seq<char> {
    if id == TRY_UNWRAP_PROTOCOL_PROPAGATE_ERROR {
        "RETURN"@
    } else if id == TRY_UNWRAP_PROTOCOL_ASSERT_ERROR {
        "ASSERT"@
    } else {
        "Unknown"@
    }
}

/// How a constant reference is shown: the text of the constant, of whatever
/// kind, or a note that there is no constant at that index.
pub open spec fn const_repr_text(c: Option<Seq<char>>, idx: u16) -> Seq<char> {
    match c {
        Some(s) => s,
        None => "invalid const @"@ + decimal(idx as nat),
    }
}

/// How a symbol reference is shown: the symbol's name, or a note that it is missing.
pub open spec fn symbol_repr_text(c: Option<Seq<char>>, idx: u32) -> Seq<char> {
    match c {
        Some(s) => s,
        None => "invalid symbol @"@ + decimal(idx as nat),
    }
}

/// `M(@idx) [constant]`
pub open spec fn const_ref_text(m: Seq<char>, idx: u16, c: Option<Seq<char>>) -> Seq<char> {
    m + "(@"@ + decimal(idx as nat) + ") ["@ + const_repr_text(c, idx) + "]"@
}

/// `M(arg,@idx) [constant]`
pub open spec fn arg_const_ref_text(m: Seq<char>, arg: u8, idx: u16, c: Option<Seq<char>>) -> Seq<char> {
    m + "("@ + decimal(arg as nat) + ",@"@ + decimal(idx as nat) + ") ["@ + const_repr_text(c, idx) + "]"@
}

/// `M(sym) [name]`
pub open spec fn symbol_ref_text(m: Seq<char>, idx: u32, c: Option<Seq<char>>) -> Seq<char> {
    m + "("@ + decimal(idx as nat) + ") ["@ + symbol_repr_text(c, idx) + "]"@
}

/// `M(x)`
pub open spec fn operand_text(m: Seq<char>, x: nat) -> Seq<char> {
    m + "("@ + decimal(x) + ")"@
}

/// `M(x,y)`
pub open spec fn operands_text(m: Seq<char>, x: nat, y: nat) -> Seq<char> {
    m + "("@ + decimal(x) + ","@ + decimal(y) + ")"@
}

/// The listing of one instruction, with the constants and symbols it refers to.
pub open spec fn opcode_text(op: Opcode, cv: spec_fn(u16) -> Option<Seq<char>>, sv: spec_fn(u32) -> Option<Seq<char>>) -> Seq<char> {
    let m = opcode_mnemonic(op);
    match op {
        Opcode::Nop => m,
        Opcode::Push(i) => const_ref_text(m, i, cv(i)),
        Opcode::Push0 => m,
        Opcode::Push1 => m,
        Opcode::PushTrue => m,
        Opcode::PushFalse => m,
        Opcode::PushBuiltinTy(n) => m + "("@ + decimal(builtin_type_id_byte(n) as nat) + ") ["@ + builtin_type_name(n) + "]"@,
        Opcode::PushRuntimeValue(n) => m + "("@ + decimal(builtin_value_id_byte(n) as nat) + ") ["@ + builtin_value_name(n) + "]"@,
        Opcode::Pop => m,
        Opcode::Dup => m,
        Opcode::Swap => m,
        Opcode::Copy(x) => operand_text(m, x as nat),
        Opcode::Add => m,
        Opcode::Sub => m,
        Opcode::Mul => m,
        Opcode::Div => m,
        Opcode::Rem => m,
        Opcode::Equal => m,
        Opcode::GreaterThan => m,
        Opcode::LessThan => m,
        Opcode::GreaterThanEqual => m,
        Opcode::LessThanEqual => m,
        Opcode::Neg => m,
        Opcode::ShiftLeft => m,
        Opcode::ShiftRight => m,
        Opcode::Not => m,
        Opcode::ReadLocal(x) => operand_text(m, x as nat),
        Opcode::WriteLocal(x) => operand_text(m, x as nat),
        Opcode::TypedefLocal(x) => operand_text(m, x as nat),
        Opcode::ReadNamed(i) => const_ref_text(m, i, cv(i)),
        Opcode::WriteNamed(i) => const_ref_text(m, i, cv(i)),
        Opcode::TypedefNamed(i) => const_ref_text(m, i, cv(i)),
        Opcode::ReadIndex(x) => operand_text(m, x as nat),
        Opcode::WriteIndex(x) => operand_text(m, x as nat),
        Opcode::ReadAttribute(i) => const_ref_text(m, i, cv(i)),
        Opcode::WriteAttribute(i) => const_ref_text(m, i, cv(i)),
        Opcode::ReadAttributeSymbol(s) => symbol_ref_text(m, s, sv(s)),
        Opcode::WriteAttributeSymbol(s) => symbol_ref_text(m, s, sv(s)),
        Opcode::ReadUplevel(x) => operand_text(m, x as nat),
        Opcode::LogicalAnd => m,
        Opcode::LogicalOr => m,
        Opcode::Xor => m,
        Opcode::BitwiseAnd => m,
        Opcode::BitwiseOr => m,
        Opcode::JumpTrue(x) => operand_text(m, x as nat),
        Opcode::JumpFalse(x) => operand_text(m, x as nat),
        Opcode::Jump(x) => operand_text(m, x as nat),
        Opcode::JumpIfArgSupplied(x, y) => operands_text(m, x as nat, y as nat),
        Opcode::Call(x) => operand_text(m, x as nat),
        Opcode::Return => m,
        Opcode::ReturnUnit => m,
        Opcode::TryEnter(x) => operand_text(m, x as nat),
        Opcode::TryExit => m,
        Opcode::Throw => m,
        Opcode::BuildList(x) => operand_text(m, x as nat),
        Opcode::BuildFunction(x) => operand_text(m, x as nat),
        Opcode::StoreUplevel(x) => operand_text(m, x as nat),
        Opcode::BuildStruct => m,
        Opcode::BuildEnum => m,
        Opcode::BuildMixin => m,
        Opcode::BindMethod(a, i) => arg_const_ref_text(m, a, i, cv(i)),
        Opcode::BindCase(a, i) => arg_const_ref_text(m, a, i, cv(i)),
        Opcode::IncludeMixin => m,
        Opcode::NewEnumVal(a, i) => arg_const_ref_text(m, a, i, cv(i)),
        Opcode::EnumCheckIsCase(i) => const_ref_text(m, i, cv(i)),
        Opcode::EnumTryExtractPayload => m,
        Opcode::TryUnwrapProtocol(mode) => m + " "@ + try_protocol_mode_text(mode),
        Opcode::Isa => m,
        Opcode::Import(i) => const_ref_text(m, i, cv(i)),
        Opcode::LiftModule => m,
        Opcode::LoadDylib(i) => const_ref_text(m, i, cv(i)),
        Opcode::Assert(i) => const_ref_text(m, i, cv(i)),
        Opcode::Halt => m,
    }
}

/// Every instruction that names a constant lists its mnemonic, the constant's
/// index after `@`, and in brackets the constant's text, or a note that the
/// index names no constant; the three that also carry a byte list it before
/// the index. This holds whatever resolver supplies the constants.
pub proof fn lemma_constant_operands_listed(i: u16, a: u8, cv: spec_fn(u16) -> Option<Seq<char>>, sv: spec_fn(u32) -> Option<Seq<char>>)
    ensures
        ({
            let shown = match cv(i) {
                Some(t) => t,
                None => "invalid const @"@ + decimal(i as nat),
            };
            let tail = "(@"@ + decimal(i as nat) + ") ["@ + shown + "]"@;
            let arg_tail = "("@ + decimal(a as nat) + ",@"@ + decimal(i as nat) + ") ["@ + shown + "]"@;
            &&& opcode_text(Opcode::Push(i), cv, sv) == "PUSH"@ + tail
            &&& opcode_text(Opcode::ReadNamed(i), cv, sv) == "READ_NAMED"@ + tail
            &&& opcode_text(Opcode::WriteNamed(i), cv, sv) == "WRITE_NAMED"@ + tail
            &&& opcode_text(Opcode::TypedefNamed(i), cv, sv) == "TYPEDEF_NAMED"@ + tail
            &&& opcode_text(Opcode::ReadAttribute(i), cv, sv) == "READ_ATTRIB"@ + tail
            &&& opcode_text(Opcode::WriteAttribute(i), cv, sv) == "WRITE_ATTRIB"@ + tail
            &&& opcode_text(Opcode::EnumCheckIsCase(i), cv, sv) == "ENUM_CHECK_IS_CASE"@ + tail
            &&& opcode_text(Opcode::Import(i), cv, sv) == "IMPORT"@ + tail
            &&& opcode_text(Opcode::LoadDylib(i), cv, sv) == "LOAD_DYLIB"@ + tail
            &&& opcode_text(Opcode::Assert(i), cv, sv) == "ASSERT"@ + tail
            &&& opcode_text(Opcode::BindMethod(a, i), cv, sv) == "BIND_METHOD"@ + arg_tail
            &&& opcode_text(Opcode::BindCase(a, i), cv, sv) == "BIND_CASE"@ + arg_tail
            &&& opcode_text(Opcode::NewEnumVal(a, i), cv, sv) == "NEW_ENUM_VAL"@ + arg_tail
        }),
{
    let shown = match cv(i) {
        Some(t) => t,
        None => "invalid const @"@ + decimal(i as nat),
    };
    let tail = "(@"@ + decimal(i as nat) + ") ["@ + shown + "]"@;
    let arg_tail = "("@ + decimal(a as nat) + ",@"@ + decimal(i as nat) + ") ["@ + shown + "]"@;
    assert(const_repr_text(cv(i), i) == shown);
    assert forall|m: Seq<char>| #[trigger] const_ref_text(m, i, cv(i)) == m + tail by {
        assert(const_ref_text(m, i, cv(i)) =~= m + tail);
    }
    assert forall|m: Seq<char>| #[trigger] arg_const_ref_text(m, a, i, cv(i)) == m + arg_tail by {
        assert(arg_const_ref_text(m, a, i, cv(i)) =~= m + arg_tail);
    }
}

/// Every instruction without a constant or symbol operand lists its mnemonic
/// followed, in parentheses, by its operands in decimal, separated by a
/// comma; an instruction without operands lists its mnemonic alone.
pub proof fn lemma_plain_operands_listed(b: u8, w: u16, d: u32, cv: spec_fn(u16) -> Option<Seq<char>>, sv: spec_fn(u32) -> Option<Seq<char>>)
    ensures
        ({
            &&& opcode_text(Opcode::Nop, cv, sv) == "NOP"@
            &&& opcode_text(Opcode::Push0, cv, sv) == "PUSH_0"@
            &&& opcode_text(Opcode::Push1, cv, sv) == "PUSH_1"@
            &&& opcode_text(Opcode::PushTrue, cv, sv) == "PUSH_TRUE"@
            &&& opcode_text(Opcode::PushFalse, cv, sv) == "PUSH_FALSE"@
            &&& opcode_text(Opcode::Pop, cv, sv) == "POP"@
            &&& opcode_text(Opcode::Dup, cv, sv) == "DUP"@
            &&& opcode_text(Opcode::Swap, cv, sv) == "SWAP"@
            &&& opcode_text(Opcode::Add, cv, sv) == "ADD"@
            &&& opcode_text(Opcode::Sub, cv, sv) == "SUB"@
            &&& opcode_text(Opcode::Mul, cv, sv) == "MUL"@
            &&& opcode_text(Opcode::Div, cv, sv) == "DIV"@
            &&& opcode_text(Opcode::Rem, cv, sv) == "REM"@
            &&& opcode_text(Opcode::Equal, cv, sv) == "EQ"@
            &&& opcode_text(Opcode::GreaterThan, cv, sv) == "GT"@
            &&& opcode_text(Opcode::LessThan, cv, sv) == "LT"@
            &&& opcode_text(Opcode::GreaterThanEqual, cv, sv) == "GTE"@
            &&& opcode_text(Opcode::LessThanEqual, cv, sv) == "LTE"@
            &&& opcode_text(Opcode::Neg, cv, sv) == "NEG"@
            &&& opcode_text(Opcode::ShiftLeft, cv, sv) == "SHL"@
            &&& opcode_text(Opcode::ShiftRight, cv, sv) == "SHR"@
            &&& opcode_text(Opcode::Not, cv, sv) == "NOT"@
            &&& opcode_text(Opcode::LogicalAnd, cv, sv) == "LOGICAL_AND"@
            &&& opcode_text(Opcode::LogicalOr, cv, sv) == "LOGICAL_OR"@
            &&& opcode_text(Opcode::Xor, cv, sv) == "XOR"@
            &&& opcode_text(Opcode::BitwiseAnd, cv, sv) == "BITWISE_AND"@
            &&& opcode_text(Opcode::BitwiseOr, cv, sv) == "BITWISE_OR"@
            &&& opcode_text(Opcode::Return, cv, sv) == "RETURN"@
            &&& opcode_text(Opcode::ReturnUnit, cv, sv) == "RETURN_UNIT"@
            &&& opcode_text(Opcode::TryExit, cv, sv) == "TRY_EXIT"@
            &&& opcode_text(Opcode::Throw, cv, sv) == "THROW"@
            &&& opcode_text(Opcode::BuildStruct, cv, sv) == "BUILD_STRUCT"@
            &&& opcode_text(Opcode::BuildEnum, cv, sv) == "BUILD_ENUM"@
            &&& opcode_text(Opcode::BuildMixin, cv, sv) == "BUILD_MIXIN"@
            &&& opcode_text(Opcode::IncludeMixin, cv, sv) == "INCLUDE_MIXIN"@
            &&& opcode_text(Opcode::EnumTryExtractPayload, cv, sv) == "ENUM_TRY_EXTRACT_PAYLOAD"@
            &&& opcode_text(Opcode::Isa, cv, sv) == "ISA"@
            &&& opcode_text(Opcode::LiftModule, cv, sv) == "LIFT_MODULE"@
            &&& opcode_text(Opcode::Halt, cv, sv) == "HALT"@
            &&& opcode_text(Opcode::Copy(b), cv, sv) == "COPY"@ + "("@ + decimal(b as nat) + ")"@
            &&& opcode_text(Opcode::ReadLocal(b), cv, sv) == "READ_LOCAL"@ + "("@ + decimal(b as nat) + ")"@
            &&& opcode_text(Opcode::WriteLocal(b), cv, sv) == "WRITE_LOCAL"@ + "("@ + decimal(b as nat) + ")"@
            &&& opcode_text(Opcode::TypedefLocal(b), cv, sv) == "TYPEDEF_LOCAL"@ + "("@ + decimal(b as nat) + ")"@
            &&& opcode_text(Opcode::ReadIndex(b), cv, sv) == "READ_INDEX"@ + "("@ + decimal(b as nat) + ")"@
            &&& opcode_text(Opcode::WriteIndex(b), cv, sv) == "WRITE_INDEX"@ + "("@ + decimal(b as nat) + ")"@
            &&& opcode_text(Opcode::ReadUplevel(b), cv, sv) == "READ_UPLEVEL"@ + "("@ + decimal(b as nat) + ")"@
            &&& opcode_text(Opcode::JumpTrue(w), cv, sv) == "JUMP_TRUE"@ + "("@ + decimal(w as nat) + ")"@
            &&& opcode_text(Opcode::JumpFalse(w), cv, sv) == "JUMP_FALSE"@ + "("@ + decimal(w as nat) + ")"@
            &&& opcode_text(Opcode::Jump(w), cv, sv) == "JUMP"@ + "("@ + decimal(w as nat) + ")"@
            &&& opcode_text(Opcode::Call(b), cv, sv) == "CALL"@ + "("@ + decimal(b as nat) + ")"@
            &&& opcode_text(Opcode::TryEnter(w), cv, sv) == "TRY_ENTER"@ + "("@ + decimal(w as nat) + ")"@
            &&& opcode_text(Opcode::BuildList(d), cv, sv) == "BUILD_LIST"@ + "("@ + decimal(d as nat) + ")"@
            &&& opcode_text(Opcode::BuildFunction(b), cv, sv) == "BUILD_FUNCTION"@ + "("@ + decimal(b as nat) + ")"@
            &&& opcode_text(Opcode::StoreUplevel(b), cv, sv) == "STORE_UPLEVEL"@ + "("@ + decimal(b as nat) + ")"@
            &&& opcode_text(Opcode::JumpIfArgSupplied(b, w), cv, sv) == "JUMP_IF_ARG_SUPPLIED"@ + "("@ + decimal(b as nat) + ","@ + decimal(w as nat) + ")"@
        }),
{
}

/// Instructions that name run-time symbols list the symbol's number and, in
/// brackets, its name, or a note that the number names no symbol; a
/// `TryUnwrapProtocol` lists its mode by name.
pub proof fn lemma_symbol_operands_listed(d: u32, b: u8, cv: spec_fn(u16) -> Option<Seq<char>>, sv: spec_fn(u32) -> Option<Seq<char>>)
    ensures
        ({
            let shown = match sv(d) {
                Some(t) => t,
                None => "invalid symbol @"@ + decimal(d as nat),
            };
            &&& opcode_text(Opcode::ReadAttributeSymbol(d), cv, sv) == "READ_ATTRIB_SYMBOL"@ + "("@ + decimal(d as nat)
                + ") ["@ + shown + "]"@
            &&& opcode_text(Opcode::WriteAttributeSymbol(d), cv, sv) == "WRITE_ATTRIB_SYMBOL"@ + "("@ + decimal(
                d as nat,
            ) + ") ["@ + shown + "]"@
            &&& opcode_text(Opcode::TryUnwrapProtocol(b), cv, sv) == "TRY_UNWRAP_PROTOCOL"@ + " "@ + (if b == 0 {
                "RETURN"@
            } else if b == 1 {
                "ASSERT"@
            } else {
                "Unknown"@
            })
        }),
{
    let shown = match sv(d) {
        Some(t) => t,
        None => "invalid symbol @"@ + decimal(d as nat),
    };
    assert(symbol_repr_text(sv(d), d) == shown);
}

/// The mode name of a `TryUnwrapProtocol` instruction.
pub fn try_protocol_mode_to_str(id: u8) -> (r: &'static str)
    ensures
        r@ == try_protocol_mode_text(id),
{
    if id == TRY_UNWRAP_PROTOCOL_PROPAGATE_ERROR {
        "RETURN"
    } else if id == TRY_UNWRAP_PROTOCOL_ASSERT_ERROR {
        "ASSERT"
    } else {
        "Unknown"
    }
}

/// Appends how constant `idx` is shown.
pub fn const_best_repr<R: StringResolver>(buffer: &mut String, resolver: &R, idx: u16)
    ensures
        final(buffer)@ == old(buffer)@ + const_repr_text(resolver.const_text_view(idx), idx),
{
    let found = resolver.push_constant_text(buffer, idx);
    if !found {
        {
            push_text(buffer, "invalid const @");
            push_decimal(buffer, idx as u64);
            proof {
                assert(old(buffer)@ + "invalid const @"@ + decimal(idx as nat) =~= old(buffer)@ + const_repr_text(
                    resolver.const_text_view(idx),
                    idx,
                ));
            }
        }
    }
}

fn push_const_ref<R: StringResolver>(buffer: &mut String, m: &str, idx: u16, resolver: &R)
    ensures
        final(buffer)@ == old(buffer)@ + const_ref_text(m@, idx, resolver.const_text_view(idx)),
{
    push_text(buffer, m);
    push_text(buffer, "(@");
    push_decimal(buffer, idx as u64);
    push_text(buffer, ") [");
    const_best_repr(buffer, resolver, idx);
    push_text(buffer, "]");
    proof {
        assert(final(buffer)@ =~= old(buffer)@ + const_ref_text(m@, idx, resolver.const_text_view(idx)));
    }
}

fn push_arg_const_ref<R: StringResolver>(buffer: &mut String, m: &str, arg: u8, idx: u16, resolver: &R)
    ensures
        final(buffer)@ == old(buffer)@ + arg_const_ref_text(m@, arg, idx, resolver.const_text_view(idx)),
{
    push_text(buffer, m);
    push_text(buffer, "(");
    push_decimal(buffer, arg as u64);
    push_text(buffer, ",@");
    push_decimal(buffer, idx as u64);
    push_text(buffer, ") [");
    const_best_repr(buffer, resolver, idx);
    push_text(buffer, "]");
    proof {
        assert(final(buffer)@ =~= old(buffer)@ + arg_const_ref_text(m@, arg, idx, resolver.const_text_view(idx)));
    }
}

fn push_symbol_ref<R: StringResolver>(buffer: &mut String, m: &str, idx: u32, resolver: &R)
    ensures
        final(buffer)@ == old(buffer)@ + symbol_ref_text(m@, idx, resolver.symbol_view(idx)),
{
    push_text(buffer, m);
    push_text(buffer, "(");
    push_decimal(buffer, idx as u64);
    push_text(buffer, ") [");
    match resolver.resolve_run_time_symbol(idx) {
        Some(s) => push_text(buffer, s),
        None => {
            push_text(buffer, "invalid symbol @");
            push_decimal(buffer, idx as u64);
        },
    }
    push_text(buffer, "]");
    proof {
        assert(final(buffer)@ =~= old(buffer)@ + symbol_ref_text(m@, idx, resolver.symbol_view(idx)));
    }
}

fn push_operand(buffer: &mut String, m: &str, x: u64)
    ensures
        final(buffer)@ == old(buffer)@ + operand_text(m@, x as nat),
{
    push_text(buffer, m);
    push_text(buffer, "(");
    push_decimal(buffer, x);
    push_text(buffer, ")");
    proof {
        assert(final(buffer)@ =~= old(buffer)@ + operand_text(m@, x as nat));
    }
}

fn push_operands(buffer: &mut String, m: &str, x: u64, y: u64)
    ensures
        final(buffer)@ == old(buffer)@ + operands_text(m@, x as nat, y as nat),
{
    push_text(buffer, m);
    push_text(buffer, "(");
    push_decimal(buffer, x);
    push_text(buffer, ",");
    push_decimal(buffer, y);
    push_text(buffer, ")");
    proof {
        assert(final(buffer)@ =~= old(buffer)@ + operands_text(m@, x as nat, y as nat));
    }
}

/// Appends the listing of instruction `op` to `buffer`.
pub fn opcode_prettyprint<R: StringResolver>(op: &Opcode, resolver: &R, buffer: String) -> (r: String)
    ensures
        r@ == buffer@ + opcode_text(*op, |i: u16| resolver.const_text_view(i), |i: u32| resolver.symbol_view(i)),
{
    let mut buffer = buffer;
    let ghost b0 = buffer@;
    match op {
        Opcode::Nop => push_text(&mut buffer, op.mnemonic()),
        Opcode::Push(i) => push_const_ref(&mut buffer, op.mnemonic(), *i, resolver),
        Opcode::Push0 => push_text(&mut buffer, op.mnemonic()),
        Opcode::Push1 => push_text(&mut buffer, op.mnemonic()),
        Opcode::PushTrue => push_text(&mut buffer, op.mnemonic()),
        Opcode::PushFalse => push_text(&mut buffer, op.mnemonic()),
        Opcode::PushBuiltinTy(n) => {
            push_text(&mut buffer, op.mnemonic());
            push_text(&mut buffer, "(");
            push_decimal(&mut buffer, n.to_u8() as u64);
            push_text(&mut buffer, ") [");
            push_text(&mut buffer, n.name());
            push_text(&mut buffer, "]");
        },
        Opcode::PushRuntimeValue(n) => {
            push_text(&mut buffer, op.mnemonic());
            push_text(&mut buffer, "(");
            push_decimal(&mut buffer, n.to_u8() as u64);
            push_text(&mut buffer, ") [");
            push_text(&mut buffer, n.name());
            push_text(&mut buffer, "]");
        },
        Opcode::Pop => push_text(&mut buffer, op.mnemonic()),
        Opcode::Dup => push_text(&mut buffer, op.mnemonic()),
        Opcode::Swap => push_text(&mut buffer, op.mnemonic()),
        Opcode::Copy(x) => push_operand(&mut buffer, op.mnemonic(), *x as u64),
        Opcode::Add => push_text(&mut buffer, op.mnemonic()),
        Opcode::Sub => push_text(&mut buffer, op.mnemonic()),
        Opcode::Mul => push_text(&mut buffer, op.mnemonic()),
        Opcode::Div => push_text(&mut buffer, op.mnemonic()),
        Opcode::Rem => push_text(&mut buffer, op.mnemonic()),
        Opcode::Equal => push_text(&mut buffer, op.mnemonic()),
        Opcode::GreaterThan => push_text(&mut buffer, op.mnemonic()),
        Opcode::LessThan => push_text(&mut buffer, op.mnemonic()),
        Opcode::GreaterThanEqual => push_text(&mut buffer, op.mnemonic()),
        Opcode::LessThanEqual => push_text(&mut buffer, op.mnemonic()),
        Opcode::Neg => push_text(&mut buffer, op.mnemonic()),
        Opcode::ShiftLeft => push_text(&mut buffer, op.mnemonic()),
        Opcode::ShiftRight => push_text(&mut buffer, op.mnemonic()),
        Opcode::Not => push_text(&mut buffer, op.mnemonic()),
        Opcode::ReadLocal(x) => push_operand(&mut buffer, op.mnemonic(), *x as u64),
        Opcode::WriteLocal(x) => push_operand(&mut buffer, op.mnemonic(), *x as u64),
        Opcode::TypedefLocal(x) => push_operand(&mut buffer, op.mnemonic(), *x as u64),
        Opcode::ReadNamed(i) => push_const_ref(&mut buffer, op.mnemonic(), *i, resolver),
        Opcode::WriteNamed(i) => push_const_ref(&mut buffer, op.mnemonic(), *i, resolver),
        Opcode::TypedefNamed(i) => push_const_ref(&mut buffer, op.mnemonic(), *i, resolver),
        Opcode::ReadIndex(x) => push_operand(&mut buffer, op.mnemonic(), *x as u64),
        Opcode::WriteIndex(x) => push_operand(&mut buffer, op.mnemonic(), *x as u64),
        Opcode::ReadAttribute(i) => push_const_ref(&mut buffer, op.mnemonic(), *i, resolver),
        Opcode::WriteAttribute(i) => push_const_ref(&mut buffer, op.mnemonic(), *i, resolver),
        Opcode::ReadAttributeSymbol(s) => push_symbol_ref(&mut buffer, op.mnemonic(), *s, resolver),
        Opcode::WriteAttributeSymbol(s) => push_symbol_ref(&mut buffer, op.mnemonic(), *s, resolver),
        Opcode::ReadUplevel(x) => push_operand(&mut buffer, op.mnemonic(), *x as u64),
        Opcode::LogicalAnd => push_text(&mut buffer, op.mnemonic()),
        Opcode::LogicalOr => push_text(&mut buffer, op.mnemonic()),
        Opcode::Xor => push_text(&mut buffer, op.mnemonic()),
        Opcode::BitwiseAnd => push_text(&mut buffer, op.mnemonic()),
        Opcode::BitwiseOr => push_text(&mut buffer, op.mnemonic()),
        Opcode::JumpTrue(x) => push_operand(&mut buffer, op.mnemonic(), *x as u64),
        Opcode::JumpFalse(x) => push_operand(&mut buffer, op.mnemonic(), *x as u64),
        Opcode::Jump(x) => push_operand(&mut buffer, op.mnemonic(), *x as u64),
        Opcode::JumpIfArgSupplied(x, y) => push_operands(&mut buffer, op.mnemonic(), *x as u64, *y as u64),
        Opcode::Call(x) => push_operand(&mut buffer, op.mnemonic(), *x as u64),
        Opcode::Return => push_text(&mut buffer, op.mnemonic()),
        Opcode::ReturnUnit => push_text(&mut buffer, op.mnemonic()),
        Opcode::TryEnter(x) => push_operand(&mut buffer, op.mnemonic(), *x as u64),
        Opcode::TryExit => push_text(&mut buffer, op.mnemonic()),
        Opcode::Throw => push_text(&mut buffer, op.mnemonic()),
        Opcode::BuildList(x) => push_operand(&mut buffer, op.mnemonic(), *x as u64),
        Opcode::BuildFunction(x) => push_operand(&mut buffer, op.mnemonic(), *x as u64),
        Opcode::StoreUplevel(x) => push_operand(&mut buffer, op.mnemonic(), *x as u64),
        Opcode::BuildStruct => push_text(&mut buffer, op.mnemonic()),
        Opcode::BuildEnum => push_text(&mut buffer, op.mnemonic()),
        Opcode::BuildMixin => push_text(&mut buffer, op.mnemonic()),
        Opcode::BindMethod(a, i) => push_arg_const_ref(&mut buffer, op.mnemonic(), *a, *i, resolver),
        Opcode::BindCase(a, i) => push_arg_const_ref(&mut buffer, op.mnemonic(), *a, *i, resolver),
        Opcode::IncludeMixin => push_text(&mut buffer, op.mnemonic()),
        Opcode::NewEnumVal(a, i) => push_arg_const_ref(&mut buffer, op.mnemonic(), *a, *i, resolver),
        Opcode::EnumCheckIsCase(i) => push_const_ref(&mut buffer, op.mnemonic(), *i, resolver),
        Opcode::EnumTryExtractPayload => push_text(&mut buffer, op.mnemonic()),
        Opcode::TryUnwrapProtocol(mode) => {
            push_text(&mut buffer, op.mnemonic());
            push_text(&mut buffer, " ");
            push_text(&mut buffer, try_protocol_mode_to_str(*mode));
        },
        Opcode::Isa => push_text(&mut buffer, op.mnemonic()),
        Opcode::Import(i) => push_const_ref(&mut buffer, op.mnemonic(), *i, resolver),
        Opcode::LiftModule => push_text(&mut buffer, op.mnemonic()),
        Opcode::LoadDylib(i) => push_const_ref(&mut buffer, op.mnemonic(), *i, resolver),
        Opcode::Assert(i) => push_const_ref(&mut buffer, op.mnemonic(), *i, resolver),
        Opcode::Halt => push_text(&mut buffer, op.mnemonic()),
    }
    proof {
        assert(buffer@ =~= b0 + opcode_text(*op, |i: u16| resolver.const_text_view(i), |i: u32| resolver.symbol_view(i)));
    }
    buffer
}

/// What follows instruction `k` on its line: ` --> ` and its source location
/// where the line table `lt` has one.
pub open spec fn line_suffix(lt: Seq<(u16, String)>, k: nat) -> Seq<char> {
    match line_entry(lt, k as u16) {
        Some(t) => " --> "@ + t,
        None => Seq::empty(),
    }
}

/// The listing of the instructions of `d` from position `pos` on, numbering
/// them from `k`; the listing stops at the first position that does not decode.
pub open spec fn listing_text(d: Seq<u8>, pos: int, k: nat, lt: Seq<(u16, String)>, cv: spec_fn(u16) -> Option<Seq<char>>, sv: spec_fn(u32) -> Option<Seq<char>>) -> Seq<char>
    decreases d.len() - pos,
{
    if pos < 0 || pos >= d.len() {
        Seq::empty()
    } else {
        match decode_at(d, pos) {
            (Ok(op), j) => if j > pos {
                "    "@ + padded_decimal(k, 5) + ": "@ + opcode_text(op, cv, sv) + line_suffix(lt, k) + "\n"@
                    + listing_text(d, j, k + 1, lt, cv, sv)
            } else {
                Seq::empty()
            },
            (Err(_), _) => Seq::empty(),
        }
    }
}

/// The header and instruction listing of a compiled code object.
pub open spec fn code_object_text(cco: CompiledCodeObject, cv: spec_fn(u16) -> Option<Seq<char>>, sv: spec_fn(u32) -> Option<Seq<char>>) -> Seq<char> {
    "cco(name:\""@ + cco.name@ + " required arguments:"@ + decimal(cco.required_argc as nat) + " default arguments:"@
        + decimal(cco.default_argc as nat) + " frame size:"@ + decimal(cco.frame_size as nat) + ") bc=\n"@
        + if cco.body@.len() > MAX_BYTECODE_LEN {
        "    <invalid bytecode: "@ + decode_error_text(DecodeError::DataTooLarge) + ">\n"@
    } else {
        listing_text(cco.body@, 0, 0, cco.line_table.entries@, cv, sv)
    }
}

/// The listing of one constant.
pub open spec fn constant_text(c: ConstantValue, cv: spec_fn(u16) -> Option<Seq<char>>, sv: spec_fn(u32) -> Option<Seq<char>>) -> Seq<char> {
    match c {
        ConstantValue::Integer(n) => "int("@ + int_decimal(n as int) + ")"@,
        ConstantValue::String(s) => "str(\""@ + s@ + "\")"@,
        ConstantValue::CompiledCodeObject(cco) => code_object_text(cco, cv, sv),
    }
}

/// The listing of the constants `values[i..]`, each on its own line with its index.
pub open spec fn constants_text(values: Seq<ConstantValue>, i: int, cv: spec_fn(u16) -> Option<Seq<char>>, sv: spec_fn(u32) -> Option<Seq<char>>) -> Seq<char>
    decreases values.len() - i,
{
    if i < 0 || i >= values.len() {
        Seq::empty()
    } else {
        "cv @"@ + decimal(i as nat) + " -> "@ + constant_text(values[i], cv, sv) + "\n"@ + constants_text(values, i + 1, cv, sv)
    }
}

impl CompiledCodeObject {
    /// Appends the header and the instruction listing of this code object.
    pub fn dump<R: StringResolver>(&self, resolver: &R, buffer: String) -> (r: String)
        ensures
            r@ == buffer@ + code_object_text(*self, |i: u16| resolver.const_text_view(i), |i: u32| resolver.symbol_view(i)),
    {
        let ghost cv = |i: u16| resolver.const_text_view(i);
        let ghost sv = |i: u32| resolver.symbol_view(i);
        let mut dest = buffer;
        push_text(&mut dest, "cco(name:\"");
        push_text(&mut dest, self.name.as_str());
        push_text(&mut dest, " required arguments:");
        push_decimal(&mut dest, self.required_argc as u64);
        push_text(&mut dest, " default arguments:");
        push_decimal(&mut dest, self.default_argc as u64);
        push_text(&mut dest, " frame size:");
        push_decimal(&mut dest, self.frame_size as u64);
        push_text(&mut dest, ") bc=\n");
        let ghost head = dest@;
        let mut bcr = match BytecodeReader::try_from(self.body.as_slice()) {
            Ok(bcr) => bcr,
            Err(e) => {
                push_text(&mut dest, "    <invalid bytecode: ");
                let msg = e.to_string();
                push_text(&mut dest, msg.as_str());
                push_text(&mut dest, ">\n");
                proof {
                    assert(dest@ =~= buffer@ + code_object_text(*self, cv, sv));
                }
                return dest;
            },
        };
        let ghost d = self.body@;
        let ghost lt = self.line_table.entries@;
        proof {
            assert(buffer@ + code_object_text(*self, cv, sv) =~= head + listing_text(d, 0, 0, lt, cv, sv));
        }
        let mut op_idx: u64 = 0;
        loop
            invariant
                bcr.bytes() == d,
                lt == self.line_table.entries@,
                d.len() <= MAX_BYTECODE_LEN,
                0 <= bcr.pos() <= d.len(),
                op_idx <= bcr.pos(),
                cv == (|i: u16| resolver.const_text_view(i)),
                sv == (|i: u32| resolver.symbol_view(i)),
                head + listing_text(d, 0, 0, lt, cv, sv) == dest@ + listing_text(d, bcr.pos(), op_idx as nat, lt, cv, sv),
                buffer@ + code_object_text(*self, cv, sv) == head + listing_text(d, 0, 0, lt, cv, sv),
            decreases d.len() - bcr.pos(),
        {
            let ghost pos = bcr.pos();
            let ghost before = dest@;
            match bcr.read_opcode() {
                Ok(op) => {
                    push_text(&mut dest, "    ");
                    push_padded_decimal(&mut dest, op_idx, 5);
                    push_text(&mut dest, ": ");
                    dest = opcode_prettyprint(&op, resolver, dest);
                    let ghost after_op = dest@;
                    match self.line_table.get(op_idx as u16) {
                        Some(lte) => {
                            push_text(&mut dest, " --> ");
                            push_text(&mut dest, lte);
                        },
                        None => {},
                    }
                    proof {
                        assert(dest@ =~= after_op + line_suffix(lt, op_idx as nat));
                    }
                    push_text(&mut dest, "\n");
                    proof {
                        assert(pos < bcr.pos());
                        assert(dest@ =~= before + "    "@ + padded_decimal(op_idx as nat, 5) + ": "@ + opcode_text(op, cv, sv)
                            + line_suffix(lt, op_idx as nat) + "\n"@);
                        assert(before + listing_text(d, pos, op_idx as nat, lt, cv, sv) =~= dest@ + listing_text(d, bcr.pos(), (op_idx + 1) as nat, lt, cv, sv));
                    }
                    op_idx += 1;
                },
                Err(_) => {
                    proof {
                        assert(dest@ + listing_text(d, pos, op_idx as nat, lt, cv, sv) =~= dest@);
                        assert(dest@ =~= buffer@ + code_object_text(*self, cv, sv));
                    }
                    return dest;
                },
            }
        }
    }
}

impl ConstantValue {
    /// Appends the listing of this constant.
    pub fn dump<R: StringResolver>(&self, resolver: &R, buffer: String) -> (r: String)
        ensures
            r@ == buffer@ + constant_text(*self, |i: u16| resolver.const_text_view(i), |i: u32| resolver.symbol_view(i)),
    {
        let mut dest = buffer;
        match self {
            ConstantValue::Integer(n) => {
                push_text(&mut dest, "int(");
                push_int_decimal(&mut dest, *n);
                push_text(&mut dest, ")");
            },
            ConstantValue::String(s) => {
                push_text(&mut dest, "str(\"");
                push_text(&mut dest, s.as_str());
                push_text(&mut dest, "\")");
            },
            ConstantValue::CompiledCodeObject(cco) => {
                dest = cco.dump(resolver, dest);
            },
        }
        proof {
            assert(dest@ =~= buffer@ + constant_text(*self, |i: u16| resolver.const_text_view(i), |i: u32| resolver.symbol_view(i)));
        }
        dest
    }
}

impl ConstantValues {
    /// Appends the listing of all constants, each with its index.
    pub fn dump<R: StringResolver>(&self, resolver: &R, buffer: String) -> (r: String)
        ensures
            r@ == buffer@ + constants_text(self.values@, 0, |i: u16| resolver.const_text_view(i), |i: u32| resolver.symbol_view(i)),
    {
        let ghost cv = |i: u16| resolver.const_text_view(i);
        let ghost sv = |i: u32| resolver.symbol_view(i);
        let mut dest = buffer;
        let mut i: usize = 0;
        while i < self.values.len()
            invariant
                i <= self.values@.len(),
                cv == (|i: u16| resolver.const_text_view(i)),
                sv == (|i: u32| resolver.symbol_view(i)),
                buffer@ + constants_text(self.values@, 0, cv, sv) == dest@ + constants_text(self.values@, i as int, cv, sv),
            decreases self.values@.len() - i,
        {
            let ghost before = dest@;
            push_text(&mut dest, "cv @");
            push_decimal(&mut dest, i as u64);
            push_text(&mut dest, " -> ");
            dest = self.values[i].dump(resolver, dest);
            push_text(&mut dest, "\n");
            proof {
                assert(before + constants_text(self.values@, i as int, cv, sv) =~= dest@ + constants_text(self.values@, i + 1, cv, sv));
            }
            i += 1;
        }
        proof {
            assert(dest@ + constants_text(self.values@, i as int, cv, sv) =~= dest@);
        }
        dest
    }
}

impl CompiledModule {
    /// Appends the listing of the module's constants.
    pub fn prettyprint(&self, buffer: String) -> (r: String)
        ensures
            r@ == buffer@ + constants_text(self.constants.values@, 0, |i: u16| self.const_text_view(i), |i: u32| self.symbol_view(i)),
    {
        self.constants.dump(self, buffer)
    }
}

} // verus!
