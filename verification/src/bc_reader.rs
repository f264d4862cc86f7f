//! Decoding of bytecode streams into instructions.
use crate::opcodes::{
    opcode_bytes, u16_bytes, u32_bytes, builtin_type_id_byte, builtin_value_id_byte,
    bare_opcode, builtin_type_id_of, builtin_value_id_of, byte_opcode, byteword_opcode,
    dword_opcode, layout_of, le_u16, le_u32, make_bare_opcode, make_byte_opcode,
    make_byteword_opcode, make_dword_opcode, make_word_opcode, opcode_layout, word_opcode,
    BuiltinTypeId, BuiltinValueId, Opcode, OperandLayout,
};
use crate::text::{decimal, push_decimal, push_text};
use vstd::prelude::*;

verus! {

/// The largest bytecode body that a reader accepts.
pub const MAX_BYTECODE_LEN: usize = 65535;

/// Errors raised while decoding bytecode.
#[derive(Clone, Copy, Debug, PartialEq, Eq, Structural)]
pub enum DecodeError {
    DataTooLarge,
    EndOfStream,
    InsufficientData,
    UnknownOpcode(u8),
    UnknownOperand(u8, u8),
}

/// The message that describes a decoding error.
pub open spec fn decode_error_text(e: DecodeError) -> Seq<char> {
    match e {
        DecodeError::DataTooLarge => "bytecode exceeds maximum allowed size"@,
        DecodeError::EndOfStream => "reached end of stream"@,
        DecodeError::InsufficientData => "insufficient data for decoding"@,
        DecodeError::UnknownOpcode(b) => decimal(b as nat) + " is not a known opcode"@,
        DecodeError::UnknownOperand(op, b) => decimal(b as nat) + " is not a valid operand for opcode "@ + decimal(op as nat),
    }
}

impl DecodeError {
    /// The message that describes this error.
    pub fn to_string(&self) -> (r: String)
        ensures
            r@ == decode_error_text(*self),
    {
        let mut s = String::new();
        match self {
            DecodeError::DataTooLarge => push_text(&mut s, "bytecode exceeds maximum allowed size"),
            DecodeError::EndOfStream => push_text(&mut s, "reached end of stream"),
            DecodeError::InsufficientData => push_text(&mut s, "insufficient data for decoding"),
            DecodeError::UnknownOpcode(b) => {
                push_decimal(&mut s, *b as u64);
                push_text(&mut s, " is not a known opcode");
            },
            DecodeError::UnknownOperand(op, b) => {
                push_decimal(&mut s, *b as u64);
                push_text(&mut s, " is not a valid operand for opcode ");
                push_decimal(&mut s, *op as u64);
            },
        }
        proof {
            assert(Seq::<char>::empty() + decode_error_text(*self) =~= decode_error_text(*self));
        }
        s
    }
}

/// The instruction that starts at position `i` of `d`, with the position
/// reached by decoding it (on failure, the position that the reader is left at).
pub open spec fn decode_at(d: Seq<u8>, i: int) -> (Result<Opcode, DecodeError>, int) {
    if i < 0 || i >= d.len() {
        (Err(DecodeError::EndOfStream), i)
    } else {
        let b = d[i];
        let n = d.len();
        match opcode_layout(b) {
            None => (Err(DecodeError::UnknownOpcode(b)), i + 1),
            Some(OperandLayout::Bare) => (Ok(bare_opcode(b)), i + 1),
            Some(OperandLayout::Byte) => if i + 2 <= n {
                (Ok(byte_opcode(b, d[i + 1])), i + 2)
            } else {
                (Err(DecodeError::InsufficientData), i + 1)
            },
            Some(OperandLayout::Word) => if i + 3 <= n {
                (Ok(word_opcode(b, le_u16(d[i + 1], d[i + 2]))), i + 3)
            } else {
                (Err(DecodeError::InsufficientData), i + 1)
            },
            Some(OperandLayout::DWord) => if i + 5 <= n {
                (Ok(dword_opcode(b, le_u32(d[i + 1], d[i + 2], d[i + 3], d[i + 4]))), i + 5)
            } else {
                (Err(DecodeError::InsufficientData), i + 1)
            },
            Some(OperandLayout::ByteWord) => if i + 4 <= n {
                (Ok(byteword_opcode(b, d[i + 1], le_u16(d[i + 2], d[i + 3]))), i + 4)
            } else if i + 2 <= n {
                (Err(DecodeError::InsufficientData), i + 2)
            } else {
                (Err(DecodeError::InsufficientData), i + 1)
            },
            Some(OperandLayout::BuiltinType) => if i + 2 <= n {
                match builtin_type_id_of(d[i + 1]) {
                    Some(id) => (Ok(Opcode::PushBuiltinTy(id)), i + 2),
                    None => (Err(DecodeError::UnknownOperand(b, d[i + 1])), i + 2),
                }
            } else {
                (Err(DecodeError::InsufficientData), i + 1)
            },
            Some(OperandLayout::RuntimeValue) => if i + 2 <= n {
                match builtin_value_id_of(d[i + 1]) {
                    Some(id) => (Ok(Opcode::PushRuntimeValue(id)), i + 2),
                    None => (Err(DecodeError::UnknownOperand(b, d[i + 1])), i + 2),
                }
            } else {
                (Err(DecodeError::InsufficientData), i + 1)
            },
        }
    }
}

proof fn lemma_u16_round_trip(x: u16)
    ensures
        le_u16(u16_bytes(x)[0], u16_bytes(x)[1]) == x,
{
}

proof fn lemma_u16_bytes_of_le(b0: u8, b1: u8)
    ensures
        u16_bytes(le_u16(b0, b1)) =~= seq![b0, b1],
{
    assert(((b0 + 256 * b1) as u16) == b0 + 256 * b1);
}

proof fn lemma_u32_round_trip(x: u32)
    ensures
        le_u32(u32_bytes(x)[0], u32_bytes(x)[1], u32_bytes(x)[2], u32_bytes(x)[3]) == x,
{
    let b0 = x % 256;
    let q0 = x / 256;
    let b1 = q0 % 256;
    let b2 = (x / 65536) % 256;
    let b3 = x / 16777216;
    assert(x / 65536 == q0 / 256) by (nonlinear_arith)
        requires q0 == x / 256;
    assert(x / 16777216 == (x / 65536) / 256) by (nonlinear_arith);
    assert(x == b0 + 256 * q0);
    assert(q0 == b1 + 256 * (q0 / 256));
    assert(x / 65536 == b2 + 256 * b3);
    assert(x == b0 + 256 * b1 + 65536 * b2 + 16777216 * b3) by (nonlinear_arith)
        requires
            x == b0 + 256 * q0,
            q0 == b1 + 256 * (q0 / 256),
            q0 / 256 == b2 + 256 * b3;
}

proof fn lemma_u32_bytes_of_le(b0: u8, b1: u8, b2: u8, b3: u8)
    ensures
        u32_bytes(le_u32(b0, b1, b2, b3)) =~= seq![b0, b1, b2, b3],
{
    let v: int = b0 + 256 * b1 + 65536 * b2 + 16777216 * b3;
    assert(v < 0x1_0000_0000);
    assert(le_u32(b0, b1, b2, b3) == v);
    assert(v % 256 == b0 && v / 256 == b1 + 256 * b2 + 65536 * b3) by (nonlinear_arith)
        requires v == b0 + 256 * b1 + 65536 * b2 + 16777216 * b3, 0 <= b0 < 256;
    assert((v / 256) % 256 == b1) by (nonlinear_arith)
        requires v / 256 == b1 + 256 * b2 + 65536 * b3, 0 <= b1 < 256;
    assert(v / 65536 == b2 + 256 * b3) by (nonlinear_arith)
        requires v == b0 + 256 * b1 + 65536 * b2 + 16777216 * b3, 0 <= b0 < 256, 0 <= b1 < 256;
    assert((v / 65536) % 256 == b2) by (nonlinear_arith)
        requires v / 65536 == b2 + 256 * b3, 0 <= b2 < 256;
    assert(v / 16777216 == b3) by (nonlinear_arith)
        requires v == b0 + 256 * b1 + 65536 * b2 + 16777216 * b3, 0 <= b0 < 256, 0 <= b1 < 256, 0 <= b2 < 256;
}

/// Decoding the encoding of an instruction, whatever bytes follow it, gives
/// that instruction back and stops right after its encoding.
pub proof fn lemma_decode_encoded(op: Opcode, rest: Seq<u8>)
    ensures
        decode_at(opcode_bytes(op) + rest, 0) == (Ok::<Opcode, DecodeError>(op), opcode_bytes(op).len() as int),
{
    let e = opcode_bytes(op);
    let d = e + rest;
    assert(d[0] == e[0]);
    match op {
        Opcode::Nop => {},
        Opcode::Push(x) => {
            lemma_u16_round_trip(x);
            assert(d[1] == u16_bytes(x)[0] && d[2] == u16_bytes(x)[1]);
        },
        Opcode::Push0 => {},
        Opcode::Push1 => {},
        Opcode::PushTrue => {},
        Opcode::PushFalse => {},
        Opcode::PushBuiltinTy(id) => {
            assert(d[1] == builtin_type_id_byte(id));
        },
        Opcode::PushRuntimeValue(id) => {
            assert(d[1] == builtin_value_id_byte(id));
        },
        Opcode::Pop => {},
        Opcode::Dup => {},
        Opcode::Swap => {},
        Opcode::Copy(x) => {
            assert(d[1] == x);
        },
        Opcode::Add => {},
        Opcode::Sub => {},
        Opcode::Mul => {},
        Opcode::Div => {},
        Opcode::Rem => {},
        Opcode::Equal => {},
        Opcode::GreaterThan => {},
        Opcode::LessThan => {},
        Opcode::GreaterThanEqual => {},
        Opcode::LessThanEqual => {},
        Opcode::Neg => {},
        Opcode::ShiftLeft => {},
        Opcode::ShiftRight => {},
        Opcode::Not => {},
        Opcode::ReadLocal(x) => {
            assert(d[1] == x);
        },
        Opcode::WriteLocal(x) => {
            assert(d[1] == x);
        },
        Opcode::TypedefLocal(x) => {
            assert(d[1] == x);
        },
        Opcode::ReadNamed(x) => {
            lemma_u16_round_trip(x);
            assert(d[1] == u16_bytes(x)[0] && d[2] == u16_bytes(x)[1]);
        },
        Opcode::WriteNamed(x) => {
            lemma_u16_round_trip(x);
            assert(d[1] == u16_bytes(x)[0] && d[2] == u16_bytes(x)[1]);
        },
        Opcode::TypedefNamed(x) => {
            lemma_u16_round_trip(x);
            assert(d[1] == u16_bytes(x)[0] && d[2] == u16_bytes(x)[1]);
        },
        Opcode::ReadIndex(x) => {
            assert(d[1] == x);
        },
        Opcode::WriteIndex(x) => {
            assert(d[1] == x);
        },
        Opcode::ReadAttribute(x) => {
            lemma_u16_round_trip(x);
            assert(d[1] == u16_bytes(x)[0] && d[2] == u16_bytes(x)[1]);
        },
        Opcode::WriteAttribute(x) => {
            lemma_u16_round_trip(x);
            assert(d[1] == u16_bytes(x)[0] && d[2] == u16_bytes(x)[1]);
        },
        Opcode::ReadAttributeSymbol(x) => {
            lemma_u32_round_trip(x);
            assert(d[1] == u32_bytes(x)[0] && d[2] == u32_bytes(x)[1] && d[3] == u32_bytes(x)[2] && d[4] == u32_bytes(x)[3]);
        },
        Opcode::WriteAttributeSymbol(x) => {
            lemma_u32_round_trip(x);
            assert(d[1] == u32_bytes(x)[0] && d[2] == u32_bytes(x)[1] && d[3] == u32_bytes(x)[2] && d[4] == u32_bytes(x)[3]);
        },
        Opcode::ReadUplevel(x) => {
            assert(d[1] == x);
        },
        Opcode::LogicalAnd => {},
        Opcode::LogicalOr => {},
        Opcode::Xor => {},
        Opcode::BitwiseAnd => {},
        Opcode::BitwiseOr => {},
        Opcode::JumpTrue(x) => {
            lemma_u16_round_trip(x);
            assert(d[1] == u16_bytes(x)[0] && d[2] == u16_bytes(x)[1]);
        },
        Opcode::JumpFalse(x) => {
            lemma_u16_round_trip(x);
            assert(d[1] == u16_bytes(x)[0] && d[2] == u16_bytes(x)[1]);
        },
        Opcode::Jump(x) => {
            lemma_u16_round_trip(x);
            assert(d[1] == u16_bytes(x)[0] && d[2] == u16_bytes(x)[1]);
        },
        Opcode::JumpIfArgSupplied(x, y) => {
            lemma_u16_round_trip(y);
            assert(d[1] == x && d[2] == u16_bytes(y)[0] && d[3] == u16_bytes(y)[1]);
        },
        Opcode::Call(x) => {
            assert(d[1] == x);
        },
        Opcode::Return => {},
        Opcode::ReturnUnit => {},
        Opcode::TryEnter(x) => {
            lemma_u16_round_trip(x);
            assert(d[1] == u16_bytes(x)[0] && d[2] == u16_bytes(x)[1]);
        },
        Opcode::TryExit => {},
        Opcode::Throw => {},
        Opcode::BuildList(x) => {
            lemma_u32_round_trip(x);
            assert(d[1] == u32_bytes(x)[0] && d[2] == u32_bytes(x)[1] && d[3] == u32_bytes(x)[2] && d[4] == u32_bytes(x)[3]);
        },
        Opcode::BuildFunction(x) => {
            assert(d[1] == x);
        },
        Opcode::StoreUplevel(x) => {
            assert(d[1] == x);
        },
        Opcode::BuildStruct => {},
        Opcode::BuildEnum => {},
        Opcode::BuildMixin => {},
        Opcode::BindMethod(x, y) => {
            lemma_u16_round_trip(y);
            assert(d[1] == x && d[2] == u16_bytes(y)[0] && d[3] == u16_bytes(y)[1]);
        },
        Opcode::BindCase(x, y) => {
            lemma_u16_round_trip(y);
            assert(d[1] == x && d[2] == u16_bytes(y)[0] && d[3] == u16_bytes(y)[1]);
        },
        Opcode::IncludeMixin => {},
        Opcode::NewEnumVal(x, y) => {
            lemma_u16_round_trip(y);
            assert(d[1] == x && d[2] == u16_bytes(y)[0] && d[3] == u16_bytes(y)[1]);
        },
        Opcode::EnumCheckIsCase(x) => {
            lemma_u16_round_trip(x);
            assert(d[1] == u16_bytes(x)[0] && d[2] == u16_bytes(x)[1]);
        },
        Opcode::EnumTryExtractPayload => {},
        Opcode::TryUnwrapProtocol(x) => {
            assert(d[1] == x);
        },
        Opcode::Isa => {},
        Opcode::Import(x) => {
            lemma_u16_round_trip(x);
            assert(d[1] == u16_bytes(x)[0] && d[2] == u16_bytes(x)[1]);
        },
        Opcode::LiftModule => {},
        Opcode::LoadDylib(x) => {
            lemma_u16_round_trip(x);
            assert(d[1] == u16_bytes(x)[0] && d[2] == u16_bytes(x)[1]);
        },
        Opcode::Assert(x) => {
            lemma_u16_round_trip(x);
            assert(d[1] == u16_bytes(x)[0] && d[2] == u16_bytes(x)[1]);
        },
        Opcode::Halt => {},
    }
}

/// What decodes successfully is exactly the encoding of the decoded instruction.
pub proof fn lemma_decoded_is_encoding(d: Seq<u8>, i: int)
    requires
        decode_at(d, i).0 is Ok,
    ensures
        d.subrange(i, decode_at(d, i).1) =~= opcode_bytes(decode_at(d, i).0->Ok_0),
{
    let b = d[i];
    match opcode_layout(b) {
        Some(OperandLayout::Word) => {
            lemma_u16_bytes_of_le(d[i + 1], d[i + 2]);
        },
        Some(OperandLayout::ByteWord) => {
            lemma_u16_bytes_of_le(d[i + 2], d[i + 3]);
        },
        Some(OperandLayout::DWord) => {
            lemma_u32_bytes_of_le(d[i + 1], d[i + 2], d[i + 3], d[i + 4]);
        },
        _ => {},
    }
}

/// A cursor over a bytecode body.
pub struct BytecodeReader {
    data: Vec<u8>,
    idx: usize,
}

impl BytecodeReader {
    /// The bytes being read.
    pub closed spec fn bytes(&self) -> Seq<u8> {
        self.data@
    }

    /// The position of the next byte to read.
    pub closed spec fn pos(&self) -> int {
        self.idx as int
    }

    /// A reader's position is never negative.
    pub proof fn lemma_pos_nonnegative(&self)
        ensures
            0 <= self.pos(),
    {
    }

    /// Creates a reader positioned at the start of `value`; bodies longer than
    /// `MAX_BYTECODE_LEN` bytes are refused.
    pub fn try_from(value: &[u8]) -> (r: Result<BytecodeReader, DecodeError>)
        ensures
            value@.len() > MAX_BYTECODE_LEN <==> r == Err::<BytecodeReader, DecodeError>(DecodeError::DataTooLarge),
            value@.len() <= MAX_BYTECODE_LEN ==> r is Ok,
            r matches Ok(rd) ==> rd.bytes() == value@ && rd.pos() == 0,
    {
        if value.len() > MAX_BYTECODE_LEN {
            Err(DecodeError::DataTooLarge)
        } else {
            let mut data: Vec<u8> = Vec::with_capacity(value.len());
            let mut i: usize = 0;
            while i < value.len()
                invariant
                    i <= value@.len(),
                    data@ == value@.subrange(0, i as int),
                decreases value@.len() - i,
            {
                data.push(value[i]);
                i += 1;
            }
            proof {
                assert(value@.subrange(0, value@.len() as int) =~= value@);
            }
            Ok(BytecodeReader { data, idx: 0 })
        }
    }

    fn read_u8(&mut self) -> (r: Result<u8, DecodeError>)
        ensures
            final(self).bytes() == old(self).bytes(),
            old(self).pos() < old(self).bytes().len() ==> r == Ok::<u8, DecodeError>(old(self).bytes()[old(self).pos()])
                && final(self).pos() == old(self).pos() + 1,
            old(self).pos() >= old(self).bytes().len() ==> r == Err::<u8, DecodeError>(DecodeError::EndOfStream)
                && final(self).pos() == old(self).pos(),
    {
        if self.idx < self.data.len() {
            let val = self.data[self.idx];
            self.idx += 1;
            Ok(val)
        } else {
            Err(DecodeError::EndOfStream)
        }
    }

    fn read_u16(&mut self) -> (r: Result<u16, DecodeError>)
        ensures
            final(self).bytes() == old(self).bytes(),
            old(self).pos() + 2 <= old(self).bytes().len() ==> r == Ok::<u16, DecodeError>(
                le_u16(old(self).bytes()[old(self).pos()], old(self).bytes()[old(self).pos() + 1]),
            ) && final(self).pos() == old(self).pos() + 2,
            old(self).pos() + 2 > old(self).bytes().len() ==> r == Err::<u16, DecodeError>(DecodeError::EndOfStream)
                && final(self).pos() == old(self).pos(),
    {
        if self.idx < self.data.len() && self.data.len() - self.idx >= 2 {
            let b0 = self.data[self.idx];
            let b1 = self.data[self.idx + 1];
            let val: u16 = b0 as u16 + (b1 as u16) * 256;
            self.idx += 2;
            Ok(val)
        } else {
            Err(DecodeError::EndOfStream)
        }
    }

    fn read_u32(&mut self) -> (r: Result<u32, DecodeError>)
        ensures
            final(self).bytes() == old(self).bytes(),
            old(self).pos() + 4 <= old(self).bytes().len() ==> r == Ok::<u32, DecodeError>(
                le_u32(
                    old(self).bytes()[old(self).pos()],
                    old(self).bytes()[old(self).pos() + 1],
                    old(self).bytes()[old(self).pos() + 2],
                    old(self).bytes()[old(self).pos() + 3],
                ),
            ) && final(self).pos() == old(self).pos() + 4,
            old(self).pos() + 4 > old(self).bytes().len() ==> r == Err::<u32, DecodeError>(DecodeError::EndOfStream)
                && final(self).pos() == old(self).pos(),
    {
        if self.idx < self.data.len() && self.data.len() - self.idx >= 4 {
            let b0 = self.data[self.idx];
            let b1 = self.data[self.idx + 1];
            let b2 = self.data[self.idx + 2];
            let b3 = self.data[self.idx + 3];
            let val: u32 = b0 as u32 + (b1 as u32) * 256 + (b2 as u32) * 65536 + (b3 as u32) * 16777216;
            self.idx += 4;
            Ok(val)
        } else {
            Err(DecodeError::EndOfStream)
        }
    }

    /// Moves the reader to position `idx`.
    pub fn jump_to_index(&mut self, idx: usize)
        ensures
            final(self).bytes() == old(self).bytes(),
            final(self).pos() == idx,
    {
        self.idx = idx;
    }

    /// The position of the next byte to read.
    pub fn get_index(&self) -> (r: usize)
        ensures
            r == self.pos(),
    {
        self.idx
    }

    /// Decodes the instruction at the current position and moves past it.
    pub fn read_opcode(&mut self) -> (r: Result<Opcode, DecodeError>)
        ensures
            final(self).bytes() == old(self).bytes(),
            r == decode_at(old(self).bytes(), old(self).pos()).0,
            final(self).pos() == decode_at(old(self).bytes(), old(self).pos()).1,
    {
        let next = self.read_u8()?;
        match layout_of(next) {
            None => Err(DecodeError::UnknownOpcode(next)),
            Some(OperandLayout::Bare) => Ok(make_bare_opcode(next)),
            Some(OperandLayout::Byte) => match self.read_u8() {
                Ok(x) => Ok(make_byte_opcode(next, x)),
                Err(_) => Err(DecodeError::InsufficientData),
            },
            Some(OperandLayout::Word) => match self.read_u16() {
                Ok(x) => Ok(make_word_opcode(next, x)),
                Err(_) => Err(DecodeError::InsufficientData),
            },
            Some(OperandLayout::DWord) => match self.read_u32() {
                Ok(x) => Ok(make_dword_opcode(next, x)),
                Err(_) => Err(DecodeError::InsufficientData),
            },
            Some(OperandLayout::ByteWord) => {
                let arg0 = match self.read_u8() {
                    Ok(b) => b,
                    Err(_) => {
                        return Err(DecodeError::InsufficientData);
                    },
                };
                let arg1 = match self.read_u16() {
                    Ok(w) => w,
                    Err(_) => {
                        return Err(DecodeError::InsufficientData);
                    },
                };
                Ok(make_byteword_opcode(next, arg0, arg1))
            },
            Some(OperandLayout::BuiltinType) => {
                let arg0 = match self.read_u8() {
                    Ok(b) => b,
                    Err(_) => {
                        return Err(DecodeError::InsufficientData);
                    },
                };
                match BuiltinTypeId::try_from_u8(arg0) {
                    Some(id) => Ok(Opcode::PushBuiltinTy(id)),
                    None => Err(DecodeError::UnknownOperand(next, arg0)),
                }
            },
            Some(OperandLayout::RuntimeValue) => {
                let arg0 = match self.read_u8() {
                    Ok(b) => b,
                    Err(_) => {
                        return Err(DecodeError::InsufficientData);
                    },
                };
                match BuiltinValueId::try_from_u8(arg0) {
                    Some(id) => Ok(Opcode::PushRuntimeValue(id)),
                    None => Err(DecodeError::UnknownOperand(next, arg0)),
                }
            },
        }
    }

    /// The number of bytes in the body.
    pub fn len(&self) -> (r: usize)
        ensures
            r == self.bytes().len(),
    {
        self.data.len()
    }

    /// Whether the body holds no bytes.
    pub fn is_empty(&self) -> (r: bool)
        ensures
            r == (self.bytes().len() == 0),
    {
        self.data.len() == 0
    }
}

/// The instructions of the stream `d` from position `i` on: decoding stops
/// without error at the end of the stream, and fails with the first error
/// other than reaching the end.
pub open spec fn decode_stream(d: Seq<u8>, i: int) -> Result<Seq<Opcode>, DecodeError>
    decreases d.len() - i,
{
    if i < 0 || i >= d.len() {
        Ok(Seq::empty())
    } else {
        match decode_at(d, i) {
            (Ok(op), j) => {
                if j > i {
                    match decode_stream(d, j) {
                        Ok(rest) => Ok(seq![op] + rest),
                        Err(e) => Err(e),
                    }
                } else {
                    Ok(Seq::empty())
                }
            },
            (Err(DecodeError::EndOfStream), _) => Ok(Seq::empty()),
            (Err(e), _) => Err(e),
        }
    }
}

/// `prefix` followed by the outcome `r`.
pub open spec fn prepend_ops(prefix: Seq<Opcode>, r: Result<Seq<Opcode>, DecodeError>) -> Result<Seq<Opcode>, DecodeError> {
    match r {
        Ok(rest) => Ok(prefix + rest),
        Err(e) => Err(e),
    }
}

proof fn lemma_decode_advances(d: Seq<u8>, i: int)
    requires
        0 <= i < d.len(),
        decode_at(d, i).0 is Ok,
    ensures
        i < decode_at(d, i).1 <= d.len(),
{
}

/// The position that `k` successive reads from position `i` of `d` reach.
pub open spec fn pos_after_reads(d: Seq<u8>, i: int, k: nat) -> int
    decreases k,
{
    if k == 0 {
        i
    } else {
        decode_at(d, pos_after_reads(d, i, (k - 1) as nat)).1
    }
}

/// Whether successive reads from position `i` of `d` give the instructions `ops`.
pub open spec fn reads_give(d: Seq<u8>, i: int, ops: Seq<Opcode>) -> bool {
    forall|j: int| 0 <= j < ops.len() ==> #[trigger] decode_at(d, pos_after_reads(d, i, j as nat)).0 == Ok::<Opcode, DecodeError>(ops[j])
}

/// The number of bytes that the encodings of `ops` take.
pub open spec fn encoded_len(ops: Seq<Opcode>) -> int
    decreases ops.len(),
{
    if ops.len() == 0 {
        0
    } else {
        encoded_len(ops.drop_last()) + opcode_bytes(ops.last()).len()
    }
}

/// After reads that each gave an instruction, the reader stands past exactly
/// the encodings of those instructions, and still within the body.
pub proof fn lemma_reads_advance(d: Seq<u8>, i: int, ops: Seq<Opcode>)
    requires
        0 <= i <= d.len(),
        reads_give(d, i, ops),
    ensures
        pos_after_reads(d, i, ops.len()) == i + encoded_len(ops),
        pos_after_reads(d, i, ops.len()) <= d.len(),
    decreases ops.len(),
{
    if ops.len() > 0 {
        let k = (ops.len() - 1) as nat;
        let front = ops.drop_last();
        assert forall|j: int| 0 <= j < front.len() implies #[trigger] decode_at(d, pos_after_reads(d, i, j as nat)).0
            == Ok::<Opcode, DecodeError>(front[j]) by {
            assert(decode_at(d, pos_after_reads(d, i, j as nat)).0 == Ok::<Opcode, DecodeError>(ops[j]));
        }
        lemma_reads_advance(d, i, front);
        let p = pos_after_reads(d, i, k);
        assert(decode_at(d, pos_after_reads(d, i, k as int as nat)).0 == Ok::<Opcode, DecodeError>(ops[k as int]));
        assert(p < d.len());
        lemma_decode_advances(d, p);
        lemma_decoded_is_encoding(d, p);
        assert(d.subrange(p, decode_at(d, p).1).len() == opcode_bytes(ops.last()).len());
    }
}

/// Decodes a whole bytecode body into its instructions.
pub fn byte_array_to_opcode_array(bytes: &[u8]) -> (r: Result<Vec<Opcode>, DecodeError>)
    ensures
        bytes@.len() > MAX_BYTECODE_LEN ==> r == Err::<Vec<Opcode>, DecodeError>(DecodeError::DataTooLarge),
        bytes@.len() <= MAX_BYTECODE_LEN ==> match r {
            Ok(ops) => decode_stream(bytes@, 0) == Ok::<Seq<Opcode>, DecodeError>(ops@),
            Err(e) => decode_stream(bytes@, 0) == Err::<Seq<Opcode>, DecodeError>(e),
        },
{
    let mut opcodes: Vec<Opcode> = Vec::new();
    let mut decoder = BytecodeReader::try_from(bytes)?;
    loop
        invariant
            decoder.bytes() == bytes@,
            0 <= decoder.pos() <= bytes@.len(),
            bytes@.len() <= MAX_BYTECODE_LEN,
            decode_stream(bytes@, 0) == prepend_ops(opcodes@, decode_stream(bytes@, decoder.pos())),
        decreases bytes@.len() - decoder.pos(),
    {
        let ghost i = decoder.pos();
        let next = decoder.read_opcode();
        match next {
            Ok(op) => {
                proof {
                    lemma_decode_advances(bytes@, i);
                    assert(seq![op] + decode_stream(bytes@, decoder.pos())->Ok_0 == seq![op]
                        + decode_stream(bytes@, decoder.pos())->Ok_0);
                    assert((opcodes@.push(op)) =~= opcodes@ + seq![op]);
                    match decode_stream(bytes@, decoder.pos()) {
                        Ok(rest) => {
                            assert(opcodes@ + (seq![op] + rest) =~= opcodes@.push(op) + rest);
                        },
                        Err(_) => {},
                    }
                }
                opcodes.push(op);
            },
            Err(err) => {
                return match err {
                    DecodeError::EndOfStream => {
                        proof {
                            assert(opcodes@ + Seq::<Opcode>::empty() =~= opcodes@);
                        }
                        Ok(opcodes)
                    },
                    _ => Err(err),
                };
            },
        }
    }
}

} // verus!
