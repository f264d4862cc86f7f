//! Code generation into basic blocks: the block writer that the compiler
//! writes instructions through, and the code of a `left ?? right` expression.
use crate::compiled::{ConstantValue, ConstantValues};
use crate::exception::SourcePointer;
use crate::opcodes::{BuiltinTypeId, Opcode, TRY_UNWRAP_PROTOCOL_FLAG_TO_CALLER};
use crate::text::push_text;
use vstd::prelude::*;

verus! {

/// An instruction as the compiler writes it: a plain instruction, or a jump
/// that names the blocks it goes to by their position.
#[derive(Clone, Copy, Debug, PartialEq, Eq, Structural)]
pub enum CompilerOp {
    Plain(Opcode),
    Jump(usize),
    JumpConditionally(usize, usize),
}

/// An instruction with the source location it was compiled from.
#[derive(Clone, Copy, Debug, PartialEq, Eq, Structural)]
pub struct LocatedOp {
    pub op: CompilerOp,
    pub loc: SourcePointer,
}

/// A named block of instructions.
pub struct BasicBlock {
    pub name: String,
    pub ops: Vec<LocatedOp>,
}

/// The blocks of a body being compiled, and the one being written to.
pub struct BlockWriter {
    blocks: Vec<BasicBlock>,
    current: usize,
}

/// Why compiling failed.
#[derive(Clone, Copy, Debug, PartialEq, Eq, Structural)]
pub enum CompilationErrorReason {
    /// The module cannot hold another constant.
    TooManyConstants,
}

/// A failure to compile: where in the source, and why.
#[derive(Clone, Copy, Debug, PartialEq, Eq, Structural)]
pub struct CompilationError {
    pub loc: SourcePointer,
    pub reason: CompilationErrorReason,
}

/// The largest number of constants a module holds: each is named by a `u16`.
pub const MAX_CONSTANTS: usize = 65536;

/// Whether `c` is the string constant `s`.
pub open spec fn is_string_const(c: ConstantValue, s: Seq<char>) -> bool {
    c matches ConstantValue::String(t) && t@ == s
}

/// Whether `values` hold the string constant `s`.
pub open spec fn has_string_const(values: Seq<ConstantValue>, s: Seq<char>) -> bool {
    exists|i: int| 0 <= i < values.len() && is_string_const(#[trigger] values[i], s)
}

impl ConstantValues {
    /// The index of string constant `s`: the one already there, else a new
    /// one at the end, unless the module is full.
    pub fn insert_string(&mut self, s: &str) -> (r: Result<u16, CompilationErrorReason>)
        requires
            old(self).values@.len() <= MAX_CONSTANTS,
        ensures
            final(self).values@.len() <= MAX_CONSTANTS,
            r is Ok <==> (has_string_const(old(self).values@, s@) || old(self).values@.len() < MAX_CONSTANTS),
            r matches Ok(i) ==> {
                &&& is_string_const(final(self).values@[i as int], s@)
                &&& i < final(self).values@.len()
                &&& has_string_const(old(self).values@, s@) ==> final(self).values@ == old(self).values@
                &&& !has_string_const(old(self).values@, s@) ==> final(self).values@ == old(self).values@.push(
                    ConstantValue::String(final(self).values@[i as int]->String_0),
                ) && i == old(self).values@.len()
            },
            r is Err ==> final(self).values@ == old(self).values@ && r == Err::<u16, CompilationErrorReason>(
                CompilationErrorReason::TooManyConstants,
            ),
    {
        let wanted = s.to_owned();
        let mut i: usize = 0;
        let n = self.values.len();
        while i < n
            invariant
                i <= n,
                wanted@ == s@,
                n == self.values@.len(),
                n <= MAX_CONSTANTS,
                self.values@ == old(self).values@,
                forall|j: int| 0 <= j < i ==> !is_string_const(#[trigger] self.values@[j], s@),
            decreases n - i,
        {
            let hit = match &self.values[i] {
                ConstantValue::String(t) => *t == wanted,
                _ => false,
            };
            if hit {
                proof {
                    assert(is_string_const(self.values@[i as int], s@));
                }
                return Ok(i as u16);
            }
            i += 1;
        }
        if n < MAX_CONSTANTS {
            let ghost before = self.values@;
            self.values.push(ConstantValue::String(s.to_owned()));
            Ok(n as u16)
        } else {
            Err(CompilationErrorReason::TooManyConstants)
        }
    }
}

impl BlockWriter {
    /// The names of the blocks, in order.
    pub closed spec fn names(&self) -> Seq<Seq<char>> {
        self.blocks@.map_values(|b: BasicBlock| b.name@)
    }

    /// The instructions of each block, in order.
    pub closed spec fn code(&self) -> Seq<Seq<LocatedOp>> {
        self.blocks@.map_values(|b: BasicBlock| b.ops@)
    }

    /// The position of the block being written to.
    pub closed spec fn current_spec(&self) -> nat {
        self.current as nat
    }

    /// Whether the writer's current block is one of its blocks.
    pub open spec fn wf(&self) -> bool {
        self.current_spec() < self.code().len()
    }

    /// A writer with one empty block named `entry`, written to.
    pub fn new(entry: &str) -> (r: BlockWriter)
        ensures
            r.names() == seq![entry@],
            r.code() == seq![Seq::<LocatedOp>::empty()],
            r.current_spec() == 0,
    {
        let mut blocks: Vec<BasicBlock> = Vec::new();
        blocks.push(BasicBlock { name: entry.to_owned(), ops: Vec::new() });
        let r = BlockWriter { blocks, current: 0 };
        proof {
            assert(r.names() =~= seq![entry@]);
            assert(r.code() =~= seq![Seq::<LocatedOp>::empty()]);
        }
        r
    }

    /// The position of the block being written to.
    pub fn current_block(&self) -> (r: usize)
        ensures
            r == self.current_spec(),
    {
        self.current
    }

    /// Appends `op` to the block being written to.
    pub fn write_op(&mut self, op: LocatedOp)
        requires
            old(self).wf(),
        ensures
            final(self).wf(),
            final(self).names() == old(self).names(),
            final(self).current_spec() == old(self).current_spec(),
            final(self).code() == old(self).code().update(
                old(self).current_spec() as int,
                old(self).code()[old(self).current_spec() as int].push(op),
            ),
    {
        let c = self.current;
        let mut b = self.blocks.remove(c);
        b.ops.push(op);
        self.blocks.insert(c, b);
        proof {
            assert(self.blocks@ =~= old(self).blocks@.update(c as int, b));
            assert(self.names() =~= old(self).names());
            assert(self.code() =~= old(self).code().update(c as int, old(self).code()[c as int].push(op)));
        }
    }

    /// Appends the instructions `ops`, in order, to the block being written to.
    pub fn write_ops(&mut self, ops: &[LocatedOp])
        requires
            old(self).wf(),
        ensures
            final(self).wf(),
            final(self).names() == old(self).names(),
            final(self).current_spec() == old(self).current_spec(),
            final(self).code() == old(self).code().update(
                old(self).current_spec() as int,
                old(self).code()[old(self).current_spec() as int] + ops@,
            ),
    {
        let ghost c = self.current_spec() as int;
        let mut i: usize = 0;
        while i < ops.len()
            invariant
                i <= ops@.len(),
                self.wf(),
                self.names() == old(self).names(),
                self.current_spec() == c,
                c == old(self).current_spec(),
                self.code() == old(self).code().update(c, old(self).code()[c] + ops@.subrange(0, i as int)),
                self.code().len() == old(self).code().len(),
                0 <= c < self.code().len(),
            decreases ops@.len() - i,
        {
            self.write_op(ops[i]);
            proof {
                assert(old(self).code()[c] + ops@.subrange(0, i + 1) =~= (old(self).code()[c] + ops@.subrange(0, i as int)).push(ops@[i as int]));
                assert(self.code() =~= old(self).code().update(c, old(self).code()[c] + ops@.subrange(0, i + 1)));
            }
            i += 1;
        }
        proof {
            assert(ops@.subrange(0, ops@.len() as int) =~= ops@);
        }
    }

    /// Adds an empty block named `name` after all others and gives its
    /// position; the block being written to stays the same.
    pub fn append_block_at_end(&mut self, name: String) -> (r: usize)
        requires
            old(self).wf(),
        ensures
            final(self).wf(),
            r == old(self).code().len(),
            final(self).names() == old(self).names().push(name@),
            final(self).code() == old(self).code().push(Seq::<LocatedOp>::empty()),
            final(self).current_spec() == old(self).current_spec(),
    {
        let r = self.blocks.len();
        let ghost nm = name@;
        self.blocks.push(BasicBlock { name, ops: Vec::new() });
        proof {
            assert(self.names() =~= old(self).names().push(nm));
            assert(self.code() =~= old(self).code().push(Seq::<LocatedOp>::empty()));
        }
        r
    }

    /// Makes block `idx` the one being written to.
    pub fn set_current_block(&mut self, idx: usize)
        requires
            idx < old(self).code().len(),
        ensures
            final(self).wf(),
            final(self).current_spec() == idx,
            final(self).names() == old(self).names(),
            final(self).code() == old(self).code(),
    {
        self.current = idx;
    }

    /// The name and instructions of block `idx`.
    pub fn block(&self, idx: usize) -> (r: (&str, &[LocatedOp]))
        requires
            idx < self.code().len(),
        ensures
            r.0@ == self.names()[idx as int],
            r.1@ == self.code()[idx as int],
    {
        (self.blocks[idx].name.as_str(), self.blocks[idx].ops.as_slice())
    }
}

/// The instructions that follow the left operand of `left ?? right`: ask the
/// `Result` type to turn the value into a result (its attribute
/// `try_unwrap_protocol` at constant `idx`, called with one argument), flag
/// to the caller whether it holds a value, and jump on that flag to `end`
/// or to `fallback`.
pub open spec fn try_unwrap_head(idx: u16, end: int, fallback: int) -> Seq<CompilerOp> {
    seq![
        CompilerOp::Plain(Opcode::PushBuiltinTy(BuiltinTypeId::Result)),
        CompilerOp::Plain(Opcode::ReadAttribute(idx)),
        CompilerOp::Plain(Opcode::Call(1)),
        CompilerOp::Plain(Opcode::TryUnwrapProtocol(TRY_UNWRAP_PROTOCOL_FLAG_TO_CALLER)),
        CompilerOp::JumpConditionally(end as usize, fallback as usize),
    ]
}

/// The instructions `ops`, each carrying the source location `loc`.
pub open spec fn located(ops: Seq<CompilerOp>, loc: SourcePointer) -> Seq<LocatedOp> {
    ops.map_values(|op: CompilerOp| LocatedOp { op, loc })
}

/// Compiles `left ?? right` at the source location `loc`, spelled
/// `loc_text`, given what compiling each operand gave. The left operand's
/// code goes to the current block, followed by the head; a new block
/// `try_unwrap_fallback_<loc>` drops the value, computes the right operand
/// and jumps to a new block `try_unwrap_end_<loc>`, where writing goes on.
/// Every instruction written here carries `loc`. The constant
/// `try_unwrap_protocol` is found or added after the left operand; where the
/// module is full, compiling stops there with an error at `loc`. An operand
/// that failed to compile stops compiling at the point where its code would
/// go, with its own error.
pub fn compile_try_unwrap(
    w: &mut BlockWriter,
    consts: &mut ConstantValues,
    loc: SourcePointer,
    loc_text: &str,
    left: Result<&[LocatedOp], CompilationError>,
    right: Result<&[LocatedOp], CompilationError>,
) -> (r: Result<(), CompilationError>)
    requires
        old(w).wf(),
        old(consts).values@.len() <= MAX_CONSTANTS,
    ensures
        final(w).wf(),
        ({
            let c = old(w).current_spec() as int;
            let n = old(w).code().len() as int;
            let fallback_name = "try_unwrap_fallback_"@ + loc_text@;
            let end_name = "try_unwrap_end_"@ + loc_text@;
            match left {
                Err(e) => r == Err::<(), CompilationError>(e) && final(w).code() == old(w).code() && final(w).names()
                    == old(w).names() && final(w).current_spec() == old(w).current_spec() && final(consts).values@
                    == old(consts).values@,
                Ok(lops) => {
                    let with_left = old(w).code().update(c, old(w).code()[c] + lops@);
                    if !(has_string_const(old(consts).values@, "try_unwrap_protocol"@) || old(consts).values@.len()
                        < MAX_CONSTANTS) {
                        &&& r == Err::<(), CompilationError>(
                            CompilationError { loc, reason: CompilationErrorReason::TooManyConstants },
                        )
                        &&& final(w).code() == with_left
                        &&& final(w).names() == old(w).names()
                        &&& final(w).current_spec() == old(w).current_spec()
                        &&& final(consts).values@ == old(consts).values@
                    } else {
                        &&& final(w).names() == old(w).names().push(fallback_name).push(end_name)
                        &&& final(consts).values@.len() <= old(consts).values@.len() + 1
                        &&& final(consts).values@.subrange(0, old(consts).values@.len() as int) == old(consts).values@
                        &&& exists|idx: u16|
                            {
                                let with_head = with_left.update(
                                    c,
                                    with_left[c] + located(try_unwrap_head(idx, n + 1, n), loc),
                                );
                                &&& idx < final(consts).values@.len()
                                &&& #[trigger] is_string_const(final(consts).values@[idx as int], "try_unwrap_protocol"@)
                                &&& match right {
                                    Err(e) => r == Err::<(), CompilationError>(e) && final(w).code() == with_head.push(
                                        located(seq![CompilerOp::Plain(Opcode::Pop)], loc),
                                    ).push(Seq::<LocatedOp>::empty()) && final(w).current_spec() == n,
                                    Ok(rops) => r == Ok::<(), CompilationError>(()) && final(w).code() == with_head.push(
                                        located(seq![CompilerOp::Plain(Opcode::Pop)], loc) + rops@ + located(
                                            seq![CompilerOp::Jump((n + 1) as usize)],
                                            loc,
                                        ),
                                    ).push(Seq::<LocatedOp>::empty()) && final(w).current_spec() == n + 1,
                                }
                            }
                    }
                },
            }
        }),
{
    let lops = match left {
        Ok(ops) => ops,
        Err(e) => {
            return Err(e);
        },
    };
    w.write_ops(lops);
    let ghost with_left = w.code();
    let ghost consts_before = consts.values@;
    let idx = match consts.insert_string("try_unwrap_protocol") {
        Ok(i) => i,
        Err(reason) => {
            return Err(CompilationError { loc, reason });
        },
    };
    proof {
        assert(consts.values@.subrange(0, consts_before.len() as int) =~= consts_before);
    }
    let mut fallback_name = String::new();
    push_text(&mut fallback_name, "try_unwrap_fallback_");
    push_text(&mut fallback_name, loc_text);
    let mut end_name = String::new();
    push_text(&mut end_name, "try_unwrap_end_");
    push_text(&mut end_name, loc_text);
    let ghost c = w.current_spec() as int;
    let ghost n = w.code().len() as int;
    let fallback = w.append_block_at_end(fallback_name);
    let end = w.append_block_at_end(end_name);
    let mut head: Vec<LocatedOp> = Vec::new();
    head.push(LocatedOp { op: CompilerOp::Plain(Opcode::PushBuiltinTy(BuiltinTypeId::Result)), loc });
    head.push(LocatedOp { op: CompilerOp::Plain(Opcode::ReadAttribute(idx)), loc });
    head.push(LocatedOp { op: CompilerOp::Plain(Opcode::Call(1)), loc });
    head.push(LocatedOp { op: CompilerOp::Plain(Opcode::TryUnwrapProtocol(TRY_UNWRAP_PROTOCOL_FLAG_TO_CALLER)), loc });
    head.push(LocatedOp { op: CompilerOp::JumpConditionally(end, fallback), loc });
    proof {
        assert(head@ =~= located(try_unwrap_head(idx, n + 1, n), loc));
    }
    let ghost base = w.code();
    w.write_ops(head.as_slice());
    let ghost with_head = with_left.update(c, with_left[c] + located(try_unwrap_head(idx, n + 1, n), loc));
    proof {
        assert(base =~= with_left.push(Seq::<LocatedOp>::empty()).push(Seq::<LocatedOp>::empty()));
        assert(w.code() =~= with_head.push(Seq::<LocatedOp>::empty()).push(Seq::<LocatedOp>::empty()));
    }
    w.set_current_block(fallback);
    let pop = LocatedOp { op: CompilerOp::Plain(Opcode::Pop), loc };
    w.write_op(pop);
    proof {
        assert(located(seq![CompilerOp::Plain(Opcode::Pop)], loc) =~= seq![pop]);
        assert(w.code() =~= with_head.push(located(seq![CompilerOp::Plain(Opcode::Pop)], loc)).push(
            Seq::<LocatedOp>::empty(),
        ));
    }
    let rops = match right {
        Ok(ops) => ops,
        Err(e) => {
            return Err(e);
        },
    };
    let ghost after_pop = w.code();
    w.write_ops(rops);
    proof {
        assert(w.code() =~= with_head.push(seq![pop] + rops@).push(Seq::<LocatedOp>::empty()));
    }
    let jump = LocatedOp { op: CompilerOp::Jump(end), loc };
    w.write_op(jump);
    proof {
        assert((seq![pop] + rops@).push(jump) =~= seq![pop] + rops@ + seq![jump]);
        assert(w.code() =~= with_head.push(seq![pop] + rops@ + seq![jump]).push(Seq::<LocatedOp>::empty()));
    }
    w.set_current_block(end);
    proof {
        assert(located(seq![CompilerOp::Jump((n + 1) as usize)], loc) =~= seq![jump]);
        assert(w.code() =~= with_head.push(
            located(seq![CompilerOp::Plain(Opcode::Pop)], loc) + rops@ + located(seq![CompilerOp::Jump((n + 1) as usize)], loc),
        ).push(Seq::<LocatedOp>::empty()));
    }
    Ok(())
}

} // verus!
