//! The code generation backend: translates an operation tree into basic
//! blocks of builder operations, preserving the tape semantics of the source
//! language.
//!
//! Translation walks the tree left to right, appending operations to the
//! current block of the function under construction. A `Loop` node compiles
//! to two new blocks: a body block, entered when the guard cell is nonzero
//! and re-entered from its own backedge test, and an after block, reached
//! both from the pre-loop zero test and from the backedge's zero branch.

use vstd::prelude::*;

use crate::ast::Node;
use crate::ast::has_read_seq;
use crate::ir::ArgList;
use crate::ir::ForeignFunc;
use crate::ir::ForeignSig;
use crate::ir::Instr;
use crate::ir::IrFunction;
use crate::ir::IrType;
use crate::ir::TypeList;
use crate::ir::blocks_view;
use crate::ir::spec_type_bytes;

verus! {

/// The kind of an operation node, used to report which node a failure is
/// about.
#[derive(PartialEq, Eq, Structural, Debug, Clone, Copy)]
pub enum NodeKind {
    IncrementPointer,
    DecrementPointer,
    Increment,
    Decrement,
    PrintChar,
    ReadChar,
    Loop,
}

/// A failure of the code generation backend.
#[derive(PartialEq, Eq, Structural, Debug, Clone, Copy)]
pub enum CodegenError {
    /// The tree contains an operation this backend cannot lower.
    Unsupported(NodeKind),
}

/// The state of a translation: the blocks built so far and the index of the
/// block that new operations append to.
#[verifier::ext_equal]
pub struct TrState {
    /// The blocks of the function under construction.
    pub blocks: Seq<Seq<Instr>>,
    /// The index of the current insertion block.
    pub cur: int,
}

/// The number of operations already in the current block: the position the
/// next appended operation will take.
pub open spec fn block_len(st: TrState) -> int {
    st.blocks[st.cur].len() as int
}

/// The state after appending the given operations to the current block.
pub open spec fn append_cur(st: TrState, ops: Seq<Instr>) -> TrState {
    TrState { blocks: st.blocks.update(st.cur, st.blocks[st.cur] + ops), cur: st.cur }
}

/// The operations a pointer move emits, starting at position `l` of the
/// current block: the cell width in bytes as a pointer-typed constant, a read
/// of the pointer variable, the add (forward) or subtract (backward), and the
/// assignment of the result back to the pointer variable.
pub open spec fn move_ops(ptr: IrType, cell: IrType, l: int, forward: bool) -> Seq<Instr> {
    seq![
        Instr::Iconst { ty: ptr, value: spec_type_bytes(cell) },
        Instr::UseVar,
        (if forward {
            Instr::Iadd { lhs: (l + 1) as usize, rhs: l as usize }
        } else {
            Instr::Isub { lhs: (l + 1) as usize, rhs: l as usize }
        }),
        Instr::DefVar { value: (l + 2) as usize },
    ]
}

/// The operations a cell increment or decrement emits, starting at position
/// `l`: read the pointer, load the cell, add or subtract the constant one,
/// store the result back.
pub open spec fn cell_ops(cell: IrType, l: int, up: bool) -> Seq<Instr> {
    seq![
        Instr::UseVar,
        Instr::Load { ty: cell, addr: l as usize },
        Instr::Iconst { ty: cell, value: 1 },
        (if up {
            Instr::Iadd { lhs: (l + 1) as usize, rhs: (l + 2) as usize }
        } else {
            Instr::Isub { lhs: (l + 1) as usize, rhs: (l + 2) as usize }
        }),
        Instr::Store { value: (l + 3) as usize, addr: l as usize },
    ]
}

/// The operations a character print emits, starting at position `l`: read
/// the pointer, load the cell, narrow it to one byte unless the cell is
/// already 8 bits wide, and call the write-character foreign function.
pub open spec fn print_ops(cell: IrType, l: int) -> Seq<Instr> {
    if cell == IrType::I8 {
        seq![
            Instr::UseVar,
            Instr::Load { ty: cell, addr: l as usize },
            Instr::Call { func: ForeignFunc::Putchar, args: ArgList::One((l + 1) as usize) },
        ]
    } else {
        seq![
            Instr::UseVar,
            Instr::Load { ty: cell, addr: l as usize },
            Instr::Narrow { ty: IrType::I8, value: (l + 1) as usize },
            Instr::Call { func: ForeignFunc::Putchar, args: ArgList::One((l + 2) as usize) },
        ]
    }
}

/// The pre-loop guard, starting at position `l`: load the cell under the
/// pointer, branch to the after block `b2` if it is zero, otherwise fall
/// through into the body block `b1`.
pub open spec fn loop_head_ops(cell: IrType, l: int, b1: int, b2: int) -> Seq<Instr> {
    seq![
        Instr::UseVar,
        Instr::Load { ty: cell, addr: l as usize },
        Instr::BranchIfZero { cond: (l + 1) as usize, target: b2 as usize },
        Instr::Fallthrough { target: b1 as usize },
    ]
}

/// The backedge test at the end of a loop body, starting at position `l`:
/// reload the cell under the pointer, branch back to the body block `b1` if
/// it is nonzero, otherwise fall through into the after block `b2`.
pub open spec fn loop_back_ops(cell: IrType, l: int, b1: int, b2: int) -> Seq<Instr> {
    seq![
        Instr::UseVar,
        Instr::Load { ty: cell, addr: l as usize },
        Instr::BranchIfNonzero { cond: (l + 1) as usize, target: b1 as usize },
        Instr::Fallthrough { target: b2 as usize },
    ]
}

/// The translation of one supported node from state `st`: what the node
/// appends to the current block and, for a `Loop`, the two blocks it creates
/// and the insertion point it leaves behind. Trees containing `ReadChar` are
/// rejected before this function's value matters; it leaves the state
/// unchanged on that variant.
pub open spec fn emit_node_spec(cell: IrType, ptr: IrType, st: TrState, n: Node) -> TrState
    decreases n,
{
    match n {
        Node::IncrementPointer => append_cur(st, move_ops(ptr, cell, block_len(st), true)),
        Node::DecrementPointer => append_cur(st, move_ops(ptr, cell, block_len(st), false)),
        Node::Increment => append_cur(st, cell_ops(cell, block_len(st), true)),
        Node::Decrement => append_cur(st, cell_ops(cell, block_len(st), false)),
        Node::PrintChar => append_cur(st, print_ops(cell, block_len(st))),
        Node::ReadChar => st,
        Node::Loop(body) => {
            let b1 = st.blocks.len() as int;
            let b2 = b1 + 1;
            let st1 = TrState {
                blocks: st.blocks + seq![Seq::<Instr>::empty(), Seq::<Instr>::empty()],
                cur: st.cur,
            };
            let st2 = append_cur(st1, loop_head_ops(cell, block_len(st1), b1, b2));
            let st3 = TrState { blocks: st2.blocks, cur: b1 };
            let st4 = emit_seq_spec(cell, ptr, st3, body@);
            let st5 = append_cur(st4, loop_back_ops(cell, block_len(st4), b1, b2));
            TrState { blocks: st5.blocks, cur: b2 }
        }
    }
}

/// The translation of a sequence of nodes, left to right.
pub open spec fn emit_seq_spec(cell: IrType, ptr: IrType, st: TrState, ns: Seq<Node>) -> TrState
    decreases ns,
{
    if ns.len() == 0 {
        st
    } else {
        emit_seq_spec(
            cell,
            ptr,
            emit_node_spec(cell, ptr, st, ns[0]),
            ns.subrange(1, ns.len() as int),
        )
    }
}

/// Translating a sequence extended by one node translates the sequence and
/// then the node.
pub proof fn lemma_emit_seq_spec_snoc(
    cell: IrType,
    ptr: IrType,
    st: TrState,
    ns: Seq<Node>,
    n: Node,
)
    ensures
        emit_seq_spec(cell, ptr, st, ns.push(n)) == emit_node_spec(
            cell,
            ptr,
            emit_seq_spec(cell, ptr, st, ns),
            n,
        ),
    decreases ns.len(),
{
    let full = ns.push(n);
    if ns.len() == 0 {
        reveal_with_fuel(emit_seq_spec, 2);
        assert(full[0] == n);
        assert(full.subrange(1, full.len() as int) =~= Seq::<Node>::empty());
        assert(ns =~= Seq::<Node>::empty());
    } else {
        assert(full[0] == ns[0]);
        assert(full.subrange(1, full.len() as int) =~= ns.subrange(1, ns.len() as int).push(n));
        lemma_emit_seq_spec_snoc(
            cell,
            ptr,
            emit_node_spec(cell, ptr, st, ns[0]),
            ns.subrange(1, ns.len() as int),
            n,
        );
    }
}

/// Translation never removes a block: it only appends operations to existing
/// blocks and creates new ones, and it always leaves the insertion point on
/// an existing block.
pub proof fn lemma_emit_node_spec_blocks_len(cell: IrType, ptr: IrType, st: TrState, n: Node)
    requires
        0 <= st.cur < st.blocks.len(),
    ensures
        emit_node_spec(cell, ptr, st, n).blocks.len() >= st.blocks.len(),
        0 <= emit_node_spec(cell, ptr, st, n).cur < emit_node_spec(cell, ptr, st, n).blocks.len(),
    decreases n,
{
    match n {
        Node::Loop(body) => {
            let b1 = st.blocks.len() as int;
            let b2 = b1 + 1;
            let st1 = TrState {
                blocks: st.blocks + seq![Seq::<Instr>::empty(), Seq::<Instr>::empty()],
                cur: st.cur,
            };
            let st2 = append_cur(st1, loop_head_ops(cell, block_len(st1), b1, b2));
            let st3 = TrState { blocks: st2.blocks, cur: b1 };
            let st4 = emit_seq_spec(cell, ptr, st3, body@);
            let st5 = append_cur(st4, loop_back_ops(cell, block_len(st4), b1, b2));
            assert(emit_node_spec(cell, ptr, st, n) == (TrState { blocks: st5.blocks, cur: b2 }));
            lemma_emit_seq_spec_blocks_len(cell, ptr, st3, body@);
            assert(st4.blocks.len() >= st3.blocks.len());
            assert(st3.blocks.len() == st.blocks.len() + 2);
        }
        _ => {}
    }
}

/// Translating a sequence never removes a block either.
pub proof fn lemma_emit_seq_spec_blocks_len(cell: IrType, ptr: IrType, st: TrState, ns: Seq<Node>)
    requires
        0 <= st.cur < st.blocks.len(),
    ensures
        emit_seq_spec(cell, ptr, st, ns).blocks.len() >= st.blocks.len(),
        0 <= emit_seq_spec(cell, ptr, st, ns).cur < emit_seq_spec(cell, ptr, st, ns).blocks.len(),
    decreases ns,
{
    if ns.len() != 0 {
        lemma_emit_node_spec_blocks_len(cell, ptr, st, ns[0]);
        lemma_emit_seq_spec_blocks_len(
            cell,
            ptr,
            emit_node_spec(cell, ptr, st, ns[0]),
            ns.subrange(1, ns.len() as int),
        );
    }
}

/// The translation context threaded through the recursive walk: the blocks
/// of the function under construction, the current insertion block, and the
/// two types fixed for the whole compilation.
pub struct TranslationContext {
    /// The blocks built so far; new operations append to `blocks[block]`.
    pub blocks: Vec<Vec<Instr>>,
    /// The index of the current insertion block.
    pub block: usize,
    /// The pointer-sized integer type of the target.
    pub pointer_type: IrType,
    /// The type of one tape cell.
    pub cell_type: IrType,
}

impl View for TranslationContext {
    type V = TrState;

    open spec fn view(&self) -> TrState {
        TrState { blocks: blocks_view(self.blocks), cur: self.block as int }
    }
}

impl TranslationContext {
    /// The current insertion block exists.
    pub open spec fn wf(&self) -> bool {
        self.block < self.blocks@.len()
    }

    /// A fresh context with one empty entry block as the insertion point.
    pub fn new(pointer_type: IrType, cell_type: IrType) -> (r: TranslationContext)
        ensures
            r.wf(),
            r@.blocks == seq![Seq::<Instr>::empty()],
            r@.cur == 0,
            r.pointer_type == pointer_type,
            r.cell_type == cell_type,
    {
        let mut blocks: Vec<Vec<Instr>> = Vec::new();
        blocks.push(Vec::new());
        let r = TranslationContext { blocks, block: 0, pointer_type, cell_type };
        proof {
            assert(r@.blocks =~= seq![Seq::<Instr>::empty()]);
        }
        r
    }

    /// Append one operation to the current block and return its position in
    /// that block.
    pub fn push_op(&mut self, op: Instr) -> (pos: usize)
        requires
            old(self).wf(),
        ensures
            final(self).wf(),
            final(self).pointer_type == old(self).pointer_type,
            final(self).cell_type == old(self).cell_type,
            pos == block_len(old(self)@),
            final(self)@ == append_cur(old(self)@, seq![op]),
    {
        let pos = self.blocks[self.block].len();
        self.blocks[self.block].push(op);
        proof {
            assert(self@ =~~= append_cur(old(self)@, seq![op]));
        }
        pos
    }

    /// Create a new, empty block after all existing blocks and return its
    /// index; the insertion point does not change.
    pub fn create_block(&mut self) -> (b: usize)
        requires
            old(self).wf(),
        ensures
            final(self).wf(),
            final(self).pointer_type == old(self).pointer_type,
            final(self).cell_type == old(self).cell_type,
            b == old(self)@.blocks.len(),
            final(self)@.blocks == old(self)@.blocks + seq![Seq::<Instr>::empty()],
            final(self)@.cur == old(self)@.cur,
    {
        let b = self.blocks.len();
        self.blocks.push(Vec::new());
        proof {
            assert(self@.blocks =~~= old(self)@.blocks + seq![Seq::<Instr>::empty()]);
        }
        b
    }

    /// Switch the insertion point to the given block.
    pub fn switch_to_block(&mut self, b: usize)
        requires
            old(self).wf(),
            b < old(self)@.blocks.len(),
        ensures
            final(self).wf(),
            final(self).pointer_type == old(self).pointer_type,
            final(self).cell_type == old(self).cell_type,
            final(self)@.blocks == old(self)@.blocks,
            final(self)@.cur == b,
    {
        self.block = b;
    }
}

impl Node {
    /// Translate this node, appending its operations to the context's
    /// current block. Fails, translating nothing further, when the tree
    /// contains an operation the backend cannot lower; only `ReadChar` is
    /// such an operation.
    #[verifier::rlimit(60)]
    #[verifier::loop_isolation(false)]
    pub fn emit(&self, ctx: &mut TranslationContext) -> (r: Result<(), CodegenError>)
        requires
            old(ctx).wf(),
        ensures
            final(ctx).wf(),
            final(ctx).pointer_type == old(ctx).pointer_type,
            final(ctx).cell_type == old(ctx).cell_type,
            r is Ok <==> !self.has_read(),
            r is Err ==> r == Err::<(), CodegenError>(
                CodegenError::Unsupported(NodeKind::ReadChar),
            ),
            r is Ok ==> final(ctx)@ == emit_node_spec(
                old(ctx).cell_type,
                old(ctx).pointer_type,
                old(ctx)@,
                *self,
            ),
        decreases *self,
    {
        let ghost st0 = ctx@;
        let ghost cell = ctx.cell_type;
        let ghost ptr = ctx.pointer_type;
        match self {
            Node::IncrementPointer => {
                let bytes = ctx.cell_type.bytes();
                let c = ctx.push_op(Instr::Iconst { ty: ctx.pointer_type, value: bytes });
                let a = ctx.push_op(Instr::UseVar);
                let s = ctx.push_op(Instr::Iadd { lhs: a, rhs: c });
                ctx.push_op(Instr::DefVar { value: s });
                proof {
                    assert(ctx@ =~~= emit_node_spec(cell, ptr, st0, *self));
                }
                Ok(())
            }
            Node::DecrementPointer => {
                let bytes = ctx.cell_type.bytes();
                let c = ctx.push_op(Instr::Iconst { ty: ctx.pointer_type, value: bytes });
                let a = ctx.push_op(Instr::UseVar);
                let s = ctx.push_op(Instr::Isub { lhs: a, rhs: c });
                ctx.push_op(Instr::DefVar { value: s });
                proof {
                    assert(ctx@ =~~= emit_node_spec(cell, ptr, st0, *self));
                }
                Ok(())
            }
            Node::Increment => {
                let a = ctx.push_op(Instr::UseVar);
                let d = ctx.push_op(Instr::Load { ty: ctx.cell_type, addr: a });
                let c = ctx.push_op(Instr::Iconst { ty: ctx.cell_type, value: 1 });
                let s = ctx.push_op(Instr::Iadd { lhs: d, rhs: c });
                ctx.push_op(Instr::Store { value: s, addr: a });
                proof {
                    assert(ctx@ =~~= emit_node_spec(cell, ptr, st0, *self));
                }
                Ok(())
            }
            Node::Decrement => {
                let a = ctx.push_op(Instr::UseVar);
                let d = ctx.push_op(Instr::Load { ty: ctx.cell_type, addr: a });
                let c = ctx.push_op(Instr::Iconst { ty: ctx.cell_type, value: 1 });
                let s = ctx.push_op(Instr::Isub { lhs: d, rhs: c });
                ctx.push_op(Instr::Store { value: s, addr: a });
                proof {
                    assert(ctx@ =~~= emit_node_spec(cell, ptr, st0, *self));
                }
                Ok(())
            }
            Node::PrintChar => {
                let a = ctx.push_op(Instr::UseVar);
                let d = ctx.push_op(Instr::Load { ty: ctx.cell_type, addr: a });
                let arg = if !matches!(ctx.cell_type, IrType::I8) {
                    ctx.push_op(Instr::Narrow { ty: IrType::I8, value: d })
                } else {
                    d
                };
                ctx.push_op(Instr::Call { func: ForeignFunc::Putchar, args: ArgList::One(arg) });
                proof {
                    assert(ctx@ =~~= emit_node_spec(cell, ptr, st0, *self));
                }
                Ok(())
            }
            Node::ReadChar => Err(CodegenError::Unsupported(NodeKind::ReadChar)),
            Node::Loop(body) => {
                let ghost st1 = TrState {
                    blocks: st0.blocks + seq![Seq::<Instr>::empty(), Seq::<Instr>::empty()],
                    cur: st0.cur,
                };
                let b1 = ctx.create_block();
                let b2 = ctx.create_block();
                proof {
                    assert(ctx@ =~~= st1);
                }
                let a = ctx.push_op(Instr::UseVar);
                let d = ctx.push_op(Instr::Load { ty: ctx.cell_type, addr: a });
                ctx.push_op(Instr::BranchIfZero { cond: d, target: b2 });
                ctx.push_op(Instr::Fallthrough { target: b1 });
                let ghost st2 = append_cur(
                    st1,
                    loop_head_ops(cell, block_len(st1), b1 as int, b2 as int),
                );
                proof {
                    assert(ctx@ =~~= st2);
                }
                ctx.switch_to_block(b1);
                let ghost st3 = ctx@;
                proof {
                    assert(st3 =~~= (TrState { blocks: st2.blocks, cur: b1 as int }));
                }
                let mut j: usize = 0;
                while j < body.len()
                    invariant
                        ctx.wf(),
                        ctx.cell_type == cell,
                        ctx.pointer_type == ptr,
                        *self == Node::Loop(*body),
                        j <= body.len(),
                        forall|k: int| 0 <= k < j ==> !body@[k].has_read(),
                        ctx@ == emit_seq_spec(cell, ptr, st3, body@.subrange(0, j as int)),
                    decreases body.len() - j,
                {
                    let child = &body[j];
                    proof {
                        assert(self->Loop_0 == *body);
                        assert(decreases_to!(*self => self->Loop_0));
                        assert(decreases_to!(*body => body@));
                        assert(decreases_to!(body@ => body@[j as int]));
                        assert(decreases_to!(*self => body@[j as int]));
                    }
                    match child.emit(ctx) {
                        Ok(()) => {}
                        Err(e) => {
                            proof {
                                crate::ast::lemma_has_read_seq_index(body@);
                                assert(has_read_seq(body@));
                                assert(self.has_read());
                            }
                            return Err(e);
                        }
                    }
                    proof {
                        assert(body@.subrange(0, (j + 1) as int) =~= body@.subrange(
                            0,
                            j as int,
                        ).push(body@[j as int]));
                        lemma_emit_seq_spec_snoc(
                            cell,
                            ptr,
                            st3,
                            body@.subrange(0, j as int),
                            body@[j as int],
                        );
                    }
                    j = j + 1;
                }
                let ghost st4 = ctx@;
                proof {
                    assert(body@.subrange(0, body@.len() as int) =~= body@);
                    assert(st4 == emit_seq_spec(cell, ptr, st3, body@));
                    crate::ast::lemma_has_read_seq_index(body@);
                    assert(!self.has_read());
                    lemma_emit_seq_spec_blocks_len(cell, ptr, st3, body@);
                }
                let a2 = ctx.push_op(Instr::UseVar);
                let d2 = ctx.push_op(Instr::Load { ty: ctx.cell_type, addr: a2 });
                ctx.push_op(Instr::BranchIfNonzero { cond: d2, target: b1 });
                ctx.push_op(Instr::Fallthrough { target: b2 });
                let ghost st5 = append_cur(
                    st4,
                    loop_back_ops(cell, block_len(st4), b1 as int, b2 as int),
                );
                proof {
                    assert(ctx@ =~~= st5);
                }
                ctx.switch_to_block(b2);
                proof {
                    assert(ctx@ =~~= (TrState { blocks: st5.blocks, cur: b2 as int }));
                    assert(emit_node_spec(cell, ptr, st0, *self) == (TrState {
                        blocks: st5.blocks,
                        cur: b2 as int,
                    }));
                }
                Ok(())
            }
        }
    }
}

/// The signatures of the three foreign functions declared before translation
/// begins, in declaration order: the allocator, character output, character
/// input.
pub open spec fn spec_foreign_sigs() -> Seq<ForeignSig> {
    seq![
        ForeignSig {
            func: ForeignFunc::Calloc,
            params: TypeList::Two(IrType::I64, IrType::I64),
            ret: IrType::I64,
        },
        ForeignSig { func: ForeignFunc::Putchar, params: TypeList::One(IrType::I8), ret: IrType::I32 },
        ForeignSig { func: ForeignFunc::Getchar, params: TypeList::Empty, ret: IrType::I32 },
    ]
}

/// The tape allocation emitted into the entry block before any node is
/// translated: the cell count and cell size as 64-bit constants, the call to
/// the allocator, and the binding of its result to the pointer variable.
pub open spec fn prologue_ops(cell: IrType, cell_count: u64) -> Seq<Instr> {
    seq![
        Instr::Iconst { ty: IrType::I64, value: cell_count },
        Instr::Iconst { ty: IrType::I64, value: spec_type_bytes(cell) },
        Instr::Call { func: ForeignFunc::Calloc, args: ArgList::Two(0, 1) },
        Instr::DefVar { value: 2 },
    ]
}

/// The blocks of the function generated for a program: the tape allocation,
/// the translated operation sequence, and a return of the 32-bit constant
/// zero appended to the final insertion block.
pub open spec fn generate_blocks(cell: IrType, ptr: IrType, cell_count: u64, ns: Seq<Node>) -> Seq<
    Seq<Instr>,
> {
    let st0 = TrState { blocks: seq![prologue_ops(cell, cell_count)], cur: 0 };
    let st1 = emit_seq_spec(cell, ptr, st0, ns);
    let l = block_len(st1);
    append_cur(
        st1,
        seq![
            Instr::Iconst { ty: IrType::I32, value: 0 },
            Instr::Return { value: (l + 1 - 1) as usize },
        ],
    ).blocks
}

/// One compilation of a program: the configuration fixed at creation and,
/// after a successful `generate`, the finalized function.
pub struct CodegenContext {
    /// The type of one tape cell.
    pub cell_type: IrType,
    /// The pointer-sized integer type of the target.
    pub pointer_type: IrType,
    /// The number of addressable cells on the tape.
    pub cell_count: usize,
    /// The finalized function, present once `generate` has succeeded.
    pub func: Option<IrFunction>,
}

impl CodegenContext {
    /// A context for one compilation with the given configuration; no
    /// function has been generated yet.
    pub fn new(pointer_type: IrType, cell_type: IrType, cell_count: usize) -> (r: CodegenContext)
        requires
            cell_count > 0,
        ensures
            r.pointer_type == pointer_type,
            r.cell_type == cell_type,
            r.cell_count == cell_count,
            r.func is None,
    {
        CodegenContext { cell_type, pointer_type, cell_count, func: None }
    }

    /// The declared signature of the character-output foreign function.
    fn declare_libc_putchar(&self) -> (r: ForeignSig)
        ensures
            r == spec_foreign_sigs()[1],
    {
        ForeignSig { func: ForeignFunc::Putchar, params: TypeList::One(IrType::I8), ret: IrType::I32 }
    }

    /// The declared signature of the allocator foreign function.
    fn declare_libc_calloc(&self) -> (r: ForeignSig)
        ensures
            r == spec_foreign_sigs()[0],
    {
        ForeignSig {
            func: ForeignFunc::Calloc,
            params: TypeList::Two(IrType::I64, IrType::I64),
            ret: IrType::I64,
        }
    }

    /// The declared signature of the character-input foreign function.
    fn declare_libc_getchar(&self) -> (r: ForeignSig)
        ensures
            r == spec_foreign_sigs()[2],
    {
        ForeignSig { func: ForeignFunc::Getchar, params: TypeList::Empty, ret: IrType::I32 }
    }

    /// Translate a whole program into one finalized function: declare the
    /// three foreign functions, allocate the tape, translate every node left
    /// to right, and return the 32-bit constant zero. Fails, leaving no
    /// function behind, exactly when the tree contains a `ReadChar` node at
    /// any nesting depth.
    #[verifier::rlimit(60)]
    #[verifier::loop_isolation(false)]
    pub fn generate(&mut self, program: Vec<Node>) -> (r: Result<(), CodegenError>)
        ensures
            final(self).cell_type == old(self).cell_type,
            final(self).pointer_type == old(self).pointer_type,
            final(self).cell_count == old(self).cell_count,
            r is Ok <==> !has_read_seq(program@),
            r is Err ==> r == Err::<(), CodegenError>(
                CodegenError::Unsupported(NodeKind::ReadChar),
            ) && final(self).func is None,
            r is Ok ==> (final(self).func matches Some(f) && f@.foreigns == spec_foreign_sigs()
                && f@.blocks == generate_blocks(
                old(self).cell_type,
                old(self).pointer_type,
                old(self).cell_count as u64,
                program@,
            )),
    {
        self.func = None;
        let ghost cell = self.cell_type;
        let ghost ptr = self.pointer_type;
        let mut foreigns: Vec<ForeignSig> = Vec::new();
        foreigns.push(self.declare_libc_calloc());
        foreigns.push(self.declare_libc_putchar());
        foreigns.push(self.declare_libc_getchar());
        proof {
            assert(foreigns@ =~= spec_foreign_sigs());
        }
        let mut ctx = TranslationContext::new(self.pointer_type, self.cell_type);
        let c0 = ctx.push_op(Instr::Iconst { ty: IrType::I64, value: self.cell_count as u64 });
        let bytes = self.cell_type.bytes();
        let c1 = ctx.push_op(Instr::Iconst { ty: IrType::I64, value: bytes });
        let c2 = ctx.push_op(Instr::Call { func: ForeignFunc::Calloc, args: ArgList::Two(c0, c1) });
        ctx.push_op(Instr::DefVar { value: c2 });
        let ghost st0 = TrState {
            blocks: seq![prologue_ops(cell, self.cell_count as u64)],
            cur: 0,
        };
        proof {
            assert(ctx@ =~~= st0);
        }
        let mut i: usize = 0;
        while i < program.len()
            invariant
                ctx.wf(),
                ctx.cell_type == cell,
                ctx.pointer_type == ptr,
                i <= program.len(),
                forall|k: int| 0 <= k < i ==> !program@[k].has_read(),
                ctx@ == emit_seq_spec(cell, ptr, st0, program@.subrange(0, i as int)),
            decreases program.len() - i,
        {
            match program[i].emit(&mut ctx) {
                Ok(()) => {}
                Err(e) => {
                    proof {
                        crate::ast::lemma_has_read_seq_index(program@);
                    }
                    return Err(e);
                }
            }
            proof {
                assert(program@.subrange(0, (i + 1) as int) =~= program@.subrange(
                    0,
                    i as int,
                ).push(program@[i as int]));
                lemma_emit_seq_spec_snoc(
                    cell,
                    ptr,
                    st0,
                    program@.subrange(0, i as int),
                    program@[i as int],
                );
            }
            i = i + 1;
        }
        proof {
            assert(program@.subrange(0, program@.len() as int) =~= program@);
            crate::ast::lemma_has_read_seq_index(program@);
        }
        let r0 = ctx.push_op(Instr::Iconst { ty: IrType::I32, value: 0 });
        ctx.push_op(Instr::Return { value: r0 });
        let f = IrFunction { foreigns, blocks: ctx.blocks };
        proof {
            assert(f@.blocks =~~= generate_blocks(cell, ptr, self.cell_count as u64, program@));
        }
        self.func = Some(f);
        Ok(())
    }

    /// Hand back the finalized function of a successful `generate`.
    pub fn finish(self) -> (r: IrFunction)
        requires
            self.func is Some,
        ensures
            r == self.func->0,
    {
        self.func.unwrap()
    }
}

/// How many load operations a block holds.
pub open spec fn count_loads(s: Seq<Instr>) -> nat {
    s.filter(|op: Instr| op is Load).len()
}

/// How many store operations a block holds.
pub open spec fn count_stores(s: Seq<Instr>) -> nat {
    s.filter(|op: Instr| op is Store).len()
}

/// How many integer adds and subtracts a block holds.
pub open spec fn count_arith(s: Seq<Instr>) -> nat {
    s.filter(|op: Instr| op is Iadd || op is Isub).len()
}

/// How many pointer-variable assignments a block holds. Each pointer move
/// assigns the pointer exactly once, so these count the pointer-arithmetic
/// results of a straight-line translation.
pub open spec fn count_def_vars(s: Seq<Instr>) -> nat {
    s.filter(|op: Instr| op is DefVar).len()
}

/// Whether the node moves the pointer.
pub open spec fn is_move(n: Node) -> bool {
    n is IncrementPointer || n is DecrementPointer
}

/// Whether the node increments or decrements the cell under the pointer.
pub open spec fn is_cell_step(n: Node) -> bool {
    n is Increment || n is Decrement
}

/// Whether every node of the sequence is a pointer move or a cell step:
/// straight-line code with no loops, prints or reads.
pub open spec fn straight_line(ns: Seq<Node>) -> bool {
    forall|i: int| 0 <= i < ns.len() ==> is_move(ns[i]) || is_cell_step(ns[i])
}

/// How many nodes of the sequence move the pointer.
pub open spec fn count_moves(ns: Seq<Node>) -> nat {
    ns.filter(|n: Node| is_move(n)).len()
}

/// How many nodes of the sequence step a cell.
pub open spec fn count_cell_steps(ns: Seq<Node>) -> nat {
    ns.filter(|n: Node| is_cell_step(n)).len()
}

/// The operations of one pointer move hold no load and no store, one
/// arithmetic operation, and one pointer assignment.
proof fn lemma_move_ops_counts(ptr: IrType, cell: IrType, l: int, forward: bool)
    ensures
        count_loads(move_ops(ptr, cell, l, forward)) == 0,
        count_stores(move_ops(ptr, cell, l, forward)) == 0,
        count_arith(move_ops(ptr, cell, l, forward)) == 1,
        count_def_vars(move_ops(ptr, cell, l, forward)) == 1,
{
    reveal_with_fuel(Seq::<Instr>::filter, 6);
}

/// The operations of one cell step hold one load, one store, one arithmetic
/// operation, and no pointer assignment.
proof fn lemma_cell_ops_counts(cell: IrType, l: int, up: bool)
    ensures
        count_loads(cell_ops(cell, l, up)) == 1,
        count_stores(cell_ops(cell, l, up)) == 1,
        count_arith(cell_ops(cell, l, up)) == 1,
        count_def_vars(cell_ops(cell, l, up)) == 0,
{
    reveal_with_fuel(Seq::<Instr>::filter, 7);
}

/// For a tree of pointer moves and cell steps only, translation touches
/// nothing but the current block, and in what it appends the loads and the
/// stores each number the cell steps (one load/store pair per cell step),
/// the arithmetic operations number the cell steps plus the moves (so the
/// pointer-arithmetic operations beyond the load/store pairs number exactly
/// the moves), and the pointer assignments number the moves.
pub proof fn lemma_straight_line_counts(cell: IrType, ptr: IrType, st: TrState, ns: Seq<Node>)
    requires
        0 <= st.cur < st.blocks.len(),
        straight_line(ns),
    ensures
        ({
            let r = emit_seq_spec(cell, ptr, st, ns);
            &&& r.cur == st.cur
            &&& r.blocks.len() == st.blocks.len()
            &&& (forall|k: int|
                0 <= k < st.blocks.len() && k != st.cur ==> r.blocks[k] == st.blocks[k])
            &&& count_loads(r.blocks[st.cur]) == count_loads(st.blocks[st.cur])
                + count_cell_steps(ns)
            &&& count_stores(r.blocks[st.cur]) == count_stores(st.blocks[st.cur])
                + count_cell_steps(ns)
            &&& count_arith(r.blocks[st.cur]) == count_arith(st.blocks[st.cur])
                + count_cell_steps(ns) + count_moves(ns)
            &&& count_def_vars(r.blocks[st.cur]) == count_def_vars(st.blocks[st.cur])
                + count_moves(ns)
        }),
    decreases ns.len(),
{
    broadcast use vstd::seq_lib::group_seq_lib_default;

    if ns.len() == 0 {
        assert(ns.filter(|n: Node| is_move(n)) =~= Seq::<Node>::empty()) by {
            reveal_with_fuel(Seq::<Node>::filter, 1);
        }
        assert(ns.filter(|n: Node| is_cell_step(n)) =~= Seq::<Node>::empty()) by {
            reveal_with_fuel(Seq::<Node>::filter, 1);
        }
    } else {
        let pre = ns.drop_last();
        let n = ns.last();
        assert(ns =~= pre.push(n));
        assert(straight_line(pre)) by {
            assert(forall|i: int| 0 <= i < pre.len() ==> pre[i] == ns[i]);
        }
        lemma_straight_line_counts(cell, ptr, st, pre);
        lemma_emit_seq_spec_snoc(cell, ptr, st, pre, n);
        let mid = emit_seq_spec(cell, ptr, st, pre);
        let r = emit_node_spec(cell, ptr, mid, n);
        assert(is_move(n) || is_cell_step(n));
        let ops = match n {
            Node::IncrementPointer => move_ops(ptr, cell, block_len(mid), true),
            Node::DecrementPointer => move_ops(ptr, cell, block_len(mid), false),
            Node::Increment => cell_ops(cell, block_len(mid), true),
            Node::Decrement => cell_ops(cell, block_len(mid), false),
            _ => Seq::<Instr>::empty(),
        };
        assert(r == append_cur(mid, ops));
        match n {
            Node::IncrementPointer => lemma_move_ops_counts(ptr, cell, block_len(mid), true),
            Node::DecrementPointer => lemma_move_ops_counts(ptr, cell, block_len(mid), false),
            Node::Increment => lemma_cell_ops_counts(cell, block_len(mid), true),
            Node::Decrement => lemma_cell_ops_counts(cell, block_len(mid), false),
            _ => (),
        }
        assert(r.blocks[st.cur] == mid.blocks[st.cur] + ops);
        lemma_filter_push(pre, n);
    }
}

/// Filtering a sequence extended by one element keeps the element exactly
/// when the predicates hold of it.
proof fn lemma_filter_push(pre: Seq<Node>, n: Node)
    ensures
        pre.push(n).filter(|x: Node| is_move(x)) == (if is_move(n) {
            pre.filter(|x: Node| is_move(x)).push(n)
        } else {
            pre.filter(|x: Node| is_move(x))
        }),
        pre.push(n).filter(|x: Node| is_cell_step(x)) == (if is_cell_step(n) {
            pre.filter(|x: Node| is_cell_step(x)).push(n)
        } else {
            pre.filter(|x: Node| is_cell_step(x))
        }),
{
    reveal(Seq::filter);
    assert(pre.push(n).drop_last() =~= pre);
    assert(pre.push(n).last() == n);
}

/// A `Repeat` node with an empty body creates its two blocks and nothing
/// more: the current block gains exactly the pre-loop guard (one zero-test
/// branch and the fallthrough), the body block holds only the guard reload
/// with its backedge test and exit fallthrough, and the after block is
/// empty.
pub proof fn lemma_empty_loop_blocks(cell: IrType, ptr: IrType, st: TrState, body: Vec<Node>)
    requires
        0 <= st.cur < st.blocks.len(),
        body@.len() == 0,
    ensures
        ({
            let r = emit_node_spec(cell, ptr, st, Node::Loop(body));
            let b1 = st.blocks.len() as int;
            let b2 = b1 + 1;
            &&& r.blocks.len() == st.blocks.len() + 2
            &&& r.cur == b2
            &&& r.blocks[st.cur] == st.blocks[st.cur] + loop_head_ops(
                cell,
                block_len(st),
                b1,
                b2,
            )
            &&& r.blocks[b1] == loop_back_ops(cell, 0, b1, b2)
            &&& r.blocks[b2] == Seq::<Instr>::empty()
            &&& (forall|k: int|
                0 <= k < st.blocks.len() && k != st.cur ==> r.blocks[k] == st.blocks[k])
        }),
{
    let r = emit_node_spec(cell, ptr, st, Node::Loop(body));
    let b1 = st.blocks.len() as int;
    let b2 = b1 + 1;
    let st1 = TrState {
        blocks: st.blocks + seq![Seq::<Instr>::empty(), Seq::<Instr>::empty()],
        cur: st.cur,
    };
    let st2 = append_cur(st1, loop_head_ops(cell, block_len(st1), b1, b2));
    let st3 = TrState { blocks: st2.blocks, cur: b1 };
    let st4 = emit_seq_spec(cell, ptr, st3, body@);
    assert(st4 == st3);
    let st5 = append_cur(st4, loop_back_ops(cell, block_len(st4), b1, b2));
    assert(r == (TrState { blocks: st5.blocks, cur: b2 }));
    assert(block_len(st1) == block_len(st));
    assert(st3.blocks[b1] =~= Seq::<Instr>::empty());
    assert(r.blocks[b1] =~= loop_back_ops(cell, 0, b1, b2));
}

/// Translation is a pure function of tree and configuration: any two
/// finalized functions generated from the same tree with the same cell
/// type, pointer type and cell count are the same function, block for block
/// and operation for operation.
pub proof fn lemma_generate_deterministic(
    f1: IrFunction,
    f2: IrFunction,
    cell: IrType,
    ptr: IrType,
    cell_count: u64,
    ns: Seq<Node>,
)
    requires
        f1@.foreigns == spec_foreign_sigs(),
        f1@.blocks == generate_blocks(cell, ptr, cell_count, ns),
        f2@.foreigns == spec_foreign_sigs(),
        f2@.blocks == generate_blocks(cell, ptr, cell_count, ns),
    ensures
        f1@ == f2@,
{
    assert(f1@ =~~= f2@);
}


} // verus!
