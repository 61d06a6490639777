//! The intermediate representation that the code generation backend emits.
//!
//! A compiled program is one function made of basic blocks. Each block is an
//! ordered list of builder operations: typed constants, loads and stores,
//! integer arithmetic, foreign calls, and block-terminating transfers. An
//! operand names an earlier operation of the same block by its position in
//! that block; the single long-lived tape pointer crosses blocks through the
//! pointer variable (`UseVar` / `DefVar`) instead. A native code backend
//! outside this library lowers the representation to machine code.

use vstd::prelude::*;

verus! {

/// An integer type of the intermediate representation: an 8, 16, 32 or
/// 64-bit machine integer.
#[derive(PartialEq, Eq, Structural, Debug, Clone, Copy)]
pub enum IrType {
    I8,
    I16,
    I32,
    I64,
}

/// The number of bytes a value of the given type occupies in memory.
pub open spec fn spec_type_bytes(t: IrType) -> u64 {
    match t {
        IrType::I8 => 1,
        IrType::I16 => 2,
        IrType::I32 => 4,
        IrType::I64 => 8,
    }
}

impl IrType {
    /// The size of a value of this type in bytes.
    pub fn bytes(&self) -> (r: u64)
        ensures
            r == spec_type_bytes(*self),
    {
        match self {
            IrType::I8 => 1,
            IrType::I16 => 2,
            IrType::I32 => 4,
            IrType::I64 => 8,
        }
    }
}

/// One of the three foreign functions the generated program is linked
/// against: `calloc` for the zero-initialized tape allocation, `putchar` for
/// character output, `getchar` for character input.
#[derive(PartialEq, Eq, Structural, Debug, Clone, Copy)]
pub enum ForeignFunc {
    Calloc,
    Putchar,
    Getchar,
}

/// The arguments of a call operation, each the in-block position of an
/// earlier operation of the same block.
#[derive(PartialEq, Eq, Structural, Debug, Clone, Copy)]
pub enum ArgList {
    Empty,
    One(usize),
    Two(usize, usize),
}

/// The parameter types of a declared function signature.
#[derive(PartialEq, Eq, Structural, Debug, Clone, Copy)]
pub enum TypeList {
    Empty,
    One(IrType),
    Two(IrType, IrType),
}

/// The declared signature of one foreign function.
#[derive(PartialEq, Eq, Structural, Debug, Clone, Copy)]
pub struct ForeignSig {
    /// Which foreign function the signature belongs to.
    pub func: ForeignFunc,
    /// Its parameter types, in order.
    pub params: TypeList,
    /// Its return type.
    pub ret: IrType,
}

/// One builder operation recorded in a basic block.
///
/// Operands (`lhs`, `rhs`, `addr`, `value`, `cond`, call arguments) are
/// in-block positions: the index, within the same block, of the operation
/// whose result is consumed. Branch and fallthrough targets are block
/// indices. `UseVar` reads the pointer variable and `DefVar` assigns it; the
/// pointer variable is the only value that flows between blocks.
#[allow(inconsistent_fields)]
#[derive(PartialEq, Eq, Structural, Debug, Clone, Copy)]
pub enum Instr {
    /// Materialize an integer constant of the given type.
    Iconst { ty: IrType, value: u64 },
    /// Read the current value of the pointer variable.
    UseVar,
    /// Assign the result at `value` to the pointer variable.
    DefVar { value: usize },
    /// Integer addition of two earlier results.
    Iadd { lhs: usize, rhs: usize },
    /// Integer subtraction of two earlier results.
    Isub { lhs: usize, rhs: usize },
    /// Load a value of the given type from the address at `addr`.
    Load { ty: IrType, addr: usize },
    /// Store the result at `value` to the address at `addr`.
    Store { value: usize, addr: usize },
    /// Truncate an earlier result to the given narrower type.
    Narrow { ty: IrType, value: usize },
    /// Call a foreign function; the result is the call's return value.
    Call { func: ForeignFunc, args: ArgList },
    /// Transfer to block `target` if the result at `cond` is zero,
    /// otherwise fall through to the next operation.
    BranchIfZero { cond: usize, target: usize },
    /// Transfer to block `target` if the result at `cond` is nonzero,
    /// otherwise fall through to the next operation.
    BranchIfNonzero { cond: usize, target: usize },
    /// Unconditional transfer to block `target`, which must directly follow.
    Fallthrough { target: usize },
    /// Return the result at `value` from the function.
    Return { value: usize },
}

/// A finalized function: the declared foreign signatures and the basic
/// blocks of the single exported entry point, which takes no arguments and
/// returns a 32-bit status. Block 0 is the entry block.
#[derive(PartialEq, Eq, Debug)]
pub struct IrFunction {
    /// The foreign functions declared for the program, in declaration order.
    pub foreigns: Vec<ForeignSig>,
    /// The basic blocks; each inner vector is one block's operations.
    pub blocks: Vec<Vec<Instr>>,
}

/// The blocks of a function under construction, as mathematical sequences.
pub open spec fn blocks_view(blocks: Vec<Vec<Instr>>) -> Seq<Seq<Instr>> {
    blocks@.map_values(|b: Vec<Instr>| b@)
}

/// The mathematical value of a finalized function.
#[verifier::ext_equal]
pub struct IrFnView {
    /// The declared foreign signatures.
    pub foreigns: Seq<ForeignSig>,
    /// The basic blocks.
    pub blocks: Seq<Seq<Instr>>,
}

impl View for IrFunction {
    type V = IrFnView;

    open spec fn view(&self) -> IrFnView {
        IrFnView { foreigns: self.foreigns@, blocks: blocks_view(self.blocks) }
    }
}

} // verus!
