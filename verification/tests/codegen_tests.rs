use bfc::ast::Node;
use bfc::codegen::{CodegenContext, CodegenError, NodeKind};
use bfc::ir::{ArgList, ForeignFunc, ForeignSig, Instr, IrType, TypeList};

/// The operations every generated function starts with: the tape allocation.
fn prologue(cell_count: u64, cell_bytes: u64) -> Vec<Instr> {
    vec![
        Instr::Iconst { ty: IrType::I64, value: cell_count },
        Instr::Iconst { ty: IrType::I64, value: cell_bytes },
        Instr::Call { func: ForeignFunc::Calloc, args: ArgList::Two(0, 1) },
        Instr::DefVar { value: 2 },
    ]
}

#[test]
fn foreign_declarations() {
    let mut cg = CodegenContext::new(IrType::I64, IrType::I8, 16);
    cg.generate(vec![]).unwrap();
    let f = cg.finish();
    assert_eq!(
        f.foreigns,
        vec![
            ForeignSig {
                func: ForeignFunc::Calloc,
                params: TypeList::Two(IrType::I64, IrType::I64),
                ret: IrType::I64,
            },
            ForeignSig { func: ForeignFunc::Putchar, params: TypeList::One(IrType::I8), ret: IrType::I32 },
            ForeignSig { func: ForeignFunc::Getchar, params: TypeList::Empty, ret: IrType::I32 },
        ]
    );
}

#[test]
fn empty_program_allocates_and_returns_zero() {
    let mut cg = CodegenContext::new(IrType::I64, IrType::I8, 4096);
    cg.generate(vec![]).unwrap();
    let f = cg.finish();
    let mut expected = prologue(4096, 1);
    expected.push(Instr::Iconst { ty: IrType::I32, value: 0 });
    expected.push(Instr::Return { value: 4 });
    assert_eq!(f.blocks, vec![expected]);
}

#[test]
fn three_increments_and_print_on_8_bit_cells() {
    // One allocate call, three load/add/store sequences, one load feeding the
    // write-character call (8-bit cells need no narrowing), one return of 0.
    let mut cg = CodegenContext::new(IrType::I64, IrType::I8, 4096);
    cg.generate(vec![Node::Increment, Node::Increment, Node::Increment, Node::PrintChar])
        .unwrap();
    let f = cg.finish();
    let mut expected = prologue(4096, 1);
    for base in [4usize, 9, 14] {
        expected.push(Instr::UseVar);
        expected.push(Instr::Load { ty: IrType::I8, addr: base });
        expected.push(Instr::Iconst { ty: IrType::I8, value: 1 });
        expected.push(Instr::Iadd { lhs: base + 1, rhs: base + 2 });
        expected.push(Instr::Store { value: base + 3, addr: base });
    }
    expected.push(Instr::UseVar);
    expected.push(Instr::Load { ty: IrType::I8, addr: 19 });
    expected.push(Instr::Call { func: ForeignFunc::Putchar, args: ArgList::One(20) });
    expected.push(Instr::Iconst { ty: IrType::I32, value: 0 });
    expected.push(Instr::Return { value: 22 });
    assert_eq!(f.blocks, vec![expected]);
}

#[test]
fn print_narrows_wide_cells() {
    let mut cg = CodegenContext::new(IrType::I64, IrType::I32, 8);
    cg.generate(vec![Node::PrintChar]).unwrap();
    let f = cg.finish();
    let mut expected = prologue(8, 4);
    expected.push(Instr::UseVar);
    expected.push(Instr::Load { ty: IrType::I32, addr: 4 });
    expected.push(Instr::Narrow { ty: IrType::I8, value: 5 });
    expected.push(Instr::Call { func: ForeignFunc::Putchar, args: ArgList::One(6) });
    expected.push(Instr::Iconst { ty: IrType::I32, value: 0 });
    expected.push(Instr::Return { value: 8 });
    assert_eq!(f.blocks, vec![expected]);
}

#[test]
fn pointer_moves_emit_pointer_arithmetic() {
    let mut cg = CodegenContext::new(IrType::I64, IrType::I16, 32);
    cg.generate(vec![Node::IncrementPointer, Node::DecrementPointer]).unwrap();
    let f = cg.finish();
    let mut expected = prologue(32, 2);
    expected.push(Instr::Iconst { ty: IrType::I64, value: 2 });
    expected.push(Instr::UseVar);
    expected.push(Instr::Iadd { lhs: 5, rhs: 4 });
    expected.push(Instr::DefVar { value: 6 });
    expected.push(Instr::Iconst { ty: IrType::I64, value: 2 });
    expected.push(Instr::UseVar);
    expected.push(Instr::Isub { lhs: 9, rhs: 8 });
    expected.push(Instr::DefVar { value: 10 });
    expected.push(Instr::Iconst { ty: IrType::I32, value: 0 });
    expected.push(Instr::Return { value: 12 });
    assert_eq!(f.blocks, vec![expected]);
}

#[test]
fn loop_of_decrement_builds_body_and_after_blocks() {
    // Two blocks beyond the entry: a body block with one load/sub/store and
    // the backedge test, and an after block reached both from the pre-loop
    // zero test and from the backedge's zero branch.
    let mut cg = CodegenContext::new(IrType::I64, IrType::I8, 4096);
    cg.generate(vec![Node::Loop(vec![Node::Decrement])]).unwrap();
    let f = cg.finish();
    assert_eq!(f.blocks.len(), 3);

    let mut entry = prologue(4096, 1);
    entry.push(Instr::UseVar);
    entry.push(Instr::Load { ty: IrType::I8, addr: 4 });
    entry.push(Instr::BranchIfZero { cond: 5, target: 2 });
    entry.push(Instr::Fallthrough { target: 1 });
    assert_eq!(f.blocks[0], entry);

    let body = vec![
        Instr::UseVar,
        Instr::Load { ty: IrType::I8, addr: 0 },
        Instr::Iconst { ty: IrType::I8, value: 1 },
        Instr::Isub { lhs: 1, rhs: 2 },
        Instr::Store { value: 3, addr: 0 },
        Instr::UseVar,
        Instr::Load { ty: IrType::I8, addr: 5 },
        Instr::BranchIfNonzero { cond: 6, target: 1 },
        Instr::Fallthrough { target: 2 },
    ];
    assert_eq!(f.blocks[1], body);

    let after = vec![
        Instr::Iconst { ty: IrType::I32, value: 0 },
        Instr::Return { value: 0 },
    ];
    assert_eq!(f.blocks[2], after);
}

#[test]
fn empty_loop_body_emits_only_the_guards() {
    let mut cg = CodegenContext::new(IrType::I64, IrType::I8, 4096);
    cg.generate(vec![Node::Loop(vec![])]).unwrap();
    let f = cg.finish();
    assert_eq!(f.blocks.len(), 3);
    // The body block holds nothing but the guard reload, its single
    // backedge test, and the exit fallthrough.
    assert_eq!(
        f.blocks[1],
        vec![
            Instr::UseVar,
            Instr::Load { ty: IrType::I8, addr: 0 },
            Instr::BranchIfNonzero { cond: 1, target: 1 },
            Instr::Fallthrough { target: 2 },
        ]
    );
    // The entry block gained exactly one zero-test branch.
    let zero_tests = f.blocks[0]
        .iter()
        .filter(|op| matches!(op, Instr::BranchIfZero { .. }))
        .count();
    assert_eq!(zero_tests, 1);
}

#[test]
fn nested_loops_create_four_blocks() {
    // Two blocks per loop level; the inner loop's after block carries the
    // outer loop's backedge test and falls through into the outer after.
    let mut cg = CodegenContext::new(IrType::I64, IrType::I8, 4096);
    cg.generate(vec![Node::Loop(vec![Node::Loop(vec![Node::Increment])])]).unwrap();
    let f = cg.finish();
    assert_eq!(f.blocks.len(), 5);
    assert_eq!(
        f.blocks[4],
        vec![
            Instr::UseVar,
            Instr::Load { ty: IrType::I8, addr: 0 },
            Instr::BranchIfNonzero { cond: 1, target: 1 },
            Instr::Fallthrough { target: 2 },
        ]
    );
    // The outer after block holds the function epilogue.
    assert_eq!(
        f.blocks[2],
        vec![
            Instr::Iconst { ty: IrType::I32, value: 0 },
            Instr::Return { value: 0 },
        ]
    );
}

#[test]
fn compiling_twice_gives_the_same_function() {
    let tree = || {
        vec![
            Node::Increment,
            Node::Loop(vec![Node::Decrement, Node::IncrementPointer]),
            Node::PrintChar,
        ]
    };
    let mut cg1 = CodegenContext::new(IrType::I64, IrType::I16, 64);
    cg1.generate(tree()).unwrap();
    let f1 = cg1.finish();
    let mut cg2 = CodegenContext::new(IrType::I64, IrType::I16, 64);
    cg2.generate(tree()).unwrap();
    let f2 = cg2.finish();
    assert_eq!(f1, f2);
}

#[test]
fn read_at_top_level_is_unsupported() {
    let mut cg = CodegenContext::new(IrType::I64, IrType::I8, 4096);
    let r = cg.generate(vec![Node::Increment, Node::ReadChar]);
    assert_eq!(r, Err(CodegenError::Unsupported(NodeKind::ReadChar)));
    assert!(cg.func.is_none());
}

#[test]
fn read_nested_deep_is_unsupported() {
    let mut cg = CodegenContext::new(IrType::I64, IrType::I64, 4096);
    let tree = vec![Node::Loop(vec![Node::Increment, Node::Loop(vec![Node::ReadChar])])];
    let r = cg.generate(tree);
    assert_eq!(r, Err(CodegenError::Unsupported(NodeKind::ReadChar)));
    assert!(cg.func.is_none());
}

#[test]
fn out_of_bounds_moves_compile_without_bounds_checks() {
    // A one-cell tape followed by a move forward and a cell mutation is a
    // documented undefined-behavior case at runtime; the backend still emits
    // the instructions unconditionally and does not fail at compile time.
    let mut cg = CodegenContext::new(IrType::I64, IrType::I8, 1);
    let r = cg.generate(vec![Node::IncrementPointer, Node::Increment]);
    assert!(r.is_ok());
    let f = cg.finish();
    let mut expected = prologue(1, 1);
    expected.push(Instr::Iconst { ty: IrType::I64, value: 1 });
    expected.push(Instr::UseVar);
    expected.push(Instr::Iadd { lhs: 5, rhs: 4 });
    expected.push(Instr::DefVar { value: 6 });
    expected.push(Instr::UseVar);
    expected.push(Instr::Load { ty: IrType::I8, addr: 8 });
    expected.push(Instr::Iconst { ty: IrType::I8, value: 1 });
    expected.push(Instr::Iadd { lhs: 9, rhs: 10 });
    expected.push(Instr::Store { value: 11, addr: 8 });
    expected.push(Instr::Iconst { ty: IrType::I32, value: 0 });
    expected.push(Instr::Return { value: 13 });
    assert_eq!(f.blocks, vec![expected]);
}

#[test]
fn cell_type_bytes() {
    assert_eq!(IrType::I8.bytes(), 1);
    assert_eq!(IrType::I16.bytes(), 2);
    assert_eq!(IrType::I32.bytes(), 4);
    assert_eq!(IrType::I64.bytes(), 8);
}

#[test]
fn failed_generate_discards_an_earlier_function() {
    let mut cg = CodegenContext::new(IrType::I64, IrType::I8, 4);
    cg.generate(vec![Node::Increment]).unwrap();
    assert!(cg.func.is_some());
    let r = cg.generate(vec![Node::ReadChar]);
    assert!(r.is_err());
    assert!(cg.func.is_none());
}
