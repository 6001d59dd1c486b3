use hack_textual::ir::{
    Block, BlockId, EnforcedTy, Func, Hhbc, Instr, InstrId, LocId, LocalId, Predicate, Special,
    Terminator, Textual, UnnamedLocalId, ValueId,
};
use hack_textual::jmp::rewrite_jmp_ops;

fn block(iids: &[usize]) -> Block {
    Block {
        params: vec![InstrId(40)],
        iids: iids.iter().map(|i| InstrId(*i)).collect(),
        catch_target: Some(BlockId(9)),
    }
}

fn iids(func: &Func, b: usize) -> Vec<usize> {
    func.blocks[b].iids.iter().map(|i| i.0).collect()
}

fn load() -> Instr {
    Instr::Hhbc(Hhbc::CGetL(LocalId::Unnamed(UnnamedLocalId { idx: 0 }), None))
}

fn jmp_op(cond: usize, pred: Predicate, true_bid: usize, false_bid: usize) -> Instr {
    Instr::Terminator(Terminator::JmpOp {
        cond: ValueId::Instr(InstrId(cond)),
        pred,
        true_bid: BlockId(true_bid),
        false_bid: BlockId(false_bid),
        loc: Some(LocId(cond)),
    })
}

fn end() -> Instr {
    Instr::Terminator(Terminator::Unreachable)
}

fn func(instrs: Vec<Instr>, blocks: Vec<Block>) -> Func {
    Func {
        blocks,
        constants: Vec::new(),
        instrs,
        loc_id: LocId(0),
        locs: Vec::new(),
        params: Vec::new(),
        return_type: EnforcedTy(3),
    }
}

fn asserts_true(instr: &Instr, cond: usize) -> bool {
    match instr {
        Instr::Special(Special::Textual(Textual::AssertTrue(ValueId::Instr(i), loc))) => {
            i.0 == cond && *loc == Some(LocId(cond))
        }
        _ => false,
    }
}

fn asserts_false(instr: &Instr, cond: usize) -> bool {
    match instr {
        Instr::Special(Special::Textual(Textual::AssertFalse(ValueId::Instr(i), loc))) => {
            i.0 == cond && *loc == Some(LocId(cond))
        }
        _ => false,
    }
}

#[test]
fn the_targets_of_a_jump_get_assertions() {
    let before = func(
        vec![load(), jmp_op(0, Predicate::NonZero, 1, 2), end(), load(), end()],
        vec![block(&[0, 1]), block(&[2]), block(&[3, 4])],
    );
    let after = rewrite_jmp_ops(before);
    assert_eq!(after.instrs.len(), 7);
    assert!(asserts_true(&after.instrs[5], 0));
    assert!(asserts_false(&after.instrs[6], 0));
    assert_eq!(iids(&after, 0), vec![0, 1]);
    assert_eq!(iids(&after, 1), vec![5, 2]);
    assert_eq!(iids(&after, 2), vec![6, 3, 4]);
    // The jump itself is kept, and so is the rest of the function.
    assert!(matches!(after.instrs[1], Instr::Terminator(Terminator::JmpOp { .. })));
    assert_eq!(after.blocks[1].params, vec![InstrId(40)]);
    assert_eq!(after.blocks[1].catch_target, Some(BlockId(9)));
    assert_eq!(after.return_type, EnforcedTy(3));
}

#[test]
fn a_jump_on_zero_swaps_the_assertions() {
    let before = func(
        vec![load(), jmp_op(0, Predicate::Zero, 1, 2), end(), end()],
        vec![block(&[0, 1]), block(&[2]), block(&[3])],
    );
    let after = rewrite_jmp_ops(before);
    // The true assertion is still made first.
    assert!(asserts_true(&after.instrs[4], 0));
    assert!(asserts_false(&after.instrs[5], 0));
    assert_eq!(iids(&after, 1), vec![5, 2]);
    assert_eq!(iids(&after, 2), vec![4, 3]);
    match &after.instrs[1] {
        Instr::Terminator(Terminator::JmpOp { pred, true_bid, false_bid, .. }) => {
            assert_eq!(*pred, Predicate::Zero);
            assert_eq!(*true_bid, BlockId(1));
            assert_eq!(*false_bid, BlockId(2));
        }
        other => panic!("unexpected {:?}", other),
    }
}

#[test]
fn several_jumps_are_rewritten_in_order() {
    let before = func(
        vec![
            load(),
            jmp_op(0, Predicate::NonZero, 1, 2),
            load(),
            jmp_op(2, Predicate::NonZero, 3, 4),
            end(),
            end(),
            end(),
        ],
        vec![block(&[0, 1]), block(&[2, 3]), block(&[4]), block(&[5]), block(&[6])],
    );
    let after = rewrite_jmp_ops(before);
    assert_eq!(after.instrs.len(), 11);
    // A block that got an assertion of its own still has its jump rewritten.
    assert_eq!(iids(&after, 1), vec![7, 2, 3]);
    assert_eq!(iids(&after, 2), vec![8, 4]);
    assert_eq!(iids(&after, 3), vec![9, 5]);
    assert_eq!(iids(&after, 4), vec![10, 6]);
    assert!(asserts_true(&after.instrs[7], 0));
    assert!(asserts_false(&after.instrs[8], 0));
    assert!(asserts_true(&after.instrs[9], 2));
    assert!(asserts_false(&after.instrs[10], 2));
}

#[test]
fn a_shared_target_gets_the_later_assertion_first() {
    let before = func(
        vec![load(), jmp_op(0, Predicate::NonZero, 1, 1), end()],
        vec![block(&[0, 1]), block(&[2])],
    );
    let after = rewrite_jmp_ops(before);
    assert_eq!(iids(&after, 1), vec![4, 3, 2]);
}

#[test]
fn other_jumps_change_nothing() {
    let before = func(
        vec![
            Instr::Terminator(Terminator::Jmp(BlockId(1), None)),
            Instr::Terminator(Terminator::Ret(ValueId::Absent, None)),
        ],
        vec![block(&[0]), block(&[1])],
    );
    let after = rewrite_jmp_ops(before);
    assert_eq!(after.instrs.len(), 2);
    assert_eq!(iids(&after, 0), vec![0]);
    assert_eq!(iids(&after, 1), vec![1]);
    assert!(rewrite_jmp_ops(func(Vec::new(), Vec::new())).blocks.is_empty());
}
