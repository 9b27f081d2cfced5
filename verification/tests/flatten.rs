use ndca::ast::{Expr, FunctionType, IntExpr, Statement};
use ndca::flatten::flatten_block;
use ndca::interpreter::{ExecuteResult, State};
use ndca::span::{Span, Spanned};

fn sp<T>(inner: T) -> Spanned<T> {
    Spanned { span: Span { start: 0, end: 0 }, inner }
}

fn lit(i: i64) -> Spanned<IntExpr> {
    sp(IntExpr::Literal(i))
}

fn branch(
    cond: i64,
    if_true: Vec<Spanned<Statement>>,
    if_false: Vec<Spanned<Statement>>,
) -> Spanned<Statement> {
    sp(Statement::If { cond_expr: lit(cond), if_true, if_false })
}

fn ret(i: i64) -> Spanned<Statement> {
    sp(Statement::Return(Expr::Int(lit(i))))
}

#[test]
fn flattening_relocates_both_bodies() {
    // [end, if 1 { return 7 } else { return 8 }]
    let mut block = vec![sp(Statement::End), branch(1, vec![ret(7)], vec![ret(8)])];
    flatten_block(&mut block);
    // Both bodies are relocated to the end, true body first, and each arm
    // holds one goto whose stored target is (relocated start index - 1).
    assert_eq!(block.len(), 4);
    assert_eq!(block[0], sp(Statement::End));
    match &block[1].inner {
        Statement::If { if_true, if_false, .. } => {
            assert_eq!(if_true.len(), 1);
            assert_eq!(if_true[0].inner, Statement::Goto(1));
            assert_eq!(if_false.len(), 1);
            assert_eq!(if_false[0].inner, Statement::Goto(2));
        },
        other => panic!("expected a branch, found {:?}", other),
    }
    assert_eq!(block[2], ret(7));
    assert_eq!(block[3], ret(8));
}

#[test]
fn flattening_keeps_an_empty_arm_empty() {
    let mut block = vec![branch(0, vec![ret(7)], vec![]), sp(Statement::End)];
    flatten_block(&mut block);
    assert_eq!(block.len(), 3);
    match &block[0].inner {
        Statement::If { if_true, if_false, .. } => {
            assert_eq!(if_true.len(), 1);
            assert_eq!(if_true[0].inner, Statement::Goto(1));
            assert!(if_false.is_empty());
        },
        other => panic!("expected a branch, found {:?}", other),
    }
    assert_eq!(block[1], sp(Statement::End));
    assert_eq!(block[2], ret(7));
}

#[test]
fn flattening_handles_nested_branches() {
    // [if 1 { if 2 { return 7 } else { return 8 } } else { return 9 }]
    let inner = branch(2, vec![ret(7)], vec![ret(8)]);
    let mut block = vec![branch(1, vec![inner], vec![ret(9)])];
    flatten_block(&mut block);
    // Outer arms relocate to indices 1 and 2; the relocated inner branch at
    // index 1 relocates its own arms to indices 3 and 4.
    assert_eq!(block.len(), 5);
    match &block[0].inner {
        Statement::If { if_true, if_false, .. } => {
            assert_eq!(if_true[0].inner, Statement::Goto(0));
            assert_eq!(if_false[0].inner, Statement::Goto(1));
        },
        other => panic!("expected the outer branch, found {:?}", other),
    }
    match &block[1].inner {
        Statement::If { if_true, if_false, .. } => {
            assert_eq!(if_true[0].inner, Statement::Goto(2));
            assert_eq!(if_false[0].inner, Statement::Goto(3));
        },
        other => panic!("expected the relocated inner branch, found {:?}", other),
    }
    assert_eq!(block[2], ret(9));
    assert_eq!(block[3], ret(7));
    assert_eq!(block[4], ret(8));
}

#[test]
fn empty_arm_falls_through_to_the_next_instruction() {
    // if 0 { return 7 } — the false arm is empty, so execution falls
    // through: the counter advances by exactly one past the branch.
    let mut block = vec![branch(0, vec![ret(7)], vec![]), sp(Statement::End)];
    flatten_block(&mut block);
    let mut state = State {
        instructions: block,
        instruction_pointer: 0,
        vars: Vec::new(),
        function_type: FunctionType::Transition,
        cell_state_count: 100,
    };
    match state.step() {
        Ok(ExecuteResult::Continue) => {},
        other => panic!("expected the branch to continue, found {:?}", other),
    }
    assert_eq!(state.instruction_pointer, 1);
}

#[test]
fn taken_goto_arm_jumps_to_the_relocated_body() {
    let mut block = vec![branch(1, vec![sp(Statement::End)], vec![]), sp(Statement::End)];
    flatten_block(&mut block);
    // The true arm holds Goto(1): the universal +1 lands the counter on the
    // relocated body at index 2.
    let mut state = State {
        instructions: block,
        instruction_pointer: 0,
        vars: Vec::new(),
        function_type: FunctionType::Transition,
        cell_state_count: 100,
    };
    match state.step() {
        Ok(ExecuteResult::Continue) => {},
        other => panic!("expected the branch to continue, found {:?}", other),
    }
    assert_eq!(state.instruction_pointer, 2);
}
