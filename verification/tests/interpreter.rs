use ndca::ast::{
    CellStateExpr, Cmp, CmpIntExpr, Expr, Function, FunctionType, IntExpr, MathOp, Rule,
    Statement,
};
use ndca::errors::LangErrorMsg;
use ndca::interpreter::{interpret, run_fn, run_rule, ExecuteResult, State, Value};
use ndca::span::{Span, Spanned};
use ndca::types::Type;

fn sp<T>(inner: T) -> Spanned<T> {
    Spanned { span: Span { start: 0, end: 0 }, inner }
}

fn lit(i: i64) -> Spanned<IntExpr> {
    sp(IntExpr::Literal(i))
}

fn var(name: &str) -> Spanned<IntExpr> {
    sp(IntExpr::Var(name.to_string()))
}

fn op(lhs: Spanned<IntExpr>, o: MathOp, rhs: Spanned<IntExpr>) -> Spanned<IntExpr> {
    sp(IntExpr::Op { lhs: Box::new(lhs), op: o, rhs: Box::new(rhs) })
}

fn empty_state() -> State {
    State {
        instructions: Vec::new(),
        instruction_pointer: 0,
        vars: Vec::new(),
        function_type: FunctionType::Transition,
        cell_state_count: 100,
    }
}

fn eval(e: Spanned<IntExpr>) -> Result<i64, LangErrorMsg> {
    let state = empty_state();
    match state.eval_int_expr(&e) {
        Ok(v) => Ok(v.inner),
        Err(err) => Err(err.msg),
    }
}

fn eval_cell(e: Spanned<CellStateExpr>) -> Result<u8, LangErrorMsg> {
    let state = empty_state();
    match state.eval_cell_state_expr(&e) {
        Ok(v) => Ok(v.inner),
        Err(err) => Err(err.msg),
    }
}

#[test]
fn literal_evaluates_to_itself() {
    assert_eq!(eval(lit(42)), Ok(42));
}

#[test]
fn negation_of_min_overflows() {
    let e = sp(IntExpr::Neg(Box::new(lit(i64::MIN))));
    assert_eq!(eval(e), Err(LangErrorMsg::IntegerOverflowDuringNegation));
    let ok = sp(IntExpr::Neg(Box::new(lit(i64::MIN + 1))));
    assert_eq!(eval(ok), Ok(i64::MAX));
}

#[test]
fn addition_at_max_overflows() {
    assert_eq!(
        eval(op(lit(i64::MAX), MathOp::Add, lit(1))),
        Err(LangErrorMsg::IntegerOverflowDuringAddition)
    );
    assert_eq!(eval(op(lit(i64::MAX), MathOp::Add, lit(0))), Ok(i64::MAX));
}

#[test]
fn subtraction_at_min_overflows() {
    assert_eq!(
        eval(op(lit(i64::MIN), MathOp::Sub, lit(1))),
        Err(LangErrorMsg::IntegerOverflowDuringSubtraction)
    );
}

#[test]
fn multiplication_overflow() {
    assert_eq!(
        eval(op(lit(i64::MAX), MathOp::Mul, lit(2))),
        Err(LangErrorMsg::IntegerOverflowDuringMultiplication)
    );
}

#[test]
fn division_overflow_at_min_by_minus_one() {
    assert_eq!(
        eval(op(lit(i64::MIN), MathOp::Div, lit(-1))),
        Err(LangErrorMsg::IntegerOverflowDuringDivision)
    );
    assert_eq!(
        eval(op(lit(i64::MIN), MathOp::Rem, lit(-1))),
        Err(LangErrorMsg::IntegerOverflowDuringRemainder)
    );
}

#[test]
fn division_by_zero_faults() {
    assert_eq!(eval(op(lit(10), MathOp::Div, lit(0))), Err(LangErrorMsg::DivideByZero));
    assert_eq!(eval(op(lit(10), MathOp::Rem, lit(0))), Err(LangErrorMsg::DivideByZero));
    assert_eq!(eval(op(lit(i64::MIN), MathOp::Div, lit(0))), Err(LangErrorMsg::DivideByZero));
}

#[test]
fn division_truncates_toward_zero() {
    assert_eq!(eval(op(lit(11), MathOp::Div, lit(3))), Ok(3));
    assert_eq!(eval(op(lit(-11), MathOp::Div, lit(3))), Ok(-3));
    assert_eq!(eval(op(lit(-11), MathOp::Rem, lit(3))), Ok(-2));
}

#[test]
fn exponentiation_is_unimplemented() {
    assert_eq!(eval(op(lit(2), MathOp::Exp, lit(3))), Err(LangErrorMsg::Unimplemented));
}

#[test]
fn chained_comparison_short_circuits() {
    // 3 < 5 > 10: the first comparison is true, the second false, so the
    // chain yields 0.
    let e = sp(IntExpr::CmpInt(CmpIntExpr {
        initial: Box::new(lit(3)),
        comparisons: vec![(Cmp::Lt, lit(5)), (Cmp::Gt, lit(10))],
    }));
    assert_eq!(eval(e), Ok(0));
    // 1 < 2 < 3: every comparison holds, so the chain yields 1.
    let e = sp(IntExpr::CmpInt(CmpIntExpr {
        initial: Box::new(lit(1)),
        comparisons: vec![(Cmp::Lt, lit(2)), (Cmp::Lt, lit(3))],
    }));
    assert_eq!(eval(e), Ok(1));
    // A division by zero after a false comparison is never evaluated.
    let e = sp(IntExpr::CmpInt(CmpIntExpr {
        initial: Box::new(lit(3)),
        comparisons: vec![
            (Cmp::Lt, lit(5)),
            (Cmp::Gt, lit(10)),
            (Cmp::Lt, op(lit(1), MathOp::Div, lit(0))),
        ],
    }));
    assert_eq!(eval(e), Ok(0));
}

#[test]
fn from_id_checks_the_range() {
    let below = sp(CellStateExpr::FromId(Box::new(lit(-1))));
    assert_eq!(eval_cell(below), Err(LangErrorMsg::CellStateOutOfRange));
    // The cell-state count itself is the first invalid identifier.
    let at_count = sp(CellStateExpr::FromId(Box::new(lit(100))));
    assert_eq!(eval_cell(at_count), Err(LangErrorMsg::CellStateOutOfRange));
    let ok = sp(CellStateExpr::FromId(Box::new(lit(5))));
    assert_eq!(eval_cell(ok), Ok(5));
    let top = sp(CellStateExpr::FromId(Box::new(lit(99))));
    assert_eq!(eval_cell(top), Ok(99));
}

#[test]
fn value_construction_and_narrowing() {
    assert_eq!(Value::from_type(Type::Int), Some(Value::Int(0)));
    assert_eq!(Value::from_type(Type::CellState), Some(Value::CellState(0)));
    assert_eq!(Value::from_type(Type::Void), None);
    assert_eq!(Value::Int(7).ty(), Type::Int);
    assert_eq!(Value::CellState(7).ty(), Type::CellState);
    assert_eq!(Value::Int(7).as_int(), Ok(7));
    assert!(Value::Int(7).as_cell_state().is_err());
    assert!(Value::CellState(7).as_int().is_err());
}

#[test]
fn return_value_of_execute_result() {
    assert_eq!(ExecuteResult::Continue.return_value(), None);
    assert_eq!(ExecuteResult::Return(None).return_value(), None);
    assert_eq!(
        ExecuteResult::Return(Some(Value::Int(5))).return_value(),
        Some(Value::Int(5))
    );
}

#[test]
fn new_rejects_a_void_variable() {
    let f = Function {
        fn_type: FunctionType::Transition,
        vars: vec![("x".to_string(), Type::Void)],
        statements: Vec::new(),
    };
    match State::new(f, 100) {
        Err(e) => assert!(matches!(e.msg, LangErrorMsg::InternalError(_))),
        Ok(_) => panic!("a void-typed variable must be rejected"),
    }
}

fn set_int(name: &str, e: Spanned<IntExpr>) -> Spanned<Statement> {
    sp(Statement::SetVar { var_name: sp(name.to_string()), value_expr: Expr::Int(e) })
}

fn set_cell(name: &str, e: Spanned<CellStateExpr>) -> Spanned<Statement> {
    sp(Statement::SetVar { var_name: sp(name.to_string()), value_expr: Expr::CellState(e) })
}

fn become_cell(e: Spanned<CellStateExpr>) -> Spanned<Statement> {
    sp(Statement::Return(Expr::CellState(e)))
}

/// The demo transition function: x = 3, y = 2 - 10, y = y - 3, z = #(-y / x),
/// then branch on 3 * 99 % 2 == 1 to return #(10 / 3 * 3), else #98.
fn demo_function() -> Function {
    Function {
        fn_type: FunctionType::Transition,
        vars: vec![
            ("x".to_string(), Type::Int),
            ("y".to_string(), Type::Int),
            ("z".to_string(), Type::CellState),
        ],
        statements: vec![
            set_int("x", lit(3)),
            set_int("y", op(lit(2), MathOp::Sub, lit(10))),
            set_int("y", op(var("y"), MathOp::Sub, lit(3))),
            set_cell(
                "z",
                sp(CellStateExpr::FromId(Box::new(op(
                    sp(IntExpr::Neg(Box::new(var("y")))),
                    MathOp::Div,
                    var("x"),
                )))),
            ),
            sp(Statement::If {
                cond_expr: sp(IntExpr::CmpInt(CmpIntExpr {
                    initial: Box::new(op(
                        op(lit(3), MathOp::Mul, lit(99)),
                        MathOp::Rem,
                        lit(2),
                    )),
                    comparisons: vec![(Cmp::Eql, lit(1))],
                })),
                if_true: vec![become_cell(sp(CellStateExpr::FromId(Box::new(op(
                    op(lit(10), MathOp::Div, lit(3)),
                    MathOp::Mul,
                    lit(3),
                )))))],
                if_false: vec![become_cell(sp(CellStateExpr::FromId(Box::new(lit(98)))))],
            }),
        ],
    }
}

#[test]
fn end_to_end_demo_returns_nine() {
    assert_eq!(run_fn(demo_function(), 100), Ok(9));
}

#[test]
fn interpretation_is_deterministic() {
    let first = run_fn(demo_function(), 100);
    let second = run_fn(demo_function(), 100);
    assert_eq!(first, second);
}

#[test]
fn run_rule_and_interpret_agree_on_the_demo() {
    let rule = Rule { source_code: "@transition { ... }".to_string(), transition_fn: demo_function() };
    assert_eq!(run_rule(rule, 100), Ok(9));
    let rule = Rule { source_code: "@transition { ... }".to_string(), transition_fn: demo_function() };
    assert_eq!(interpret(rule, 100), Ok(Value::CellState(9)));
}

#[test]
fn run_reaches_end_without_value() {
    let f = Function {
        fn_type: FunctionType::Transition,
        vars: vec![],
        statements: vec![sp(Statement::End)],
    };
    let mut state = State::new(f, 100).unwrap();
    assert_eq!(state.run(), Ok(None));
}

#[test]
fn running_past_the_last_instruction_returns_nothing() {
    let f = Function { fn_type: FunctionType::Transition, vars: vec![], statements: vec![] };
    let mut state = State::new(f, 100).unwrap();
    assert_eq!(state.run(), Ok(None));
    // A step past the end keeps reporting the implicit end.
    match state.step() {
        Ok(ExecuteResult::Return(None)) => {},
        _ => panic!("stepping past the end must return no value"),
    }
}

#[test]
fn helper_functions_are_unimplemented() {
    let f = Function {
        fn_type: FunctionType::Helper(Type::Int),
        vars: vec![],
        statements: vec![sp(Statement::Return(Expr::Int(lit(1))))],
    };
    match run_fn(f, 100) {
        Err(e) => assert_eq!(e.msg, LangErrorMsg::Unimplemented),
        Ok(_) => panic!("helper functions are not executable"),
    }
}

#[test]
fn function_calls_are_unimplemented() {
    assert_eq!(
        eval(sp(IntExpr::FnCall("helper".to_string()))),
        Err(LangErrorMsg::Unimplemented)
    );
    assert_eq!(
        eval_cell(sp(CellStateExpr::FnCall("helper".to_string()))),
        Err(LangErrorMsg::Unimplemented)
    );
}

#[test]
fn ill_typed_assignment_is_an_internal_error() {
    // x is declared as an integer but assigned a cell state: the
    // interpreter defensively re-asserts what the checker should have
    // guaranteed.
    let f = Function {
        fn_type: FunctionType::Transition,
        vars: vec![("x".to_string(), Type::Int)],
        statements: vec![set_cell("x", sp(CellStateExpr::FromId(Box::new(lit(1)))))],
    };
    match run_fn(f, 100) {
        Err(e) => assert!(matches!(e.msg, LangErrorMsg::InternalError(_))),
        Ok(_) => panic!("an ill-typed assignment must fault"),
    }
}

#[test]
fn ill_typed_return_is_an_internal_error() {
    let f = Function {
        fn_type: FunctionType::Transition,
        vars: vec![],
        statements: vec![sp(Statement::Return(Expr::Int(lit(1))))],
    };
    match run_fn(f, 100) {
        Err(e) => assert!(matches!(e.msg, LangErrorMsg::InternalError(_))),
        Ok(_) => panic!("a transition function must return a cell state"),
    }
}

#[test]
fn malformed_branch_block_is_an_internal_error() {
    // After flattening, a branch's block must be empty or hold a single
    // goto; anything else surfaces as an internal error, never silently.
    let mut state = empty_state();
    state.instructions = vec![sp(Statement::If {
        cond_expr: lit(1),
        if_true: vec![sp(Statement::End)],
        if_false: vec![],
    })];
    match state.step() {
        Err(e) => assert!(matches!(e.msg, LangErrorMsg::InternalError(_))),
        other => panic!("a malformed block must fault, found {:?}", other),
    }
}

#[test]
fn faults_carry_the_offending_span() {
    let bad = Spanned {
        span: Span { start: 4, end: 9 },
        inner: IntExpr::Op {
            lhs: Box::new(lit(1)),
            op: MathOp::Div,
            rhs: Box::new(lit(0)),
        },
    };
    let state = empty_state();
    match state.eval_int_expr(&bad) {
        Err(e) => {
            assert_eq!(e.span, Some(Span { start: 4, end: 9 }));
            assert_eq!(e.msg, LangErrorMsg::DivideByZero);
        },
        Ok(_) => panic!("division by zero must fault"),
    }
}
