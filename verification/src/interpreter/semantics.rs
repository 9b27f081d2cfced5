//! The mathematical semantics of the language: what an expression evaluates
//! to, and what one interpreter step does.  The executable interpreter in
//! the parent module is proved to agree with these functions exactly.

use vstd::prelude::*;

use crate::ast::{
    Cmp, EqCmp, ExprView, FunctionType, IntExprView, CellStateExprView, MathOp, StatementView,
};
use crate::errors::{LangErrorMsgView, LangErrorView};
use crate::flatten::flat_wf;
use crate::interpreter::Value;
use crate::span::{Span, Spanned};
use crate::types::{LangCellState, LangInt, Type};

verus! {

/// The variable store: each declared variable's current value, by name.
pub type VarMap = Map<Seq<char>, Value>;

/// An error attributed to the given span.
pub open spec fn err_at(msg: LangErrorMsgView, span: Span) -> LangErrorView {
    LangErrorView { span: Some(span), msg }
}

/// An error without a source location.
pub open spec fn err_plain(msg: LangErrorMsgView) -> LangErrorView {
    LangErrorView { span: None::<Span>, msg }
}

/// The internal error raised when an assignment's types disagree.
pub open spec fn bad_assignment_error() -> LangErrorView {
    err_plain(
        LangErrorMsgView::InternalError(
            "Invalid variable assignment not caught by type checker"@,
        ),
    )
}

/// The internal error raised when a `Return` is ill-typed.
pub open spec fn bad_return_error() -> LangErrorView {
    err_plain(
        LangErrorMsgView::InternalError("Invalid return statement not caught by type checker"@),
    )
}

/// The internal error raised when a branch's block is neither empty nor a
/// single `Goto` after flattening.
pub open spec fn bad_block_error() -> LangErrorView {
    err_plain(
        LangErrorMsgView::InternalError("Block in interpreter did not contain GOTO statement"@),
    )
}

/// Whether an integer comparison holds.
pub open spec fn cmp_holds(op: Cmp, l: LangInt, r: LangInt) -> bool {
    match op {
        Cmp::Eql => l == r,
        Cmp::Neq => l != r,
        Cmp::Lt => l < r,
        Cmp::Gt => l > r,
        Cmp::Lte => l <= r,
        Cmp::Gte => l >= r,
    }
}

/// Whether a cell-state comparison holds.
pub open spec fn eq_cmp_holds(op: EqCmp, l: LangCellState, r: LangCellState) -> bool {
    match op {
        EqCmp::Eql => l == r,
        EqCmp::Neq => l != r,
    }
}

/// The result of one binary arithmetic operation: a zero right operand
/// faults a division or remainder before the operation is attempted; the
/// operations themselves are overflow-checked and fault with the
/// operation-specific overflow kind.
pub open spec fn eval_math_op(op: MathOp, l: LangInt, r: LangInt, span: Span) -> Result<
    LangInt,
    LangErrorView,
> {
    if (op == MathOp::Div || op == MathOp::Rem) && r == 0 {
        Err(err_at(LangErrorMsgView::DivideByZero, span))
    } else {
        match op {
            MathOp::Add => match l.checked_add(r) {
                Some(v) => Ok(v),
                None => Err(err_at(LangErrorMsgView::IntegerOverflowDuringAddition, span)),
            },
            MathOp::Sub => match l.checked_sub(r) {
                Some(v) => Ok(v),
                None => Err(err_at(LangErrorMsgView::IntegerOverflowDuringSubtraction, span)),
            },
            MathOp::Mul => match l.checked_mul(r) {
                Some(v) => Ok(v),
                None => Err(err_at(LangErrorMsgView::IntegerOverflowDuringMultiplication, span)),
            },
            MathOp::Div => match l.checked_div(r) {
                Some(v) => Ok(v),
                None => Err(err_at(LangErrorMsgView::IntegerOverflowDuringDivision, span)),
            },
            MathOp::Rem => match l.checked_rem(r) {
                Some(v) => Ok(v),
                None => Err(err_at(LangErrorMsgView::IntegerOverflowDuringRemainder, span)),
            },
            MathOp::Exp => Err(err_at(LangErrorMsgView::Unimplemented, span)),
        }
    }
}

/// What a spanned integer expression evaluates to under the given variable
/// store and cell-state count, or the first fault encountered.
pub open spec fn eval_int_spec(vars: VarMap, csc: int, e: Spanned<IntExprView>) -> Result<
    LangInt,
    LangErrorView,
>
    decreases e,
{
    match e.inner {
        IntExprView::FnCall(_) => Err(err_at(LangErrorMsgView::Unimplemented, e.span)),
        IntExprView::Var(name) => match vars[name] {
            Value::Int(i) => Ok(i),
            _ => Err(crate::interpreter::narrowing_error_view()),
        },
        IntExprView::Literal(i) => Ok(i),
        IntExprView::Op { lhs, op, rhs } => match eval_int_spec(vars, csc, *lhs) {
            Err(er) => Err(er),
            Ok(l) => match eval_int_spec(vars, csc, *rhs) {
                Err(er) => Err(er),
                Ok(r) => eval_math_op(op, l, r, e.span),
            },
        },
        IntExprView::Neg(x) => match eval_int_spec(vars, csc, *x) {
            Err(er) => Err(er),
            Ok(v) => if v == LangInt::MIN {
                Err(err_at(LangErrorMsgView::IntegerOverflowDuringNegation, e.span))
            } else {
                Ok((-(v as int)) as LangInt)
            },
        },
        IntExprView::CmpInt(c) => match eval_int_spec(vars, csc, *c.initial) {
            Err(er) => Err(er),
            Ok(l) => eval_chain_int_spec(vars, csc, l, c.comparisons),
        },
        IntExprView::CmpCellState(c) => match eval_cell_spec(vars, csc, *c.initial) {
            Err(er) => Err(er),
            Ok(l) => eval_chain_cell_spec(vars, csc, l, c.comparisons),
        },
    }
}

/// The rest of a chained integer comparison, given the value of the operand
/// to the left of the first remaining operator: `0` as soon as one
/// comparison is false (remaining operands are not evaluated), `1` when
/// every comparison holds.
pub open spec fn eval_chain_int_spec(
    vars: VarMap,
    csc: int,
    lhs: LangInt,
    pairs: Seq<(Cmp, Spanned<IntExprView>)>,
) -> Result<LangInt, LangErrorView>
    decreases pairs,
{
    if pairs.len() == 0 {
        Ok(1)
    } else {
        match eval_int_spec(vars, csc, pairs[0].1) {
            Err(er) => Err(er),
            Ok(rhs) => if !cmp_holds(pairs[0].0, lhs, rhs) {
                Ok(0)
            } else {
                eval_chain_int_spec(vars, csc, rhs, pairs.drop_first())
            },
        }
    }
}

/// The rest of a chained cell-state comparison; see
/// [`eval_chain_int_spec`].
pub open spec fn eval_chain_cell_spec(
    vars: VarMap,
    csc: int,
    lhs: LangCellState,
    pairs: Seq<(EqCmp, Spanned<CellStateExprView>)>,
) -> Result<LangInt, LangErrorView>
    decreases pairs,
{
    if pairs.len() == 0 {
        Ok(1)
    } else {
        match eval_cell_spec(vars, csc, pairs[0].1) {
            Err(er) => Err(er),
            Ok(rhs) => if !eq_cmp_holds(pairs[0].0, lhs, rhs) {
                Ok(0)
            } else {
                eval_chain_cell_spec(vars, csc, rhs, pairs.drop_first())
            },
        }
    }
}

/// What a spanned cell-state expression evaluates to.  `FromId` converts an
/// integer to a cell state exactly when it lies in `[0, csc)`.
pub open spec fn eval_cell_spec(vars: VarMap, csc: int, e: Spanned<CellStateExprView>) -> Result<
    LangCellState,
    LangErrorView,
>
    decreases e,
{
    match e.inner {
        CellStateExprView::FnCall(_) => Err(err_at(LangErrorMsgView::Unimplemented, e.span)),
        CellStateExprView::Var(name) => match vars[name] {
            Value::CellState(c) => Ok(c),
            _ => Err(crate::interpreter::narrowing_error_view()),
        },
        CellStateExprView::FromId(id_expr) => match eval_int_spec(vars, csc, *id_expr) {
            Err(er) => Err(er),
            Ok(v) => if 0 <= v < csc {
                Ok(v as LangCellState)
            } else {
                Err(err_at(LangErrorMsgView::CellStateOutOfRange, e.span))
            },
        },
    }
}

// ---------------------------------------------------------------------------
// One interpreter step, and a whole run.
// ---------------------------------------------------------------------------

/// What one interpreter step does.
pub enum StepView {
    /// More instructions remain: the new program counter and variable
    /// store.
    Continue {
        /// The program counter after the step.
        pc: int,
        /// The variable store after the step.
        vars: VarMap,
    },
    /// Execution finished, possibly with a value.
    Halt(Option<Value>),
    /// Execution faulted.
    Fault(LangErrorView),
}

/// The program counter a branch's replacement block dispatches to (before
/// the universal post-instruction increment): an empty block leaves the
/// counter unchanged, a block whose first statement is a `Goto` jumps to its
/// stored target, and any other shape is an internal error.
pub open spec fn goto_block_spec(arm: Seq<Spanned<StatementView>>, pc: int) -> Result<
    int,
    LangErrorView,
> {
    if arm.len() == 0 {
        Ok(pc)
    } else if arm[0].inner matches StatementView::Goto(t) {
        Ok(arm[0].inner->Goto_0)
    } else {
        Err(bad_block_error())
    }
}

/// What executing the instruction under the program counter does.  A
/// counter at or past the end of the sequence halts with no value.  After
/// any non-halting instruction the counter advances by exactly one, a
/// `Goto` and a branch dispatch included: their stored targets are
/// pre-decremented.
pub open spec fn step_spec(
    instrs: Seq<Spanned<StatementView>>,
    pc: int,
    vars: VarMap,
    ft: FunctionType,
    csc: int,
) -> StepView {
    if !(0 <= pc < instrs.len()) {
        StepView::Halt(None::<Value>)
    } else {
        match instrs[pc].inner {
            StatementView::SetVar { var_name, value_expr } => {
                if vars[var_name.inner].ty_spec() != value_expr.ty() {
                    StepView::Fault(bad_assignment_error())
                } else {
                    match value_expr {
                        ExprView::Int(e) => match eval_int_spec(vars, csc, e) {
                            Err(er) => StepView::Fault(er),
                            Ok(i) => StepView::Continue {
                                pc: pc + 1,
                                vars: vars.insert(var_name.inner, Value::Int(i)),
                            },
                        },
                        ExprView::CellState(e) => match eval_cell_spec(vars, csc, e) {
                            Err(er) => StepView::Fault(er),
                            Ok(c) => StepView::Continue {
                                pc: pc + 1,
                                vars: vars.insert(var_name.inner, Value::CellState(c)),
                            },
                        },
                    }
                }
            },
            StatementView::If { cond_expr, if_true, if_false } => {
                match eval_int_spec(vars, csc, cond_expr) {
                    Err(er) => StepView::Fault(er),
                    Ok(c) => {
                        let arm = if c != 0 {
                            if_true
                        } else {
                            if_false
                        };
                        match goto_block_spec(arm, pc) {
                            Err(er) => StepView::Fault(er),
                            Ok(p) => StepView::Continue { pc: p + 1, vars },
                        }
                    },
                }
            },
            StatementView::Return(e) => match ft {
                FunctionType::Transition => {
                    if e.ty() != Type::CellState {
                        StepView::Fault(bad_return_error())
                    } else {
                        match e {
                            ExprView::CellState(ce) => match eval_cell_spec(vars, csc, ce) {
                                Err(er) => StepView::Fault(er),
                                Ok(c) => StepView::Halt(Some(Value::CellState(c))),
                            },
                            ExprView::Int(_) => StepView::Fault(bad_return_error()),
                        }
                    }
                },
                FunctionType::Helper(_) => StepView::Fault(
                    err_at(LangErrorMsgView::Unimplemented, e.span()),
                ),
            },
            StatementView::End => StepView::Halt(None::<Value>),
            StatementView::Goto(t) => StepView::Continue { pc: t + 1, vars },
        }
    }
}

/// In a flattened sequence, every continuing step moves the program counter
/// strictly forward and keeps it within one past the end.
pub proof fn lemma_step_continue_bounds(
    instrs: Seq<Spanned<StatementView>>,
    pc: int,
    vars: VarMap,
    ft: FunctionType,
    csc: int,
)
    requires
        flat_wf(instrs),
        0 <= pc,
    ensures
        step_spec(instrs, pc, vars, ft, csc) matches StepView::Continue { pc: pc2, .. } ==> pc
            < pc2 <= instrs.len(),
{
    if 0 <= pc < instrs.len() {
        assert(crate::flatten::stmt_flat(instrs[pc].inner, pc, instrs.len() as int));
    }
}

/// What a whole run from the given program counter produces: the value of
/// the first `Return` or `End` reached (or of running past the end), or the
/// first fault.  Well-defined for sequences in flattened form, where the
/// program counter moves strictly forward.
pub open spec fn run_spec(
    instrs: Seq<Spanned<StatementView>>,
    pc: int,
    vars: VarMap,
    ft: FunctionType,
    csc: int,
) -> Result<Option<Value>, LangErrorView>
    decreases instrs.len() - pc,
    when 0 <= pc && flat_wf(instrs)
    via run_spec_decreases
{
    match step_spec(instrs, pc, vars, ft, csc) {
        StepView::Continue { pc: pc2, vars: vars2 } => run_spec(instrs, pc2, vars2, ft, csc),
        StepView::Halt(v) => Ok(v),
        StepView::Fault(e) => Err(e),
    }
}

#[via_fn]
proof fn run_spec_decreases(
    instrs: Seq<Spanned<StatementView>>,
    pc: int,
    vars: VarMap,
    ft: FunctionType,
    csc: int,
) {
    lemma_step_continue_bounds(instrs, pc, vars, ft, csc);
}

// ---------------------------------------------------------------------------
// Laws of the evaluation semantics.
// ---------------------------------------------------------------------------

/// Law: any integer division or remainder whose right operand evaluates to
/// zero faults with the divide-by-zero error, before the arithmetic
/// operation is attempted — whatever the left operand's value.
pub proof fn lemma_division_by_zero_faults(
    vars: VarMap,
    csc: int,
    span: Span,
    op: MathOp,
    lhs: Box<Spanned<IntExprView>>,
    rhs: Box<Spanned<IntExprView>>,
)
    requires
        op == MathOp::Div || op == MathOp::Rem,
        eval_int_spec(vars, csc, *lhs) is Ok,
        eval_int_spec(vars, csc, *rhs) == Ok::<LangInt, LangErrorView>(0),
    ensures
        eval_int_spec(vars, csc, Spanned { span, inner: IntExprView::Op { lhs, op, rhs } })
            == Err::<LangInt, LangErrorView>(err_at(LangErrorMsgView::DivideByZero, span)),
{
}

/// Law: a chained comparison short-circuits.  As soon as one comparison is
/// false, the chain evaluates to `0`, whatever operands follow it.
pub proof fn lemma_chain_short_circuit(
    vars: VarMap,
    csc: int,
    lhs: LangInt,
    pairs: Seq<(Cmp, Spanned<IntExprView>)>,
    rhs: LangInt,
)
    requires
        pairs.len() > 0,
        eval_int_spec(vars, csc, pairs[0].1) == Ok::<LangInt, LangErrorView>(rhs),
        !cmp_holds(pairs[0].0, lhs, rhs),
    ensures
        eval_chain_int_spec(vars, csc, lhs, pairs) == Ok::<LangInt, LangErrorView>(0),
{
}

/// Law: converting an integer to a cell state succeeds exactly when the
/// integer lies in `[0, csc)`, and then round-trips to the same value;
/// outside that range it faults with the range error.
pub proof fn lemma_from_id_range(
    vars: VarMap,
    csc: int,
    span: Span,
    id_expr: Box<Spanned<IntExprView>>,
    v: LangInt,
)
    requires
        0 < csc <= 256,
        eval_int_spec(vars, csc, *id_expr) == Ok::<LangInt, LangErrorView>(v),
    ensures
        0 <= v < csc ==> eval_cell_spec(
            vars,
            csc,
            Spanned { span, inner: CellStateExprView::FromId(id_expr) },
        ) == Ok::<LangCellState, LangErrorView>(v as LangCellState) && (v as LangCellState)
            as LangInt == v,
        !(0 <= v < csc) ==> eval_cell_spec(
            vars,
            csc,
            Spanned { span, inner: CellStateExprView::FromId(id_expr) },
        ) == Err::<LangCellState, LangErrorView>(
            err_at(LangErrorMsgView::CellStateOutOfRange, span),
        ),
{
}

/// Law: a branch whose selected replacement block is empty falls through —
/// executing it advances the program counter by exactly one past the
/// branch.
pub proof fn lemma_empty_arm_falls_through(
    instrs: Seq<Spanned<StatementView>>,
    pc: int,
    vars: VarMap,
    ft: FunctionType,
    csc: int,
    c: LangInt,
)
    requires
        0 <= pc < instrs.len(),
        instrs[pc].inner matches StatementView::If { cond_expr, if_true, if_false } && eval_int_spec(
            vars,
            csc,
            cond_expr,
        ) == Ok::<LangInt, LangErrorView>(c) && (if c != 0 {
            if_true
        } else {
            if_false
        }).len() == 0,
    ensures
        step_spec(instrs, pc, vars, ft, csc) == (StepView::Continue { pc: pc + 1, vars }),
{
}

} // verus!

