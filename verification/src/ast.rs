//! The abstract syntax tree that the (external) parser produces, and the
//! mathematical model of it that contracts speak of.
//!
//! Executable types hold `Vec`, `Box` and `String`; each has a ghost mirror
//! whose blocks are `Seq`s and whose names are `Seq<char>`s, reached through
//! the view functions at the end of this module.

use vstd::prelude::*;

use crate::span::{Span, Spanned};
use crate::types::{LangInt, Type};

verus! {

/// A comparison operator usable between integers.
#[derive(Debug, Clone, Copy, PartialEq, Eq, Structural)]
pub enum Cmp {
    /// `==`
    Eql,
    /// `!=`
    Neq,
    /// `<`
    Lt,
    /// `>`
    Gt,
    /// `<=`
    Lte,
    /// `>=`
    Gte,
}

/// A comparison operator usable between cell states (equality only).
#[derive(Debug, Clone, Copy, PartialEq, Eq, Structural)]
pub enum EqCmp {
    /// `==`
    Eql,
    /// `!=`
    Neq,
}

/// A binary arithmetic operator.
#[derive(Debug, Clone, Copy, PartialEq, Eq, Structural)]
pub enum MathOp {
    /// Checked addition.
    Add,
    /// Checked subtraction.
    Sub,
    /// Checked multiplication.
    Mul,
    /// Division (zero right operand faults before the operation).
    Div,
    /// Remainder (zero right operand faults before the operation).
    Rem,
    /// Exponentiation; recognized syntactically but unimplemented.
    Exp,
}

/// A chained comparison over integer expressions: an initial operand plus an
/// ordered sequence of `(operator, next operand)` pairs, e.g. `a < b < c`.
#[derive(Debug, PartialEq)]
pub struct CmpIntExpr {
    /// The leftmost operand.
    pub initial: Box<Spanned<IntExpr>>,
    /// Each comparison operator with its right-hand operand.
    pub comparisons: Vec<(Cmp, Spanned<IntExpr>)>,
}

/// A chained comparison over cell-state expressions (equality operators
/// only).
#[derive(Debug, PartialEq)]
pub struct CmpCellStateExpr {
    /// The leftmost operand.
    pub initial: Box<Spanned<CellStateExpr>>,
    /// Each comparison operator with its right-hand operand.
    pub comparisons: Vec<(EqCmp, Spanned<CellStateExpr>)>,
}

/// An expression of integer type.
#[derive(Debug, PartialEq)]
pub enum IntExpr {
    /// A helper-function call; recognized but unimplemented.
    FnCall(String),
    /// The current value of a variable.
    Var(String),
    /// An integer literal.
    Literal(LangInt),
    /// A binary arithmetic operation.
    Op {
        /// Left operand.
        lhs: Box<Spanned<IntExpr>>,
        /// The operator.
        op: MathOp,
        /// Right operand.
        rhs: Box<Spanned<IntExpr>>,
    },
    /// Checked negation.
    Neg(Box<Spanned<IntExpr>>),
    /// A chained comparison of integers, evaluating to `0` or `1`.
    CmpInt(CmpIntExpr),
    /// A chained comparison of cell states, evaluating to `0` or `1`.
    CmpCellState(CmpCellStateExpr),
}

/// An expression of cell-state type.
#[derive(Debug, PartialEq)]
pub enum CellStateExpr {
    /// A helper-function call; recognized but unimplemented.
    FnCall(String),
    /// The current value of a variable.
    Var(String),
    /// Conversion of an integer to the cell state with that identifier,
    /// faulting when the integer is out of range.
    FromId(Box<Spanned<IntExpr>>),
}

/// An expression of either type, together with its span.
#[derive(Debug, PartialEq)]
pub enum Expr {
    /// An integer expression.
    Int(Spanned<IntExpr>),
    /// A cell-state expression.
    CellState(Spanned<CellStateExpr>),
}

/// A statement of the language.
///
/// `Goto` is produced only by the flattening transform, never by the
/// parser.
#[derive(Debug, PartialEq)]
pub enum Statement {
    /// Assign the value of an expression to a variable.
    SetVar {
        /// The variable assigned to.
        var_name: Spanned<String>,
        /// The expression whose value is stored.
        value_expr: Expr,
    },
    /// Branch on an integer condition (nonzero is true).
    If {
        /// The condition.
        cond_expr: Spanned<IntExpr>,
        /// Statements executed when the condition is true.
        if_true: StatementBlock,
        /// Statements executed when the condition is false.
        if_false: StatementBlock,
    },
    /// End execution, producing the value of the expression.
    Return(Expr),
    /// End execution, producing no value.
    End,
    /// Set the program counter to the given index.  The interpreter advances
    /// the counter by one after every instruction, so the stored index is
    /// one less than the intended destination.
    Goto(usize),
}

/// An ordered sequence of spanned statements.
pub type StatementBlock = Vec<Spanned<Statement>>;

/// Whether a function is the rule's transition function or a helper.
#[derive(Debug, Clone, Copy, PartialEq, Eq, Structural)]
pub enum FunctionType {
    /// The transition function; must return a cell state.
    Transition,
    /// A helper function with the given return type; not executable yet.
    Helper(Type),
}

/// A function produced by the parser and checker: its kind, its declared
/// variables, and its body.
#[derive(Debug)]
pub struct Function {
    /// Transition function or helper.
    pub fn_type: FunctionType,
    /// Each declared variable with its type; names are unique.
    pub vars: Vec<(String, Type)>,
    /// The statements of the body.
    pub statements: StatementBlock,
}

/// A complete rule: its source text and its transition function.
#[derive(Debug)]
pub struct Rule {
    /// The original source text, kept for rendering diagnostics.
    pub source_code: String,
    /// The rule's transition function.
    pub transition_fn: Function,
}

// ---------------------------------------------------------------------------
// Ghost mirror of the tree, with `Seq` blocks and `Seq<char>` names.
// ---------------------------------------------------------------------------

/// Ghost mirror of [`CmpIntExpr`].
pub struct CmpIntExprView {
    /// The leftmost operand.
    pub initial: Box<Spanned<IntExprView>>,
    /// Each comparison operator with its right-hand operand.
    pub comparisons: Seq<(Cmp, Spanned<IntExprView>)>,
}

/// Ghost mirror of [`CmpCellStateExpr`].
pub struct CmpCellStateExprView {
    /// The leftmost operand.
    pub initial: Box<Spanned<CellStateExprView>>,
    /// Each comparison operator with its right-hand operand.
    pub comparisons: Seq<(EqCmp, Spanned<CellStateExprView>)>,
}

/// Ghost mirror of [`IntExpr`].
pub enum IntExprView {
    /// Mirror of [`IntExpr::FnCall`].
    FnCall(Seq<char>),
    /// Mirror of [`IntExpr::Var`].
    Var(Seq<char>),
    /// Mirror of [`IntExpr::Literal`].
    Literal(LangInt),
    /// Mirror of [`IntExpr::Op`].
    Op {
        /// Left operand.
        lhs: Box<Spanned<IntExprView>>,
        /// The operator.
        op: MathOp,
        /// Right operand.
        rhs: Box<Spanned<IntExprView>>,
    },
    /// Mirror of [`IntExpr::Neg`].
    Neg(Box<Spanned<IntExprView>>),
    /// Mirror of [`IntExpr::CmpInt`].
    CmpInt(CmpIntExprView),
    /// Mirror of [`IntExpr::CmpCellState`].
    CmpCellState(CmpCellStateExprView),
}

/// Ghost mirror of [`CellStateExpr`].
pub enum CellStateExprView {
    /// Mirror of [`CellStateExpr::FnCall`].
    FnCall(Seq<char>),
    /// Mirror of [`CellStateExpr::Var`].
    Var(Seq<char>),
    /// Mirror of [`CellStateExpr::FromId`].
    FromId(Box<Spanned<IntExprView>>),
}

/// Ghost mirror of [`Expr`].
pub enum ExprView {
    /// Mirror of [`Expr::Int`].
    Int(Spanned<IntExprView>),
    /// Mirror of [`Expr::CellState`].
    CellState(Spanned<CellStateExprView>),
}

/// Ghost mirror of [`Statement`].
pub enum StatementView {
    /// Mirror of [`Statement::SetVar`].
    SetVar {
        /// The variable assigned to.
        var_name: Spanned<Seq<char>>,
        /// The expression whose value is stored.
        value_expr: ExprView,
    },
    /// Mirror of [`Statement::If`].
    If {
        /// The condition.
        cond_expr: Spanned<IntExprView>,
        /// Statements executed when the condition is true.
        if_true: Seq<Spanned<StatementView>>,
        /// Statements executed when the condition is false.
        if_false: Seq<Spanned<StatementView>>,
    },
    /// Mirror of [`Statement::Return`].
    Return(ExprView),
    /// Mirror of [`Statement::End`].
    End,
    /// Mirror of [`Statement::Goto`].
    Goto(int),
}

// ---------------------------------------------------------------------------
// View functions.
// ---------------------------------------------------------------------------

/// The ghost mirror of a spanned integer expression.
pub open spec fn spanned_int_expr_view(e: Spanned<IntExpr>) -> Spanned<IntExprView>
    decreases e,
{
    Spanned { span: e.span, inner: int_expr_view(e.inner) }
}

/// The ghost mirror of a spanned cell-state expression.
pub open spec fn spanned_cell_expr_view(e: Spanned<CellStateExpr>) -> Spanned<CellStateExprView>
    decreases e,
{
    Spanned { span: e.span, inner: cell_expr_view(e.inner) }
}

/// The ghost mirror of an integer expression.
pub open spec fn int_expr_view(e: IntExpr) -> IntExprView
    decreases e,
{
    match e {
        IntExpr::FnCall(name) => IntExprView::FnCall(name@),
        IntExpr::Var(name) => IntExprView::Var(name@),
        IntExpr::Literal(i) => IntExprView::Literal(i),
        IntExpr::Op { lhs, op, rhs } => IntExprView::Op {
            lhs: Box::new(spanned_int_expr_view(*lhs)),
            op: op,
            rhs: Box::new(spanned_int_expr_view(*rhs)),
        },
        IntExpr::Neg(x) => IntExprView::Neg(Box::new(spanned_int_expr_view(*x))),
        IntExpr::CmpInt(c) => IntExprView::CmpInt(cmp_int_expr_view(c)),
        IntExpr::CmpCellState(c) => IntExprView::CmpCellState(cmp_cell_expr_view(c)),
    }
}

/// The ghost mirror of a cell-state expression.
pub open spec fn cell_expr_view(e: CellStateExpr) -> CellStateExprView
    decreases e,
{
    match e {
        CellStateExpr::FnCall(name) => CellStateExprView::FnCall(name@),
        CellStateExpr::Var(name) => CellStateExprView::Var(name@),
        CellStateExpr::FromId(x) => CellStateExprView::FromId(Box::new(spanned_int_expr_view(*x))),
    }
}

/// The ghost mirror of a chain's comparison pairs (integer case).
pub open spec fn int_pairs_view(s: Seq<(Cmp, Spanned<IntExpr>)>) -> Seq<(Cmp, Spanned<IntExprView>)>
    decreases s,
{
    if s.len() == 0 {
        Seq::empty()
    } else {
        int_pairs_view(s.drop_last()).push((s.last().0, spanned_int_expr_view(s.last().1)))
    }
}

/// The ghost mirror of a chain's comparison pairs (cell-state case).
pub open spec fn cell_pairs_view(s: Seq<(EqCmp, Spanned<CellStateExpr>)>) -> Seq<
    (EqCmp, Spanned<CellStateExprView>),
>
    decreases s,
{
    if s.len() == 0 {
        Seq::empty()
    } else {
        cell_pairs_view(s.drop_last()).push((s.last().0, spanned_cell_expr_view(s.last().1)))
    }
}

/// The ghost mirror of a chained integer comparison.
pub open spec fn cmp_int_expr_view(c: CmpIntExpr) -> CmpIntExprView
    decreases c,
{
    CmpIntExprView {
        initial: Box::new(spanned_int_expr_view(*c.initial)),
        comparisons: int_pairs_view(c.comparisons@),
    }
}

/// The ghost mirror of a chained cell-state comparison.
pub open spec fn cmp_cell_expr_view(c: CmpCellStateExpr) -> CmpCellStateExprView
    decreases c,
{
    CmpCellStateExprView {
        initial: Box::new(spanned_cell_expr_view(*c.initial)),
        comparisons: cell_pairs_view(c.comparisons@),
    }
}

/// `int_pairs_view` maps each pair to its view and keeps the length.
pub proof fn lemma_int_pairs_view_len(s: Seq<(Cmp, Spanned<IntExpr>)>)
    ensures
        int_pairs_view(s).len() == s.len(),
        forall|i: int|
            0 <= i < s.len() ==> #[trigger] int_pairs_view(s)[i] == (
            s[i].0,
            spanned_int_expr_view(s[i].1),
            ),
    decreases s,
{
    if s.len() > 0 {
        lemma_int_pairs_view_len(s.drop_last());
        assert forall|i: int| 0 <= i < s.len() implies #[trigger] int_pairs_view(s)[i] == (
            s[i].0,
            spanned_int_expr_view(s[i].1),
        ) by {
            if i < s.len() - 1 {
                assert(s.drop_last()[i] == s[i]);
            }
        }
    }
}

/// `cell_pairs_view` maps each pair to its view and keeps the length.
pub proof fn lemma_cell_pairs_view_len(s: Seq<(EqCmp, Spanned<CellStateExpr>)>)
    ensures
        cell_pairs_view(s).len() == s.len(),
        forall|i: int|
            0 <= i < s.len() ==> #[trigger] cell_pairs_view(s)[i] == (
            s[i].0,
            spanned_cell_expr_view(s[i].1),
            ),
    decreases s,
{
    if s.len() > 0 {
        lemma_cell_pairs_view_len(s.drop_last());
        assert forall|i: int| 0 <= i < s.len() implies #[trigger] cell_pairs_view(s)[i] == (
            s[i].0,
            spanned_cell_expr_view(s[i].1),
        ) by {
            if i < s.len() - 1 {
                assert(s.drop_last()[i] == s[i]);
            }
        }
    }
}

/// The ghost mirror of an expression of either type.
pub open spec fn expr_view(e: Expr) -> ExprView
    decreases e,
{
    match e {
        Expr::Int(se) => ExprView::Int(spanned_int_expr_view(se)),
        Expr::CellState(se) => ExprView::CellState(spanned_cell_expr_view(se)),
    }
}

/// The ghost mirror of a statement.
pub open spec fn stmt_view(s: Statement) -> StatementView
    decreases s,
{
    match s {
        Statement::SetVar { var_name, value_expr } => StatementView::SetVar {
            var_name: Spanned { span: var_name.span, inner: var_name.inner@ },
            value_expr: expr_view(value_expr),
        },
        Statement::If { cond_expr, if_true, if_false } => StatementView::If {
            cond_expr: spanned_int_expr_view(cond_expr),
            if_true: block_view(if_true@),
            if_false: block_view(if_false@),
        },
        Statement::Return(e) => StatementView::Return(expr_view(e)),
        Statement::End => StatementView::End,
        Statement::Goto(idx) => StatementView::Goto(idx as int),
    }
}

/// The ghost mirror of a statement block.
pub open spec fn block_view(s: Seq<Spanned<Statement>>) -> Seq<Spanned<StatementView>>
    decreases s,
{
    if s.len() == 0 {
        Seq::empty()
    } else {
        block_view(s.drop_last()).push(
            Spanned { span: s.last().span, inner: stmt_view(s.last().inner) },
        )
    }
}

impl View for IntExpr {
    type V = IntExprView;

    open spec fn view(&self) -> IntExprView {
        int_expr_view(*self)
    }
}

impl View for CellStateExpr {
    type V = CellStateExprView;

    open spec fn view(&self) -> CellStateExprView {
        cell_expr_view(*self)
    }
}

impl View for Expr {
    type V = ExprView;

    open spec fn view(&self) -> ExprView {
        expr_view(*self)
    }
}

impl View for Statement {
    type V = StatementView;

    open spec fn view(&self) -> StatementView {
        stmt_view(*self)
    }
}

/// `block_view` maps each element to its view and keeps the length.
pub proof fn lemma_block_view_len(s: Seq<Spanned<Statement>>)
    ensures
        block_view(s).len() == s.len(),
        forall|i: int| 0 <= i < s.len() ==> block_view(s)[i] == #[trigger] s[i]@,
    decreases s,
{
    if s.len() > 0 {
        lemma_block_view_len(s.drop_last());
        assert forall|i: int| 0 <= i < s.len() implies block_view(s)[i] == #[trigger] s[i]@ by {
            if i < s.len() - 1 {
                assert(s.drop_last()[i] == s[i]);
            }
        }
    }
}

// ---------------------------------------------------------------------------
// Which variables a piece of the tree reads or writes.  The interpreter can
// execute a statement only when every variable it mentions is declared.
// ---------------------------------------------------------------------------

/// Every variable the integer expression mentions is in `dom`.
pub open spec fn int_expr_vars_declared(e: IntExprView, dom: Set<Seq<char>>) -> bool
    decreases e,
{
    match e {
        IntExprView::FnCall(_) => true,
        IntExprView::Var(name) => dom.contains(name),
        IntExprView::Literal(_) => true,
        IntExprView::Op { lhs, op, rhs } => int_expr_vars_declared(lhs.inner, dom)
            && int_expr_vars_declared(rhs.inner, dom),
        IntExprView::Neg(x) => int_expr_vars_declared(x.inner, dom),
        IntExprView::CmpInt(c) => int_expr_vars_declared(c.initial.inner, dom)
            && int_pairs_vars_declared(c.comparisons, dom),
        IntExprView::CmpCellState(c) => cell_expr_vars_declared(c.initial.inner, dom)
            && cell_pairs_vars_declared(c.comparisons, dom),
    }
}

/// Every variable the comparison pairs mention is in `dom` (integer case).
pub open spec fn int_pairs_vars_declared(
    s: Seq<(Cmp, Spanned<IntExprView>)>,
    dom: Set<Seq<char>>,
) -> bool
    decreases s,
{
    forall|i: int|
        0 <= i < s.len() ==> int_expr_vars_declared(#[trigger] s[i].1.inner, dom)
}

/// Every variable the cell-state expression mentions is in `dom`.
pub open spec fn cell_expr_vars_declared(e: CellStateExprView, dom: Set<Seq<char>>) -> bool
    decreases e,
{
    match e {
        CellStateExprView::FnCall(_) => true,
        CellStateExprView::Var(name) => dom.contains(name),
        CellStateExprView::FromId(x) => int_expr_vars_declared(x.inner, dom),
    }
}

/// Every variable the comparison pairs mention is in `dom` (cell-state
/// case).
pub open spec fn cell_pairs_vars_declared(
    s: Seq<(EqCmp, Spanned<CellStateExprView>)>,
    dom: Set<Seq<char>>,
) -> bool
    decreases s,
{
    forall|i: int|
        0 <= i < s.len() ==> cell_expr_vars_declared(#[trigger] s[i].1.inner, dom)
}

/// Every variable the expression mentions is in `dom`.
pub open spec fn expr_vars_declared(e: ExprView, dom: Set<Seq<char>>) -> bool {
    match e {
        ExprView::Int(se) => int_expr_vars_declared(se.inner, dom),
        ExprView::CellState(se) => cell_expr_vars_declared(se.inner, dom),
    }
}

/// Every variable the statement mentions, nested blocks included, is in
/// `dom`.
pub open spec fn stmt_vars_declared(s: StatementView, dom: Set<Seq<char>>) -> bool
    decreases s,
{
    match s {
        StatementView::SetVar { var_name, value_expr } => dom.contains(var_name.inner)
            && expr_vars_declared(value_expr, dom),
        StatementView::If { cond_expr, if_true, if_false } => int_expr_vars_declared(
            cond_expr.inner,
            dom,
        ) && block_vars_declared(if_true, dom) && block_vars_declared(if_false, dom),
        StatementView::Return(e) => expr_vars_declared(e, dom),
        StatementView::End => true,
        StatementView::Goto(_) => true,
    }
}

/// Every variable the block mentions, nested blocks included, is in `dom`.
pub open spec fn block_vars_declared(b: Seq<Spanned<StatementView>>, dom: Set<Seq<char>>) -> bool
    decreases b,
{
    forall|i: int| 0 <= i < b.len() ==> stmt_vars_declared(#[trigger] b[i].inner, dom)
}

/// `stmt_view` mirrors the statement's constructor: a statement is a branch
/// exactly when its view is.
pub proof fn lemma_stmt_view_if(s: Statement)
    ensures
        s matches Statement::If { cond_expr, if_true, if_false } ==> stmt_view(s) == (
        StatementView::If {
            cond_expr: spanned_int_expr_view(cond_expr),
            if_true: block_view(if_true@),
            if_false: block_view(if_false@),
        }),
        !(s matches Statement::If { .. }) ==> !(stmt_view(s) matches StatementView::If { .. }),
{
    match s {
        Statement::SetVar { .. } => {},
        Statement::If { .. } => {},
        Statement::Return(..) => {},
        Statement::End => {},
        Statement::Goto(..) => {},
    }
}

/// Static types of expressions, as the checker assigned them.
impl Expr {
    /// The static type of the expression.
    pub fn ty(&self) -> (t: Type)
        ensures
            t == self@.ty(),
    {
        match self {
            Expr::Int(_) => Type::Int,
            Expr::CellState(_) => Type::CellState,
        }
    }

    /// The span of the expression.
    pub fn span(&self) -> (s: Span)
        ensures
            s == self@.span(),
    {
        match self {
            Expr::Int(e) => e.span,
            Expr::CellState(e) => e.span,
        }
    }
}

impl ExprView {
    /// The static type of the mirrored expression.
    pub open spec fn ty(self) -> Type {
        match self {
            ExprView::Int(_) => Type::Int,
            ExprView::CellState(_) => Type::CellState,
        }
    }

    /// The span of the mirrored expression.
    pub open spec fn span(self) -> Span {
        match self {
            ExprView::Int(e) => e.span,
            ExprView::CellState(e) => e.span,
        }
    }
}

} // verus!
