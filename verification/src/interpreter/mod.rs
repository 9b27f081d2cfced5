//! The tree-walking interpreter: a program-counter-driven state machine
//! over the flattened instruction sequence.
//!
//! Every public function is proved to agree exactly with the mathematical
//! semantics in [`semantics`].

use vstd::prelude::*;

pub mod semantics;
mod value;

pub use value::narrowing_error_view;
pub use value::Value;

use crate::ast::{
    block_view, block_vars_declared, cell_expr_view, cmp_cell_expr_view, cmp_int_expr_view,
    cell_pairs_vars_declared, int_expr_view, int_pairs_vars_declared,
    cell_expr_vars_declared, int_expr_vars_declared, lemma_block_view_len,
    lemma_cell_pairs_view_len, lemma_int_pairs_view_len, spanned_cell_expr_view,
    spanned_int_expr_view, stmt_vars_declared, CellStateExpr, Cmp, CmpCellStateExpr, CmpIntExpr,
    EqCmp, Expr, Function, FunctionType, IntExpr, IntExprView, MathOp, Rule, Statement,
    StatementBlock, StatementView,
};
use crate::errors::{
    CompleteLangResult, LangError, LangErrorMsg, LangErrorMsgView, LangErrorView, LangResult,
};
use crate::flatten::{flat_wf, flatten_block, flatten_spec, block_no_goto};
use crate::interpreter::semantics::{
    cmp_holds, eq_cmp_holds, err_plain, eval_cell_spec, eval_chain_cell_spec,
    eval_chain_int_spec, eval_int_spec, goto_block_spec, run_spec, step_spec, StepView, VarMap,
};
use crate::span::{Span, Spanned};
use crate::types::{LangCellState, LangInt, Type};

verus! {

broadcast use vstd::std_specs::vec::group_vec_axioms;

// ---------------------------------------------------------------------------
// The variable store: a vector of unique names with their current values,
// modelled as a map from name to value.
// ---------------------------------------------------------------------------

/// The map a variable store represents.
pub open spec fn kv_map(s: Seq<(String, Value)>) -> VarMap
    decreases s,
{
    if s.len() == 0 {
        Map::empty()
    } else {
        kv_map(s.drop_last()).insert(s.last().0@, s.last().1)
    }
}

/// No two entries of the store share a name.
pub open spec fn keys_unique(s: Seq<(String, Value)>) -> bool {
    forall|i: int, j: int| 0 <= i < j < s.len() ==> s[i].0@ != s[j].0@
}

/// A name is in the represented map exactly when some entry holds it.
proof fn lemma_kv_map_contains(s: Seq<(String, Value)>, k: Seq<char>)
    ensures
        kv_map(s).dom().contains(k) <==> exists|i: int| 0 <= i < s.len() && s[i].0@ == k,
    decreases s,
{
    if s.len() > 0 {
        lemma_kv_map_contains(s.drop_last(), k);
        if kv_map(s).dom().contains(k) && s.last().0@ != k {
            let i = choose|i: int| 0 <= i < s.len() - 1 && s.drop_last()[i].0@ == k;
            assert(s[i].0@ == k);
        }
        if exists|i: int| 0 <= i < s.len() && s[i].0@ == k {
            let i = choose|i: int| 0 <= i < s.len() && s[i].0@ == k;
            if i < s.len() - 1 {
                assert(s.drop_last()[i].0@ == k);
            }
        }
    }
}

/// With unique names, entry `i` gives the represented map's value at its
/// name.
proof fn lemma_kv_map_index(s: Seq<(String, Value)>, i: int)
    requires
        keys_unique(s),
        0 <= i < s.len(),
    ensures
        kv_map(s).dom().contains(s[i].0@),
        kv_map(s)[s[i].0@] == s[i].1,
    decreases s,
{
    if i == s.len() - 1 {
    } else {
        assert(keys_unique(s.drop_last()));
        assert(s.drop_last()[i] == s[i]);
        lemma_kv_map_index(s.drop_last(), i);
        assert(s[i].0@ != s.last().0@);
    }
}

/// Overwriting entry `i`'s value updates the represented map at its name.
proof fn lemma_kv_map_update(s: Seq<(String, Value)>, i: int, nm: String, v: Value)
    requires
        keys_unique(s),
        0 <= i < s.len(),
        nm@ == s[i].0@,
    ensures
        kv_map(s.update(i, (nm, v))) == kv_map(s).insert(s[i].0@, v),
        keys_unique(s.update(i, (nm, v))),
    decreases s,
{
    let su = s.update(i, (nm, v));
    assert forall|a: int, b: int| 0 <= a < b < su.len() implies su[a].0@ != su[b].0@ by {
        assert(s[a].0@ != s[b].0@);
    }
    if i == s.len() - 1 {
        assert(su.drop_last() =~= s.drop_last());
        assert(su.last() == (nm, v));
        assert(kv_map(su) == kv_map(s.drop_last()).insert(s[i].0@, v));
        assert(kv_map(s) == kv_map(s.drop_last()).insert(s[i].0@, s[i].1));
        assert(kv_map(s.drop_last()).insert(s[i].0@, v) =~= kv_map(s).insert(s[i].0@, v));
    } else {
        assert(keys_unique(s.drop_last()));
        assert(s.drop_last()[i] == s[i]);
        lemma_kv_map_update(s.drop_last(), i, nm, v);
        assert(su.drop_last() =~= s.drop_last().update(i, (nm, v)));
        assert(su.last() == s.last());
        assert(s[i].0@ != s.last().0@);
        assert(kv_map(su) == kv_map(s.drop_last()).insert(s[i].0@, v).insert(
            s.last().0@,
            s.last().1,
        ));
        assert(kv_map(s.drop_last()).insert(s[i].0@, v).insert(s.last().0@, s.last().1)
            =~= kv_map(s).insert(s[i].0@, v));
    }
}

/// Finds the entry holding the given name.
fn find_var(vars: &Vec<(String, Value)>, name: &String) -> (i: usize)
    requires
        exists|j: int| 0 <= j < vars@.len() && vars@[j].0@ == name@,
    ensures
        i < vars@.len(),
        vars@[i as int].0@ == name@,
{
    let mut i: usize = 0;
    while i < vars.len()
        invariant
            i <= vars@.len(),
            exists|j: int| i <= j < vars@.len() && vars@[j].0@ == name@,
        decreases vars@.len() - i,
    {
        if vars[i].0 == *name {
            return i;
        }
        i = i + 1;
    }
    proof {
        assert(false);
    }
    i
}

/// Reads a declared variable's current value.
fn get_var(vars: &Vec<(String, Value)>, name: &String) -> (v: Value)
    requires
        keys_unique(vars@),
        kv_map(vars@).dom().contains(name@),
    ensures
        v == kv_map(vars@)[name@],
{
    proof {
        lemma_kv_map_contains(vars@, name@);
    }
    let i = find_var(vars, name);
    proof {
        lemma_kv_map_index(vars@, i as int);
    }
    vars[i].1
}

/// Overwrites a declared variable's current value.
fn store_var(vars: &mut Vec<(String, Value)>, name: &String, v: Value)
    requires
        keys_unique(old(vars)@),
        kv_map(old(vars)@).dom().contains(name@),
    ensures
        keys_unique(final(vars)@),
        kv_map(final(vars)@) == kv_map(old(vars)@).insert(name@, v),
{
    proof {
        lemma_kv_map_contains(vars@, name@);
    }
    let i = find_var(vars, name);
    let nm = vars[i].0.clone();
    vars[i] = (nm, v);
    proof {
        lemma_kv_map_update(old(vars)@, i as int, nm, v);
    }
}

// ---------------------------------------------------------------------------
// Building the initial variable store from the declared variables.
// ---------------------------------------------------------------------------

/// The ghost mirror of the declared-variable list.
pub open spec fn decls_view(s: Seq<(String, Type)>) -> Seq<(Seq<char>, Type)>
    decreases s,
{
    if s.len() == 0 {
        Seq::empty()
    } else {
        decls_view(s.drop_last()).push((s.last().0@, s.last().1))
    }
}

/// `decls_view` maps each entry to its view and keeps the length.
pub proof fn lemma_decls_view_len(s: Seq<(String, Type)>)
    ensures
        decls_view(s).len() == s.len(),
        forall|i: int| 0 <= i < s.len() ==> #[trigger] decls_view(s)[i] == (s[i].0@, s[i].1),
    decreases s,
{
    if s.len() > 0 {
        lemma_decls_view_len(s.drop_last());
        assert forall|i: int| 0 <= i < s.len() implies #[trigger] decls_view(s)[i] == (
            s[i].0@,
            s[i].1,
        ) by {
            if i < s.len() - 1 {
                assert(s.drop_last()[i] == s[i]);
            }
        }
    }
}

/// No two declared variables share a name.
pub open spec fn decl_keys_unique(ds: Seq<(Seq<char>, Type)>) -> bool {
    forall|i: int, j: int| 0 <= i < j < ds.len() ==> ds[i].0 != ds[j].0
}

/// The set of declared names.
pub open spec fn decl_keys(ds: Seq<(Seq<char>, Type)>) -> Set<Seq<char>> {
    Set::new(|k: Seq<char>| exists|i: int| 0 <= i < ds.len() && ds[i].0 == k)
}

/// The internal error raised when a declared variable's type has no runtime
/// values.
pub open spec fn bad_var_type_error() -> LangErrorView {
    err_plain(LangErrorMsgView::InternalError("Invalid variable type not caught by type checker"@))
}

/// The initial variable store: each declared variable bound to its type's
/// default value, or an internal error when some declared type has no
/// runtime values.
pub open spec fn init_vars_spec(ds: Seq<(Seq<char>, Type)>) -> Result<VarMap, LangErrorView>
    decreases ds,
{
    if ds.len() == 0 {
        Ok(Map::empty())
    } else {
        match init_vars_spec(ds.drop_last()) {
            Err(e) => Err(e),
            Ok(m) => match Value::from_type_spec(ds.last().1) {
                Some(v) => Ok(m.insert(ds.last().0, v)),
                None => Err(bad_var_type_error()),
            },
        }
    }
}

/// When initialization succeeds, the store's names are exactly the declared
/// names.
proof fn lemma_init_vars_dom(ds: Seq<(Seq<char>, Type)>)
    ensures
        init_vars_spec(ds) matches Ok(m) ==> m.dom() == decl_keys(ds),
    decreases ds,
{
    if ds.len() > 0 {
        lemma_init_vars_dom(ds.drop_last());
        if init_vars_spec(ds) is Ok {
            let m = init_vars_spec(ds)->Ok_0;
            let prev = init_vars_spec(ds.drop_last())->Ok_0;
            assert forall|k: Seq<char>| m.dom().contains(k) <==> decl_keys(ds).contains(k) by {
                if decl_keys(ds).contains(k) {
                    let i = choose|i: int| 0 <= i < ds.len() && ds[i].0 == k;
                    if i < ds.len() - 1 {
                        assert(ds.drop_last()[i].0 == k);
                        assert(decl_keys(ds.drop_last()).contains(k));
                    }
                }
                if m.dom().contains(k) && k != ds.last().0 {
                    assert(prev.dom().contains(k));
                    let i = choose|i: int| 0 <= i < ds.len() - 1 && ds.drop_last()[i].0 == k;
                    assert(ds[i].0 == k);
                }
                if k == ds.last().0 {
                    assert(ds[ds.len() - 1].0 == k);
                }
            }
            assert(m.dom() =~= decl_keys(ds));
        }
    }
}

/// Initialization fails exactly when some declared type has no runtime
/// values, and then with [`bad_var_type_error`].
proof fn lemma_init_vars_err(ds: Seq<(Seq<char>, Type)>)
    ensures
        (init_vars_spec(ds) is Err) <==> exists|i: int|
            0 <= i < ds.len() && Value::from_type_spec(#[trigger] ds[i].1) is None,
        init_vars_spec(ds) is Err ==> init_vars_spec(ds) == Err::<VarMap, LangErrorView>(
            bad_var_type_error(),
        ),
    decreases ds,
{
    if ds.len() > 0 {
        lemma_init_vars_err(ds.drop_last());
        if init_vars_spec(ds.drop_last()) is Err {
            let i = choose|i: int|
                0 <= i < ds.len() - 1 && Value::from_type_spec(#[trigger] ds.drop_last()[i].1)
                    is None;
            assert(Value::from_type_spec(ds[i].1) is None);
        }
        if init_vars_spec(ds) is Err && !(init_vars_spec(ds.drop_last()) is Err) {
            assert(Value::from_type_spec(ds[ds.len() - 1].1) is None);
        }
        if exists|i: int| 0 <= i < ds.len() && Value::from_type_spec(#[trigger] ds[i].1) is None {
            let i = choose|i: int|
                0 <= i < ds.len() && Value::from_type_spec(#[trigger] ds[i].1) is None;
            if i < ds.len() - 1 {
                assert(ds.drop_last()[i] == ds[i]);
                assert(init_vars_spec(ds.drop_last()) is Err);
            }
        }
    }
}

// ---------------------------------------------------------------------------
// The interpreter state machine.
// ---------------------------------------------------------------------------

/// Result of executing a single instruction.
#[derive(Debug)]
pub enum ExecuteResult {
    /// The interpreter is not done executing instructions.
    Continue,
    /// The interpreter is done executing instructions and has returned a
    /// value.
    Return(Option<Value>),
}

impl ExecuteResult {
    /// Returns the return value if the interpreter has reached the end of
    /// the function and has returned a value.
    pub fn return_value(self) -> (r: Option<Value>)
        ensures
            r == match self {
                ExecuteResult::Continue => None::<Value>,
                ExecuteResult::Return(v) => v,
            },
    {
        match self {
            ExecuteResult::Continue => None,
            ExecuteResult::Return(value) => value,
        }
    }
}

/// The interpreter: the flattened instruction sequence, a program counter,
/// the variable store, and the kind of the function being interpreted.
#[derive(Debug)]
pub struct State {
    /// List of instructions to execute, in flattened form: every branching
    /// instruction's nested blocks were replaced by a single `Goto` (or
    /// left empty) and their statements moved to the end of this list.
    pub instructions: StatementBlock,
    /// Index of the instruction to execute next.
    pub instruction_pointer: usize,
    /// Each declared variable's current value; names are unique.
    pub vars: Vec<(String, Value)>,
    /// The kind of the function that is being interpreted (transition
    /// vs. helper function and return type).
    pub function_type: FunctionType,
    /// The number of valid cell states: conversion to a cell state succeeds
    /// exactly on `[0, cell_state_count)`.
    pub cell_state_count: usize,
}

impl State {
    /// The ghost mirror of the instruction sequence.
    pub open spec fn instrs_view(&self) -> Seq<Spanned<StatementView>> {
        block_view(self.instructions@)
    }

    /// The map the variable store represents.
    pub open spec fn vars_map(&self) -> VarMap {
        kv_map(self.vars@)
    }

    /// The parts of well-formedness that expression evaluation relies on:
    /// unique variable names and a cell-state count that fits the
    /// cell-state representation.
    pub open spec fn env_wf(&self) -> bool {
        &&& keys_unique(self.vars@)
        &&& 1 <= self.cell_state_count <= 256
    }

    /// Well-formedness: the instruction sequence is in flattened form and
    /// mentions only declared variables.  [`State::new`] establishes this
    /// and every step preserves it.
    pub open spec fn wf(&self) -> bool {
        &&& self.env_wf()
        &&& flat_wf(self.instrs_view())
        &&& block_vars_declared(self.instrs_view(), self.vars_map().dom())
    }

    /// Constructs an interpreter that will execute the given function with
    /// the given cell-state count: flattens the function's body and binds
    /// each declared variable to its type's default value.
    pub fn new(function: Function, cell_state_count: usize) -> (r: LangResult<State>)
        requires
            1 <= cell_state_count <= 256,
            block_no_goto(block_view(function.statements@)),
            decl_keys_unique(decls_view(function.vars@)),
            block_vars_declared(
                block_view(function.statements@),
                decl_keys(decls_view(function.vars@)),
            ),
        ensures
            match init_vars_spec(decls_view(function.vars@)) {
                Ok(m) => r matches Ok(st) && st.wf() && st.instrs_view() == flatten_spec(
                    block_view(function.statements@),
                ) && st.instruction_pointer == 0 && st.vars_map() == m && st.function_type
                    == function.fn_type && st.cell_state_count == cell_state_count,
                Err(ev) => r matches Err(e) && e@ == ev,
            },
    {
        let Function { fn_type, vars: decls, statements } = function;
        let mut statements = statements;
        flatten_block(&mut statements);
        proof {
            crate::flatten::lemma_flatten_spec_wf(
                block_view(function.statements@),
                decl_keys(decls_view(function.vars@)),
            );
            lemma_decls_view_len(decls@);
        }
        let ghost ds = decls_view(decls@);
        let mut vars: Vec<(String, Value)> = Vec::new();
        proof {
            assert(ds.take(0) =~= Seq::<(Seq<char>, Type)>::empty());
        }
        let mut i: usize = 0;
        while i < decls.len()
            invariant
                i <= decls@.len(),
                decls@ == function.vars@,
                ds == decls_view(decls@),
                ds.len() == decls@.len(),
                forall|j: int| 0 <= j < decls@.len() ==> #[trigger] ds[j] == (
                    decls@[j].0@,
                    decls@[j].1,
                ),
                decl_keys_unique(ds),
                vars@.len() == i,
                forall|j: int| 0 <= j < i ==> #[trigger] vars@[j].0@ == ds[j].0,
                keys_unique(vars@),
                init_vars_spec(ds.take(i as int)) == Ok::<VarMap, LangErrorView>(kv_map(vars@)),
            decreases decls@.len() - i,
        {
            let ghost prev_vars = vars@;
            let nm = decls[i].0.clone();
            let ty = decls[i].1;
            match Value::from_type(ty) {
                Some(v) => {
                    vars.push((nm, v));
                },
                None => {
                    proof {
                        assert(ds[i as int] == (decls@[i as int].0@, decls@[i as int].1));
                        assert(Value::from_type_spec(ds[i as int].1) is None);
                        lemma_init_vars_err(ds);
                        assert(init_vars_spec(ds) == Err::<VarMap, LangErrorView>(
                            bad_var_type_error(),
                        ));
                    }
                    return Err(
                        LangErrorMsg::InternalError(
                            "Invalid variable type not caught by type checker",
                        ).without_span(),
                    );
                },
            }
            proof {
                let k = i as int;
                assert(ds.take(k + 1).drop_last() =~= ds.take(k));
                assert(ds.take(k + 1).last() == ds[k]);
                assert(vars@.drop_last() =~= prev_vars);
                assert(vars@.last() == (nm, Value::from_type_spec(ds[k].1)->Some_0));
                assert(kv_map(vars@) == kv_map(prev_vars).insert(
                    ds[k].0,
                    Value::from_type_spec(ds[k].1)->Some_0,
                ));
                assert forall|a: int, b: int| 0 <= a < b < vars@.len() implies vars@[a].0@
                    != vars@[b].0@ by {
                    assert(ds[a].0 != ds[b].0);
                }
                assert(init_vars_spec(ds.take(k + 1)) == Ok::<VarMap, LangErrorView>(
                    kv_map(vars@),
                ));
            }
            i = i + 1;
        }
        proof {
            assert(ds.take(i as int) =~= ds);
            lemma_init_vars_dom(ds);
        }
        Ok(
            State {
                instructions: statements,
                instruction_pointer: 0,
                vars,
                function_type: fn_type,
                cell_state_count,
            },
        )
    }

    /// Executes instructions until the function returns a value or faults.
    /// The result is exactly what [`run_spec`] assigns to the starting
    /// state.
    pub fn run(&mut self) -> (r: LangResult<Option<Value>>)
        requires
            old(self).wf(),
        ensures
            final(self).wf(),
            final(self).instructions == old(self).instructions,
            final(self).function_type == old(self).function_type,
            final(self).cell_state_count == old(self).cell_state_count,
            match run_spec(
                old(self).instrs_view(),
                old(self).instruction_pointer as int,
                old(self).vars_map(),
                old(self).function_type,
                old(self).cell_state_count as int,
            ) {
                Ok(v) => r == Ok::<Option<Value>, LangError>(v),
                Err(ev) => r matches Err(e) && e@ == ev,
            },
    {
        loop
            invariant
                self.wf(),
                self.instructions == old(self).instructions,
                self.function_type == old(self).function_type,
                self.cell_state_count == old(self).cell_state_count,
                run_spec(
                    self.instrs_view(),
                    self.instruction_pointer as int,
                    self.vars_map(),
                    self.function_type,
                    self.cell_state_count as int,
                ) == run_spec(
                    old(self).instrs_view(),
                    old(self).instruction_pointer as int,
                    old(self).vars_map(),
                    old(self).function_type,
                    old(self).cell_state_count as int,
                ),
            decreases (if self.instruction_pointer < self.instructions@.len() {
                self.instructions@.len() - self.instruction_pointer
            } else {
                0
            }),
        {
            proof {
                lemma_block_view_len(self.instructions@);
            }
            match self.step() {
                Ok(ExecuteResult::Return(ret)) => {
                    return Ok(ret);
                },
                Ok(ExecuteResult::Continue) => {},
                Err(e) => {
                    return Err(e);
                },
            }
        }
    }

    /// Executes the next instruction, as [`step_spec`] describes: a counter
    /// at or past the end returns `Return(None)`; otherwise the instruction
    /// under the counter is dispatched and the counter advances by exactly
    /// one afterward (jump targets are stored pre-decremented).
    pub fn step(&mut self) -> (r: LangResult<ExecuteResult>)
        requires
            old(self).wf(),
        ensures
            final(self).wf(),
            final(self).instructions == old(self).instructions,
            final(self).function_type == old(self).function_type,
            final(self).cell_state_count == old(self).cell_state_count,
            match step_spec(
                old(self).instrs_view(),
                old(self).instruction_pointer as int,
                old(self).vars_map(),
                old(self).function_type,
                old(self).cell_state_count as int,
            ) {
                StepView::Continue { pc, vars } => (r matches Ok(x) && x
                    == ExecuteResult::Continue) && final(self).instruction_pointer == pc
                    && final(self).vars_map() == vars,
                StepView::Halt(v) => r == Ok::<ExecuteResult, LangError>(ExecuteResult::Return(v))
                    && final(self).instruction_pointer == old(self).instruction_pointer
                    && final(self).vars_map() == old(self).vars_map(),
                StepView::Fault(ev) => (r matches Err(e) && e@ == ev)
                    && final(self).instruction_pointer == old(self).instruction_pointer
                    && final(self).vars_map() == old(self).vars_map(),
            },
    {
        proof {
            lemma_block_view_len(self.instructions@);
        }
        if self.instruction_pointer >= self.instructions.len() {
            return Ok(ExecuteResult::Return(None));
        }
        let pc = self.instruction_pointer;
        let ghost iv = self.instrs_view();
        proof {
            assert(iv[pc as int] == self.instructions@[pc as int]@);
            assert(stmt_vars_declared(iv[pc as int].inner, self.vars_map().dom()));
            assert(crate::flatten::stmt_flat(iv[pc as int].inner, pc as int, iv.len() as int));
        }
        match &self.instructions[pc].inner {
            Statement::SetVar { var_name, value_expr } => {
                let stored = get_var(&self.vars, &var_name.inner);
                if !type_eq(stored.ty(), value_expr.ty()) {
                    return Err(
                        LangErrorMsg::InternalError(
                            "Invalid variable assignment not caught by type checker",
                        ).without_span(),
                    );
                }
                let var_value = match value_expr {
                    Expr::Int(e) => {
                        match eval_int_expr_in(
                            &self.vars,
                            self.cell_state_count,
                            e,
                        ) {
                            Ok(v) => Value::Int(v.inner),
                            Err(er) => {
                                return Err(er);
                            },
                        }
                    },
                    Expr::CellState(e) => {
                        match eval_cell_state_expr_in(
                            &self.vars,
                            self.cell_state_count,
                            e,
                        ) {
                            Ok(v) => Value::CellState(v.inner),
                            Err(er) => {
                                return Err(er);
                            },
                        }
                    },
                };
                store_var(&mut self.vars, &var_name.inner, var_value);
                proof {
                    assert(self.vars_map().dom() =~= old(self).vars_map().dom());
                }
                self.instruction_pointer = pc + 1;
                Ok(ExecuteResult::Continue)
            },
            Statement::If { cond_expr, if_true, if_false } => {
                let condition_value = match eval_int_expr_in(
                    &self.vars,
                    self.cell_state_count,
                    cond_expr,
                ) {
                    Ok(v) => v.inner != 0,
                    Err(er) => {
                        return Err(er);
                    },
                };
                let block = if condition_value {
                    if_true
                } else {
                    if_false
                };
                match Self::goto_block(&mut self.instruction_pointer, block) {
                    Ok(()) => {},
                    Err(er) => {
                        return Err(er);
                    },
                }
                self.instruction_pointer = self.instruction_pointer + 1;
                Ok(ExecuteResult::Continue)
            },
            Statement::Return(return_expr) => match self.function_type {
                FunctionType::Transition => {
                    if !type_eq(return_expr.ty(), Type::CellState) {
                        return Err(
                            LangErrorMsg::InternalError(
                                "Invalid return statement not caught by type checker",
                            ).without_span(),
                        );
                    }
                    match return_expr {
                        Expr::CellState(ce) => {
                            match eval_cell_state_expr_in(
                                &self.vars,
                                self.cell_state_count,
                                ce,
                            ) {
                                Ok(v) => Ok(
                                    ExecuteResult::Return(Some(Value::CellState(v.inner))),
                                ),
                                Err(er) => Err(er),
                            }
                        },
                        Expr::Int(_) => Err(
                            LangErrorMsg::InternalError(
                                "Invalid return statement not caught by type checker",
                            ).without_span(),
                        ),
                    }
                },
                FunctionType::Helper(_) => Err(
                    LangErrorMsg::Unimplemented.with_span(return_expr.span()),
                ),
            },
            Statement::End => Ok(ExecuteResult::Return(None)),
            Statement::Goto(idx) => {
                self.instruction_pointer = *idx + 1;
                Ok(ExecuteResult::Continue)
            },
        }
    }

    /// Jumps to the block encoded by the `Goto` instruction that flattening
    /// placed inside the given block: an empty block leaves the counter
    /// unchanged, any other first statement than a `Goto` is an internal
    /// error.
    fn goto_block(instruction_pointer: &mut usize, block: &StatementBlock) -> (r: LangResult<()>)
        ensures
            match goto_block_spec(block_view(block@), *old(instruction_pointer) as int) {
                Ok(p) => r is Ok && *final(instruction_pointer) == p,
                Err(ev) => (r matches Err(e) && e@ == ev) && *final(instruction_pointer) == *old(
                    instruction_pointer,
                ),
            },
    {
        proof {
            lemma_block_view_len(block@);
        }
        if block.len() == 0 {
            Ok(())
        } else {
            proof {
                assert(block_view(block@)[0] == block@[0]@);
            }
            match &block[0].inner {
                Statement::Goto(idx) => {
                    *instruction_pointer = *idx;
                    Ok(())
                },
                _ => {
                    proof {
                        crate::ast::lemma_stmt_view_if(block@[0].inner);
                    }
                    Err(
                        LangErrorMsg::InternalError(
                            "Block in interpreter did not contain GOTO statement",
                        ).without_span(),
                    )
                },
            }
        }
    }

    /// Evaluates an expression to an integer value, exactly as
    /// [`eval_int_spec`] describes.
    pub fn eval_int_expr(&self, expression: &Spanned<IntExpr>) -> (r: LangResult<
        Spanned<LangInt>,
    >)
        requires
            self.env_wf(),
            int_expr_vars_declared(int_expr_view(expression.inner), self.vars_map().dom()),
        ensures
            match r {
                Ok(v) => v.span == expression.span && eval_int_spec(
                    self.vars_map(),
                    self.cell_state_count as int,
                    spanned_int_expr_view(*expression),
                ) == Ok::<LangInt, LangErrorView>(v.inner),
                Err(e) => eval_int_spec(
                    self.vars_map(),
                    self.cell_state_count as int,
                    spanned_int_expr_view(*expression),
                ) == Err::<LangInt, LangErrorView>(e@),
            },
    {
        eval_int_expr_in(&self.vars, self.cell_state_count, expression)
    }

    /// Evaluates an expression to a cell-state value, exactly as
    /// [`eval_cell_spec`] describes.
    pub fn eval_cell_state_expr(&self, expression: &Spanned<CellStateExpr>) -> (r: LangResult<
        Spanned<LangCellState>,
    >)
        requires
            self.env_wf(),
            cell_expr_vars_declared(cell_expr_view(expression.inner), self.vars_map().dom()),
        ensures
            match r {
                Ok(v) => v.span == expression.span && eval_cell_spec(
                    self.vars_map(),
                    self.cell_state_count as int,
                    spanned_cell_expr_view(*expression),
                ) == Ok::<LangCellState, LangErrorView>(v.inner),
                Err(e) => eval_cell_spec(
                    self.vars_map(),
                    self.cell_state_count as int,
                    spanned_cell_expr_view(*expression),
                ) == Err::<LangCellState, LangErrorView>(e@),
            },
    {
        eval_cell_state_expr_in(&self.vars, self.cell_state_count, expression)
    }
}

/// The preconditions under which a parser-produced function can be
/// interpreted: its body is goto-free, its declared variable names are
/// unique, every variable its body mentions is declared, and the cell-state
/// count is positive and fits the cell-state representation.
pub open spec fn runnable(f: Function, cell_state_count: usize) -> bool {
    &&& 1 <= cell_state_count <= 256
    &&& block_no_goto(block_view(f.statements@))
    &&& decl_keys_unique(decls_view(f.vars@))
    &&& block_vars_declared(block_view(f.statements@), decl_keys(decls_view(f.vars@)))
}

/// The internal error raised when a transition function ends with anything
/// other than a cell state.
pub open spec fn bad_transition_result_error() -> LangErrorView {
    err_plain(
        LangErrorMsgView::InternalError(
            "Transition function produced a value other than a cell state"@,
        ),
    )
}

/// What interpreting a whole function produces, before the final narrowing:
/// the initial variable store is built, the body is flattened, and the
/// flattened sequence runs from the start.
pub open spec fn interpret_spec(f: Function, csc: int) -> Result<Option<Value>, LangErrorView> {
    match init_vars_spec(decls_view(f.vars@)) {
        Err(e) => Err(e),
        Ok(m) => run_spec(flatten_spec(block_view(f.statements@)), 0, m, f.fn_type, csc),
    }
}

/// What running a transition function produces: the cell state it returns,
/// or its first fault; ending with no value or a non-cell-state value is an
/// internal error.
pub open spec fn run_fn_spec(f: Function, csc: int) -> Result<LangCellState, LangErrorView> {
    match interpret_spec(f, csc) {
        Err(e) => Err(e),
        Ok(Some(Value::CellState(c))) => Ok(c),
        Ok(_) => Err(bad_transition_result_error()),
    }
}

/// Law: interpretation is deterministic.  Interpreting two functions that
/// agree on their kind, declared variables and body, with the same
/// cell-state count, yields identical results or identical faults.  As
/// [`run_fn`] returns exactly `run_fn_spec` of its input, two runs of the
/// same function agree.
pub proof fn lemma_interpretation_deterministic(f1: Function, f2: Function, csc: int)
    requires
        f1.fn_type == f2.fn_type,
        f1.vars@ == f2.vars@,
        f1.statements@ == f2.statements@,
    ensures
        run_fn_spec(f1, csc) == run_fn_spec(f2, csc),
        interpret_spec(f1, csc) == interpret_spec(f2, csc),
{
}

/// Runs the given function to completion and narrows the result to a cell
/// state, exactly as [`run_fn_spec`] describes.
pub fn run_fn(function: Function, cell_state_count: usize) -> (r: LangResult<LangCellState>)
    requires
        runnable(function, cell_state_count),
    ensures
        match run_fn_spec(function, cell_state_count as int) {
            Ok(c) => r == Ok::<LangCellState, LangError>(c),
            Err(ev) => r matches Err(e) && e@ == ev,
        },
{
    let mut state = match State::new(function, cell_state_count) {
        Ok(st) => st,
        Err(e) => {
            return Err(e);
        },
    };
    let ret_val = match state.run() {
        Ok(v) => v,
        Err(e) => {
            return Err(e);
        },
    };
    match ret_val {
        Some(Value::CellState(cell_state)) => Ok(cell_state),
        _ => Err(
            LangErrorMsg::InternalError(
                "Transition function produced a value other than a cell state",
            ).without_span(),
        ),
    }
}

/// Runs the given rule's transition function; a fault is resolved against
/// the rule's source text.
pub fn run_rule(rule: Rule, cell_state_count: usize) -> (r: CompleteLangResult<LangCellState>)
    requires
        runnable(rule.transition_fn, cell_state_count),
    ensures
        match run_fn_spec(rule.transition_fn, cell_state_count as int) {
            Ok(c) => r == Ok::<LangCellState, crate::errors::LangErrorWithSource>(c),
            Err(ev) => r matches Err(e) && e@ == crate::errors::with_source_spec(
                rule.source_code@,
                ev,
            ),
        },
{
    let source_code = rule.source_code;
    match run_fn(rule.transition_fn, cell_state_count) {
        Ok(c) => Ok(c),
        Err(e) => Err(e.with_source(source_code.as_str())),
    }
}

/// Runs the given rule's transition function using the interpreter and
/// returns the resulting value, exactly as [`interpret_spec`] describes.
/// A function that ends without a value is left out: on such input the
/// stepping loop would never return, as the step machine keeps reporting
/// the end of the instruction sequence.
pub fn interpret(rule: Rule, cell_state_count: usize) -> (r: LangResult<Value>)
    requires
        runnable(rule.transition_fn, cell_state_count),
        interpret_spec(rule.transition_fn, cell_state_count as int) != Ok::<
            Option<Value>,
            LangErrorView,
        >(None),
    ensures
        match interpret_spec(rule.transition_fn, cell_state_count as int) {
            Ok(Some(v)) => r == Ok::<Value, LangError>(v),
            Ok(None) => false,
            Err(ev) => r matches Err(e) && e@ == ev,
        },
{
    let ghost f = rule.transition_fn;
    let ghost csc = cell_state_count as int;
    let mut interpreter = match State::new(rule.transition_fn, cell_state_count) {
        Ok(st) => st,
        Err(e) => {
            return Err(e);
        },
    };
    loop
        invariant
            interpreter.wf(),
            f == rule.transition_fn,
            csc == cell_state_count as int,
            interpret_spec(f, csc) != Ok::<Option<Value>, LangErrorView>(None),
            run_spec(
                interpreter.instrs_view(),
                interpreter.instruction_pointer as int,
                interpreter.vars_map(),
                interpreter.function_type,
                interpreter.cell_state_count as int,
            ) == interpret_spec(f, csc),
        decreases (if interpreter.instruction_pointer < interpreter.instructions@.len() {
            interpreter.instructions@.len() - interpreter.instruction_pointer
        } else {
            0
        }),
    {
        proof {
            lemma_block_view_len(interpreter.instructions@);
        }
        let ghost pre = interpreter;
        let stepped = match interpreter.step() {
            Ok(x) => x,
            Err(e) => {
                return Err(e);
            },
        };
        if let Some(ret) = stepped.return_value() {
            return Ok(ret);
        }
        proof {
            let sv = step_spec(
                pre.instrs_view(),
                pre.instruction_pointer as int,
                pre.vars_map(),
                pre.function_type,
                pre.cell_state_count as int,
            );
            if sv is Halt {
                assert(false);
            }
        }
    }
}

/// Compares two static types.
fn type_eq(a: Type, b: Type) -> (r: bool)
    ensures
        r == (a == b),
{
    match (a, b) {
        (Type::Int, Type::Int) => true,
        (Type::CellState, Type::CellState) => true,
        (Type::Void, Type::Void) => true,
        _ => false,
    }
}

/// Compares two integers under one comparison operator.
fn int_cmp(op: Cmp, l: LangInt, r: LangInt) -> (b: bool)
    ensures
        b == cmp_holds(op, l, r),
{
    match op {
        Cmp::Eql => l == r,
        Cmp::Neq => l != r,
        Cmp::Lt => l < r,
        Cmp::Gt => l > r,
        Cmp::Lte => l <= r,
        Cmp::Gte => l >= r,
    }
}

/// Compares two cell states under one equality operator.
fn cell_cmp(op: EqCmp, l: LangCellState, r: LangCellState) -> (b: bool)
    ensures
        b == eq_cmp_holds(op, l, r),
{
    match op {
        EqCmp::Eql => l == r,
        EqCmp::Neq => l != r,
    }
}

/// Evaluates an integer expression under the given variable store and
/// cell-state count.
fn eval_int_expr_in(
    vars: &Vec<(String, Value)>,
    cell_state_count: usize,
    expression: &Spanned<IntExpr>,
) -> (r: LangResult<Spanned<LangInt>>)
    requires
        keys_unique(vars@),
        1 <= cell_state_count <= 256,
        int_expr_vars_declared(int_expr_view(expression.inner), kv_map(vars@).dom()),
    ensures
        match r {
            Ok(v) => v.span == expression.span && eval_int_spec(
                kv_map(vars@),
                cell_state_count as int,
                spanned_int_expr_view(*expression),
            ) == Ok::<LangInt, LangErrorView>(v.inner),
            Err(e) => eval_int_spec(
                kv_map(vars@),
                cell_state_count as int,
                spanned_int_expr_view(*expression),
            ) == Err::<LangInt, LangErrorView>(e@),
        },
    decreases expression.inner,
{
    let span = expression.span;
    match &expression.inner {
        IntExpr::FnCall(_) => Err(LangErrorMsg::Unimplemented.with_span(span)),
        IntExpr::Var(var_name) => {
            let v = get_var(vars, var_name);
            match v.as_int() {
                Ok(i) => Ok(Spanned { span, inner: i }),
                Err(e) => Err(e),
            }
        },
        IntExpr::Literal(i) => Ok(Spanned { span, inner: *i }),
        IntExpr::Op { lhs, op, rhs } => {
            let l = match eval_int_expr_in(vars, cell_state_count, lhs) {
                Ok(v) => v.inner,
                Err(e) => {
                    return Err(e);
                },
            };
            let r = match eval_int_expr_in(vars, cell_state_count, rhs) {
                Ok(v) => v.inner,
                Err(e) => {
                    return Err(e);
                },
            };
            let is_div = match op {
                MathOp::Div => true,
                MathOp::Rem => true,
                _ => false,
            };
            if is_div && r == 0 {
                return Err(LangErrorMsg::DivideByZero.with_span(span));
            }
            let result = match op {
                MathOp::Add => match l.checked_add(r) {
                    Some(v) => v,
                    None => {
                        return Err(LangErrorMsg::IntegerOverflowDuringAddition.with_span(span));
                    },
                },
                MathOp::Sub => match l.checked_sub(r) {
                    Some(v) => v,
                    None => {
                        return Err(LangErrorMsg::IntegerOverflowDuringSubtraction.with_span(span));
                    },
                },
                MathOp::Mul => match l.checked_mul(r) {
                    Some(v) => v,
                    None => {
                        return Err(
                            LangErrorMsg::IntegerOverflowDuringMultiplication.with_span(span),
                        );
                    },
                },
                MathOp::Div => match l.checked_div(r) {
                    Some(v) => v,
                    None => {
                        return Err(LangErrorMsg::IntegerOverflowDuringDivision.with_span(span));
                    },
                },
                MathOp::Rem => match l.checked_rem(r) {
                    Some(v) => v,
                    None => {
                        return Err(LangErrorMsg::IntegerOverflowDuringRemainder.with_span(span));
                    },
                },
                MathOp::Exp => {
                    return Err(LangErrorMsg::Unimplemented.with_span(span));
                },
            };
            Ok(Spanned { span, inner: result })
        },
        IntExpr::Neg(x) => {
            let v = match eval_int_expr_in(vars, cell_state_count, x) {
                Ok(v) => v.inner,
                Err(e) => {
                    return Err(e);
                },
            };
            if v == LangInt::MIN {
                Err(LangErrorMsg::IntegerOverflowDuringNegation.with_span(span))
            } else {
                Ok(Spanned { span, inner: -v })
            }
        },
        IntExpr::CmpInt(c) => {
            proof {
                let cv = cmp_int_expr_view(*c);
                assert(int_expr_view(expression.inner) == IntExprView::CmpInt(cv));
                assert(cv.initial.inner == int_expr_view(c.initial.inner));
            }
            match eval_multi_comparison_any(vars, cell_state_count, c) {
                Ok(i) => Ok(Spanned { span, inner: i }),
                Err(e) => Err(e),
            }
        },
        IntExpr::CmpCellState(c) => {
            proof {
                let cv = cmp_cell_expr_view(*c);
                assert(int_expr_view(expression.inner) == IntExprView::CmpCellState(cv));
                assert(cv.initial.inner == cell_expr_view(c.initial.inner));
            }
            match eval_multi_comparison_eq(vars, cell_state_count, c) {
                Ok(i) => Ok(Spanned { span, inner: i }),
                Err(e) => Err(e),
            }
        },
    }
}

/// Evaluates a cell-state expression under the given variable store and
/// cell-state count.
fn eval_cell_state_expr_in(
    vars: &Vec<(String, Value)>,
    cell_state_count: usize,
    expression: &Spanned<CellStateExpr>,
) -> (r: LangResult<Spanned<LangCellState>>)
    requires
        keys_unique(vars@),
        1 <= cell_state_count <= 256,
        cell_expr_vars_declared(cell_expr_view(expression.inner), kv_map(vars@).dom()),
    ensures
        match r {
            Ok(v) => v.span == expression.span && eval_cell_spec(
                kv_map(vars@),
                cell_state_count as int,
                spanned_cell_expr_view(*expression),
            ) == Ok::<LangCellState, LangErrorView>(v.inner),
            Err(e) => eval_cell_spec(
                kv_map(vars@),
                cell_state_count as int,
                spanned_cell_expr_view(*expression),
            ) == Err::<LangCellState, LangErrorView>(e@),
        },
    decreases expression.inner,
{
    let span = expression.span;
    match &expression.inner {
        CellStateExpr::FnCall(_) => Err(LangErrorMsg::Unimplemented.with_span(span)),
        CellStateExpr::Var(var_name) => {
            let v = get_var(vars, var_name);
            match v.as_cell_state() {
                Ok(c) => Ok(Spanned { span, inner: c }),
                Err(e) => Err(e),
            }
        },
        CellStateExpr::FromId(id_expr) => {
            let id_value = match eval_int_expr_in(vars, cell_state_count, id_expr) {
                Ok(v) => v.inner,
                Err(e) => {
                    return Err(e);
                },
            };
            if id_value >= 0 && id_value < cell_state_count as LangInt {
                Ok(Spanned { span, inner: id_value as LangCellState })
            } else {
                Err(LangErrorMsg::CellStateOutOfRange.with_span(span))
            }
        },
    }
}

/// Evaluates a chained comparison of integer expressions, short-circuiting
/// as soon as one comparison is false.
fn eval_multi_comparison_any(
    vars: &Vec<(String, Value)>,
    cell_state_count: usize,
    cmp_expr: &CmpIntExpr,
) -> (r: LangResult<LangInt>)
    requires
        keys_unique(vars@),
        1 <= cell_state_count <= 256,
        int_expr_vars_declared(int_expr_view(cmp_expr.initial.inner), kv_map(vars@).dom()),
        int_pairs_vars_declared(
            crate::ast::int_pairs_view(cmp_expr.comparisons@),
            kv_map(vars@).dom(),
        ),
    ensures
        ({
            let c = cmp_int_expr_view(*cmp_expr);
            let s = match eval_int_spec(kv_map(vars@), cell_state_count as int, *c.initial) {
                Err(er) => Err::<LangInt, LangErrorView>(er),
                Ok(l) => eval_chain_int_spec(
                    kv_map(vars@),
                    cell_state_count as int,
                    l,
                    c.comparisons,
                ),
            };
            match r {
                Ok(i) => s == Ok::<LangInt, LangErrorView>(i),
                Err(e) => s == Err::<LangInt, LangErrorView>(e@),
            }
        }),
    decreases *cmp_expr,
{
    let ghost vm = kv_map(vars@);
    let ghost csc = cell_state_count as int;
    let ghost c = cmp_int_expr_view(*cmp_expr);
    proof {
        lemma_int_pairs_view_len(cmp_expr.comparisons@);
    }
    let mut lhs = match eval_int_expr_in(vars, cell_state_count, &cmp_expr.initial) {
        Ok(v) => v.inner,
        Err(e) => {
            return Err(e);
        },
    };
    let ghost whole = eval_chain_int_spec(vm, csc, lhs, c.comparisons);
    proof {
        assert(c.comparisons.skip(0) =~= c.comparisons);
    }
    let mut idx: usize = 0;
    while idx < cmp_expr.comparisons.len()
        invariant
            keys_unique(vars@),
            1 <= cell_state_count <= 256,
            vm == kv_map(vars@),
            csc == cell_state_count as int,
            c == cmp_int_expr_view(*cmp_expr),
            c.comparisons.len() == cmp_expr.comparisons@.len(),
            forall|i: int|
                0 <= i < cmp_expr.comparisons@.len() ==> #[trigger] c.comparisons[i] == (
                cmp_expr.comparisons@[i].0,
                spanned_int_expr_view(cmp_expr.comparisons@[i].1),
                ),
            int_pairs_vars_declared(c.comparisons, vm.dom()),
            idx <= cmp_expr.comparisons@.len(),
            eval_chain_int_spec(vm, csc, lhs, c.comparisons.skip(idx as int)) == whole,
            eval_int_spec(vm, csc, *c.initial) matches Ok(l0) && eval_chain_int_spec(
                vm,
                csc,
                l0,
                c.comparisons,
            ) == whole,
        decreases cmp_expr.comparisons@.len() - idx,
    {
        let ghost rest = c.comparisons.skip(idx as int);
        proof {
            assert(rest[0] == c.comparisons[idx as int]);
            assert(rest.drop_first() =~= c.comparisons.skip(idx as int + 1));
            assert(int_expr_vars_declared(c.comparisons[idx as int].1.inner, vm.dom()));
            assert(c.comparisons[idx as int].1 == spanned_int_expr_view(
                cmp_expr.comparisons@[idx as int].1,
            ));
        }
        let pair = &cmp_expr.comparisons[idx];
        let rhs = match eval_int_expr_in(vars, cell_state_count, &pair.1) {
            Ok(v) => v.inner,
            Err(e) => {
                return Err(e);
            },
        };
        if !int_cmp(pair.0, lhs, rhs) {
            return Ok(0);
        }
        lhs = rhs;
        idx = idx + 1;
    }
    proof {
        assert(c.comparisons.skip(idx as int) =~= Seq::<
            (Cmp, Spanned<crate::ast::IntExprView>),
        >::empty());
    }
    Ok(1)
}

/// Evaluates a chained comparison of cell-state expressions,
/// short-circuiting as soon as one comparison is false.
fn eval_multi_comparison_eq(
    vars: &Vec<(String, Value)>,
    cell_state_count: usize,
    cmp_expr: &CmpCellStateExpr,
) -> (r: LangResult<LangInt>)
    requires
        keys_unique(vars@),
        1 <= cell_state_count <= 256,
        cell_expr_vars_declared(cell_expr_view(cmp_expr.initial.inner), kv_map(vars@).dom()),
        cell_pairs_vars_declared(
            crate::ast::cell_pairs_view(cmp_expr.comparisons@),
            kv_map(vars@).dom(),
        ),
    ensures
        ({
            let c = cmp_cell_expr_view(*cmp_expr);
            let s = match eval_cell_spec(kv_map(vars@), cell_state_count as int, *c.initial) {
                Err(er) => Err::<LangInt, LangErrorView>(er),
                Ok(l) => eval_chain_cell_spec(
                    kv_map(vars@),
                    cell_state_count as int,
                    l,
                    c.comparisons,
                ),
            };
            match r {
                Ok(i) => s == Ok::<LangInt, LangErrorView>(i),
                Err(e) => s == Err::<LangInt, LangErrorView>(e@),
            }
        }),
    decreases *cmp_expr,
{
    let ghost vm = kv_map(vars@);
    let ghost csc = cell_state_count as int;
    let ghost c = cmp_cell_expr_view(*cmp_expr);
    proof {
        lemma_cell_pairs_view_len(cmp_expr.comparisons@);
    }
    let mut lhs = match eval_cell_state_expr_in(vars, cell_state_count, &cmp_expr.initial) {
        Ok(v) => v.inner,
        Err(e) => {
            return Err(e);
        },
    };
    let ghost whole = eval_chain_cell_spec(vm, csc, lhs, c.comparisons);
    proof {
        assert(c.comparisons.skip(0) =~= c.comparisons);
    }
    let mut idx: usize = 0;
    while idx < cmp_expr.comparisons.len()
        invariant
            keys_unique(vars@),
            1 <= cell_state_count <= 256,
            vm == kv_map(vars@),
            csc == cell_state_count as int,
            c == cmp_cell_expr_view(*cmp_expr),
            c.comparisons.len() == cmp_expr.comparisons@.len(),
            forall|i: int|
                0 <= i < cmp_expr.comparisons@.len() ==> #[trigger] c.comparisons[i] == (
                cmp_expr.comparisons@[i].0,
                spanned_cell_expr_view(cmp_expr.comparisons@[i].1),
                ),
            cell_pairs_vars_declared(c.comparisons, vm.dom()),
            idx <= cmp_expr.comparisons@.len(),
            eval_chain_cell_spec(vm, csc, lhs, c.comparisons.skip(idx as int)) == whole,
            eval_cell_spec(vm, csc, *c.initial) matches Ok(l0) && eval_chain_cell_spec(
                vm,
                csc,
                l0,
                c.comparisons,
            ) == whole,
        decreases cmp_expr.comparisons@.len() - idx,
    {
        let ghost rest = c.comparisons.skip(idx as int);
        proof {
            assert(rest[0] == c.comparisons[idx as int]);
            assert(rest.drop_first() =~= c.comparisons.skip(idx as int + 1));
            assert(cell_expr_vars_declared(c.comparisons[idx as int].1.inner, vm.dom()));
            assert(c.comparisons[idx as int].1 == spanned_cell_expr_view(
                cmp_expr.comparisons@[idx as int].1,
            ));
        }
        let pair = &cmp_expr.comparisons[idx];
        let rhs = match eval_cell_state_expr_in(vars, cell_state_count, &pair.1) {
            Ok(v) => v.inner,
            Err(e) => {
                return Err(e);
            },
        };
        if !cell_cmp(pair.0, lhs, rhs) {
            return Ok(0);
        }
        lhs = rhs;
        idx = idx + 1;
    }
    proof {
        assert(c.comparisons.skip(idx as int) =~= Seq::<
            (EqCmp, Spanned<crate::ast::CellStateExprView>),
        >::empty());
    }
    Ok(1)
}

} // verus!
