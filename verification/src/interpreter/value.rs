//! Runtime values and their correspondence with static types.

use vstd::prelude::*;

use crate::errors::{LangError, LangErrorMsg, LangErrorMsgView, LangErrorView, LangResult};
use crate::types::{LangCellState, LangInt, Type};

verus! {

/// The message of the internal error a narrowing accessor fails with when
/// the value's tag does not match the requested type.  This should never
/// trigger for input that passed type checking.
pub open spec fn narrowing_error_view() -> LangErrorView {
    LangErrorView {
        span: None::<crate::span::Span>,
        msg: LangErrorMsgView::InternalError(
            "Downcast failed unexpectedly; this should have been caught by the type checker"@,
        ),
    }
}

/// A runtime value: every value corresponds to exactly one [`Type`].
#[derive(Debug, Clone, Copy, PartialEq, Eq, Structural)]
pub enum Value {
    /// A signed 64-bit integer.
    Int(LangInt),
    /// A cell state.
    CellState(LangCellState),
}

impl Value {
    /// The static type this value belongs to.
    pub open spec fn ty_spec(self) -> Type {
        match self {
            Value::Int(_) => Type::Int,
            Value::CellState(_) => Type::CellState,
        }
    }

    /// Returns the static type this value belongs to.
    pub fn ty(&self) -> (t: Type)
        ensures
            t == self.ty_spec(),
    {
        match self {
            Value::Int(_) => Type::Int,
            Value::CellState(_) => Type::CellState,
        }
    }

    /// The zero/default value of the given type, or `None` for a type
    /// without runtime values.
    pub open spec fn from_type_spec(ty: Type) -> Option<Value> {
        match ty {
            Type::Int => Some(Value::Int(0)),
            Type::CellState => Some(Value::CellState(0)),
            Type::Void => None,
        }
    }

    /// Builds the zero/default value of the given type, or `None` for a
    /// type without runtime values.
    pub fn from_type(ty: Type) -> (r: Option<Value>)
        ensures
            r == Value::from_type_spec(ty),
    {
        match ty {
            Type::Int => Some(Value::Int(0)),
            Type::CellState => Some(Value::CellState(0)),
            Type::Void => None,
        }
    }

    /// Narrows to an integer; fails with an internal error when the value is
    /// not integer-typed.
    pub fn as_int(&self) -> (r: LangResult<LangInt>)
        ensures
            match *self {
                Value::Int(i) => r == Ok::<LangInt, LangError>(i),
                _ => r matches Err(e) && e@ == narrowing_error_view(),
            },
    {
        match self {
            Value::Int(i) => Ok(*i),
            _ => Err(
                LangErrorMsg::InternalError(
                    "Downcast failed unexpectedly; this should have been caught by the type checker",
                ).without_span(),
            ),
        }
    }

    /// Narrows to a cell state; fails with an internal error when the value
    /// is not cell-state-typed.
    pub fn as_cell_state(&self) -> (r: LangResult<LangCellState>)
        ensures
            match *self {
                Value::CellState(c) => r == Ok::<LangCellState, LangError>(c),
                _ => r matches Err(e) && e@ == narrowing_error_view(),
            },
    {
        match self {
            Value::CellState(c) => Ok(*c),
            _ => Err(
                LangErrorMsg::InternalError(
                    "Downcast failed unexpectedly; this should have been caught by the type checker",
                ).without_span(),
            ),
        }
    }
}

} // verus!
