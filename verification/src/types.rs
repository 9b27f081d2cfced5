//! The static types of the language and their runtime representations.

use vstd::prelude::*;

verus! {

/// Runtime representation of a language integer: signed 64-bit.
pub type LangInt = i64;

/// Runtime representation of a cell state: an unsigned 8-bit identifier.
/// Valid values lie in `[0, cell_state_count)` for the configured
/// cell-state count.
pub type LangCellState = u8;

/// The closed set of static types an expression or variable can have.
#[derive(Debug, Clone, Copy, PartialEq, Eq, Structural)]
pub enum Type {
    /// A signed 64-bit integer.
    Int,
    /// A cell state.
    CellState,
    /// Reserved: a type with no runtime values.
    Void,
}

/// The name of a type as it appears in diagnostics.
pub open spec fn type_name_view(t: Type) -> Seq<char> {
    match t {
        Type::Int => "integer"@,
        Type::CellState => "cell state"@,
        Type::Void => "void"@,
    }
}

impl Type {
    /// Returns the name of the type as it appears in diagnostics.
    pub fn name(&self) -> (r: &'static str)
        ensures
            r@ == type_name_view(*self),
    {
        match self {
            Type::Int => "integer",
            Type::CellState => "cell state",
            Type::Void => "void",
        }
    }
}

} // verus!
