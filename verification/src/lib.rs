//! Execution core for NDCA, a small language that describes
//! cellular-automaton transition rules.
//!
//! A rule's transition function arrives from the parser as a structured
//! statement tree ([`ast`]).  The [`flatten`] transform rewrites that tree
//! into one linear, goto-addressable instruction sequence, and the
//! [`interpreter`] executes the flattened sequence one instruction at a
//! time.  Every runtime fault is attributed to a source location through
//! [`span`] and reported through the error model in [`errors`].

pub mod ast;
pub mod errors;
pub mod flatten;
pub mod interpreter;
pub mod span;
pub mod types;
