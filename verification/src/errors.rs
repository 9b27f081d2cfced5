//! The error model: a closed taxonomy of error kinds, span-optional error
//! values, and rendering of an error against the original source text.

use vstd::prelude::*;
use vstd::string::StrSliceExecFns;
use vstd::string::StringExecFns;

use crate::span::Span;
use crate::types::{type_name_view, Type};

verus! {

/// Result of an operation that can fail with an error already rendered
/// against the source text.
pub type CompleteLangResult<T> = Result<T, LangErrorWithSource>;

/// Result of an operation that can fail with a language error.
pub type LangResult<T> = Result<T, LangError>;

/// The closed set of error kinds.
#[derive(Debug, Clone, PartialEq, Eq)]
pub enum LangErrorMsg {
    // Miscellaneous errors
    /// A recognized construct whose execution is not implemented yet.
    Unimplemented,
    /// A defect in an upstream collaborator (parser, checker), never in user
    /// input.
    InternalError(&'static str),
    // Compile errors
    /// An unrecognized symbol in the source.
    UnknownSymbol,
    /// A construct (named by the payload) that never ends.
    Unterminated(&'static str),
    /// An opening delimiter with no matching closing delimiter.
    Unmatched(char, char),
    /// A construct (named by the payload) that was expected but absent.
    Expected(&'static str),
    /// Something other than a directive at the top level of a file.
    TopLevelNonDirective,
    /// A directive with an invalid name.
    InvalidDirectiveName,
    /// A rule without a transition function.
    MissingTransitionFunction,
    /// A rule with more than one transition function.
    MultipleTransitionFunctions,
    // Compile errors for a compiling backend; runtime errors for the
    // interpreter
    /// A value whose type disagrees with the type its use site expects.
    TypeError {
        /// The type the use site expects.
        expected: Type,
        /// The type the value has.
        got: Type,
    },
    /// A variable read before any assignment to it.
    UseOfUninitializedVariable,
    // Runtime errors
    /// Overflow of a checked negation.
    IntegerOverflowDuringNegation,
    /// Overflow of a checked addition.
    IntegerOverflowDuringAddition,
    /// Overflow of a checked subtraction.
    IntegerOverflowDuringSubtraction,
    /// Overflow of a checked multiplication.
    IntegerOverflowDuringMultiplication,
    /// Overflow of a checked division (the minimum value divided by minus
    /// one).
    IntegerOverflowDuringDivision,
    /// Overflow of a checked remainder (the minimum value divided by minus
    /// one).
    IntegerOverflowDuringRemainder,
    /// Division or remainder with a zero right operand.
    DivideByZero,
    /// Conversion of an integer outside `[0, cell_state_count)` to a cell
    /// state.
    CellStateOutOfRange,
}

/// Ghost mirror of [`LangErrorMsg`], with `Seq<char>` payloads.
pub enum LangErrorMsgView {
    /// Mirror of [`LangErrorMsg::Unimplemented`].
    Unimplemented,
    /// Mirror of [`LangErrorMsg::InternalError`].
    InternalError(Seq<char>),
    /// Mirror of [`LangErrorMsg::UnknownSymbol`].
    UnknownSymbol,
    /// Mirror of [`LangErrorMsg::Unterminated`].
    Unterminated(Seq<char>),
    /// Mirror of [`LangErrorMsg::Unmatched`].
    Unmatched(char, char),
    /// Mirror of [`LangErrorMsg::Expected`].
    Expected(Seq<char>),
    /// Mirror of [`LangErrorMsg::TopLevelNonDirective`].
    TopLevelNonDirective,
    /// Mirror of [`LangErrorMsg::InvalidDirectiveName`].
    InvalidDirectiveName,
    /// Mirror of [`LangErrorMsg::MissingTransitionFunction`].
    MissingTransitionFunction,
    /// Mirror of [`LangErrorMsg::MultipleTransitionFunctions`].
    MultipleTransitionFunctions,
    /// Mirror of [`LangErrorMsg::TypeError`].
    TypeError {
        /// The type the use site expects.
        expected: Type,
        /// The type the value has.
        got: Type,
    },
    /// Mirror of [`LangErrorMsg::UseOfUninitializedVariable`].
    UseOfUninitializedVariable,
    /// Mirror of [`LangErrorMsg::IntegerOverflowDuringNegation`].
    IntegerOverflowDuringNegation,
    /// Mirror of [`LangErrorMsg::IntegerOverflowDuringAddition`].
    IntegerOverflowDuringAddition,
    /// Mirror of [`LangErrorMsg::IntegerOverflowDuringSubtraction`].
    IntegerOverflowDuringSubtraction,
    /// Mirror of [`LangErrorMsg::IntegerOverflowDuringMultiplication`].
    IntegerOverflowDuringMultiplication,
    /// Mirror of [`LangErrorMsg::IntegerOverflowDuringDivision`].
    IntegerOverflowDuringDivision,
    /// Mirror of [`LangErrorMsg::IntegerOverflowDuringRemainder`].
    IntegerOverflowDuringRemainder,
    /// Mirror of [`LangErrorMsg::DivideByZero`].
    DivideByZero,
    /// Mirror of [`LangErrorMsg::CellStateOutOfRange`].
    CellStateOutOfRange,
}

impl View for LangErrorMsg {
    type V = LangErrorMsgView;

    open spec fn view(&self) -> LangErrorMsgView {
        match self {
            LangErrorMsg::Unimplemented => LangErrorMsgView::Unimplemented,
            LangErrorMsg::InternalError(s) => LangErrorMsgView::InternalError(s@),
            LangErrorMsg::UnknownSymbol => LangErrorMsgView::UnknownSymbol,
            LangErrorMsg::Unterminated(s) => LangErrorMsgView::Unterminated(s@),
            LangErrorMsg::Unmatched(c1, c2) => LangErrorMsgView::Unmatched(*c1, *c2),
            LangErrorMsg::Expected(s) => LangErrorMsgView::Expected(s@),
            LangErrorMsg::TopLevelNonDirective => LangErrorMsgView::TopLevelNonDirective,
            LangErrorMsg::InvalidDirectiveName => LangErrorMsgView::InvalidDirectiveName,
            LangErrorMsg::MissingTransitionFunction => LangErrorMsgView::MissingTransitionFunction,
            LangErrorMsg::MultipleTransitionFunctions => LangErrorMsgView::MultipleTransitionFunctions,
            LangErrorMsg::TypeError { expected, got } => LangErrorMsgView::TypeError {
                expected: *expected,
                got: *got,
            },
            LangErrorMsg::UseOfUninitializedVariable => LangErrorMsgView::UseOfUninitializedVariable,
            LangErrorMsg::IntegerOverflowDuringNegation => LangErrorMsgView::IntegerOverflowDuringNegation,
            LangErrorMsg::IntegerOverflowDuringAddition => LangErrorMsgView::IntegerOverflowDuringAddition,
            LangErrorMsg::IntegerOverflowDuringSubtraction => LangErrorMsgView::IntegerOverflowDuringSubtraction,
            LangErrorMsg::IntegerOverflowDuringMultiplication => LangErrorMsgView::IntegerOverflowDuringMultiplication,
            LangErrorMsg::IntegerOverflowDuringDivision => LangErrorMsgView::IntegerOverflowDuringDivision,
            LangErrorMsg::IntegerOverflowDuringRemainder => LangErrorMsgView::IntegerOverflowDuringRemainder,
            LangErrorMsg::DivideByZero => LangErrorMsgView::DivideByZero,
            LangErrorMsg::CellStateOutOfRange => LangErrorMsgView::CellStateOutOfRange,
        }
    }
}

/// An error, optionally attributed to a span of the source text.
#[derive(Debug, Clone, PartialEq, Eq)]
pub struct LangError {
    /// Where in the source the error arose, when known.
    pub span: Option<Span>,
    /// What went wrong.
    pub msg: LangErrorMsg,
}

/// Ghost mirror of [`LangError`].
pub struct LangErrorView {
    /// Where in the source the error arose, when known.
    pub span: Option<Span>,
    /// What went wrong.
    pub msg: LangErrorMsgView,
}

impl View for LangError {
    type V = LangErrorView;

    open spec fn view(&self) -> LangErrorView {
        LangErrorView { span: self.span, msg: self.msg@ }
    }
}

impl LangErrorMsg {
    /// Attributes the error to the given span.
    pub fn with_span(self, span: Span) -> (r: LangError)
        ensures
            r@ == (LangErrorView { span: Some(span), msg: self@ }),
    {
        LangError { span: Some(span), msg: self }
    }

    /// Leaves the error without a source location.
    pub fn without_span(self) -> (r: LangError)
        ensures
            r@ == (LangErrorView { span: None::<Span>, msg: self@ }),
    {
        LangError { span: None, msg: self }
    }
}

/// An error resolved against the source text: the line it arose in, the
/// column range to underline, and the message.
#[derive(Debug, Clone, PartialEq, Eq)]
pub struct LangErrorWithSource {
    /// The source line containing the error, when the error has a span.
    pub source_line: Option<String>,
    /// One-based start and end columns of the error within that line.
    pub span: Option<(usize, usize)>,
    /// What went wrong.
    pub msg: LangErrorMsg,
}

/// Ghost mirror of [`LangErrorWithSource`].
pub struct LangErrorWithSourceView {
    /// The source line containing the error, when the error has a span.
    pub source_line: Option<Seq<char>>,
    /// One-based start and end columns of the error within that line.
    pub span: Option<(usize, usize)>,
    /// What went wrong.
    pub msg: LangErrorMsgView,
}

impl View for LangErrorWithSource {
    type V = LangErrorWithSourceView;

    open spec fn view(&self) -> LangErrorWithSourceView {
        LangErrorWithSourceView {
            source_line: match self.source_line {
                Some(ref l) => Some(l@),
                None => None,
            },
            span: self.span,
            msg: self.msg@,
        }
    }
}

// ---------------------------------------------------------------------------
// Resolving a spanned error against the source text.
// ---------------------------------------------------------------------------

/// The position at which the line containing position `pos` starts: `0`, or
/// one past the nearest newline before `pos`.
pub open spec fn line_start(s: Seq<char>, pos: int) -> int
    decreases pos,
{
    if pos <= 0 {
        0
    } else if s[pos - 1] == '\n' {
        pos
    } else {
        line_start(s, pos - 1)
    }
}

/// The position at which the line starting at `pos` ends: the next newline
/// at or after `pos`, or the end of the text.
pub open spec fn line_end(s: Seq<char>, pos: int) -> int
    decreases s.len() - pos,
{
    if !(0 <= pos < s.len()) {
        s.len() as int
    } else if s[pos] == '\n' {
        pos
    } else {
        line_end(s, pos + 1)
    }
}

/// A line's start lies between `0` and the position it was computed from.
pub proof fn lemma_line_start_bounds(s: Seq<char>, pos: int)
    requires
        0 <= pos,
    ensures
        0 <= line_start(s, pos) <= pos,
    decreases pos,
{
    if pos > 0 && s[pos - 1] != '\n' {
        lemma_line_start_bounds(s, pos - 1);
    }
}

/// When every character of `[pos, le)` is not a newline and `le` is the end
/// of the text or a newline, `le` is the line's end.
proof fn lemma_line_end_found(s: Seq<char>, pos: int, le: int)
    requires
        0 <= pos <= le <= s.len(),
        forall|j: int| pos <= j < le ==> s[j] != '\n',
        le == s.len() || s[le] == '\n',
    ensures
        line_end(s, pos) == le,
    decreases le - pos,
{
    if pos < le {
        lemma_line_end_found(s, pos + 1, le);
    }
}

/// The one-based column of position `pos` on the line starting at `ls`,
/// saturating at the largest representable value.
pub open spec fn col_of(pos: int, ls: int) -> usize {
    if pos - ls + 1 >= usize::MAX {
        usize::MAX
    } else {
        (pos - ls + 1) as usize
    }
}

/// What resolving an error against the source text produces.  A span
/// position past the end of the text is treated as the end.  The resolved
/// value holds the source line containing the span's start, and the
/// one-based start and end columns to underline; the end column is taken
/// from the span's end only when it lies on the same line after the start.
pub open spec fn with_source_spec(src: Seq<char>, e: LangErrorView) -> LangErrorWithSourceView {
    match e.span {
        None => LangErrorWithSourceView {
            source_line: None::<Seq<char>>,
            span: None::<(usize, usize)>,
            msg: e.msg,
        },
        Some(sp) => {
            let start = if sp.start > src.len() {
                src.len() as int
            } else {
                sp.start as int
            };
            let end0 = if sp.end > src.len() {
                src.len() as int
            } else {
                sp.end as int
            };
            let end = if end0 < start {
                start
            } else {
                end0
            };
            let ls = line_start(src, start);
            let start_col = col_of(start, ls);
            let end_col = if line_start(src, end) == ls && col_of(end, ls) > start_col {
                col_of(end, ls)
            } else {
                start_col
            };
            LangErrorWithSourceView {
                source_line: Some(src.subrange(ls, line_end(src, ls))),
                span: Some((start_col, end_col)),
                msg: e.msg,
            }
        },
    }
}

impl LangError {
    /// Resolves the error against the original source text, locating the
    /// line and columns its span covers, exactly as [`with_source_spec`]
    /// describes.
    pub fn with_source(self, src: &str) -> (r: LangErrorWithSource)
        ensures
            r@ == with_source_spec(src@, self@),
    {
        let ghost sv = src@;
        match self.span {
            None => LangErrorWithSource { source_line: None, span: None, msg: self.msg },
            Some(sp) => {
                let ulen = src.unicode_len();
                let start = if sp.start > ulen {
                    ulen
                } else {
                    sp.start
                };
                let end0 = if sp.end > ulen {
                    ulen
                } else {
                    sp.end
                };
                let end = if end0 < start {
                    start
                } else {
                    end0
                };
                // Find the start of the line containing `start`.
                let mut ls: usize = 0;
                let mut i: usize = 0;
                while i < start
                    invariant
                        sv == src@,
                        i <= start <= sv.len(),
                        ls == line_start(sv, i as int),
                        ls <= i,
                    decreases start - i,
                {
                    if src.get_char(i) == '\n' {
                        ls = i + 1;
                    }
                    i = i + 1;
                    proof {
                        lemma_line_start_bounds(sv, i as int);
                    }
                }
                // Find the end of that line.
                let mut le: usize = ls;
                while le < ulen && src.get_char(le) != '\n'
                    invariant
                        sv == src@,
                        ulen == sv.len(),
                        ls <= le <= sv.len(),
                        forall|j: int| ls <= j < le ==> sv[j] != '\n',
                    decreases ulen - le,
                {
                    le = le + 1;
                }
                proof {
                    lemma_line_end_found(sv, ls as int, le as int);
                }
                // Find the start of the line containing `end`.
                let mut ls2: usize = ls;
                let mut k: usize = start;
                while k < end
                    invariant
                        sv == src@,
                        start <= k <= end <= sv.len(),
                        ls2 == line_start(sv, k as int),
                        ls2 <= k,
                    decreases end - k,
                {
                    if src.get_char(k) == '\n' {
                        ls2 = k + 1;
                    }
                    k = k + 1;
                    proof {
                        lemma_line_start_bounds(sv, k as int);
                    }
                }
                let start_col = if start - ls >= usize::MAX {
                    usize::MAX
                } else {
                    (start - ls) + 1
                };
                let end_col_raw = if end - ls2 >= usize::MAX {
                    usize::MAX
                } else {
                    (end - ls2) + 1
                };
                let end_col = if ls2 == ls && end_col_raw > start_col {
                    end_col_raw
                } else {
                    start_col
                };
                let line = src.substring_char(ls, le).to_owned();
                LangErrorWithSource {
                    source_line: Some(line),
                    span: Some((start_col, end_col)),
                    msg: self.msg,
                }
            },
        }
    }
}

// ---------------------------------------------------------------------------
// Rendering messages as text.
// ---------------------------------------------------------------------------

/// The human-readable text of an error message.
pub open spec fn msg_text(m: LangErrorMsgView) -> Seq<char> {
    match m {
        LangErrorMsgView::Unimplemented => "This feature is unimplemented"@,
        LangErrorMsgView::InternalError(s) => "Internal error: "@ + s
            + "\nThis is a bug in NDCell, not your code. Please report this to the developer!"@,
        LangErrorMsgView::UnknownSymbol => "Unknown symbol"@,
        LangErrorMsgView::Unterminated(s) => "This "@ + s + " never ends"@,
        LangErrorMsgView::Unmatched(c1, c2) => "This '"@ + seq![c1] + "' has no matching '"@
            + seq![c2] + "'"@,
        LangErrorMsgView::Expected(s) => "Expected "@ + s,
        LangErrorMsgView::TopLevelNonDirective =>
            "Only directives may appear at the top level of a file"@,
        LangErrorMsgView::InvalidDirectiveName => "Invalid directive name"@,
        LangErrorMsgView::MissingTransitionFunction => "Missing transition function"@,
        LangErrorMsgView::MultipleTransitionFunctions => "Multiple transition functions"@,
        LangErrorMsgView::TypeError { expected, got } => "Type error: expected "@ + type_name_view(
            expected,
        ) + " but got "@ + type_name_view(got),
        LangErrorMsgView::UseOfUninitializedVariable =>
            "This variable might not be initialized before use"@,
        LangErrorMsgView::IntegerOverflowDuringNegation => "Integer overflow during negation"@,
        LangErrorMsgView::IntegerOverflowDuringAddition => "Integer overflow during addition"@,
        LangErrorMsgView::IntegerOverflowDuringSubtraction =>
            "Integer overflow during subtraction"@,
        LangErrorMsgView::IntegerOverflowDuringMultiplication =>
            "Integer overflow during multiplication"@,
        LangErrorMsgView::IntegerOverflowDuringDivision => "Integer overflow during division"@,
        LangErrorMsgView::IntegerOverflowDuringRemainder => "Integer overflow during remainder"@,
        LangErrorMsgView::DivideByZero => "Divide by zero"@,
        LangErrorMsgView::CellStateOutOfRange => "Cell state out of range"@,
    }
}

/// `n` copies of `c`.
pub open spec fn repeat_char(c: char, n: int) -> Seq<char> {
    Seq::new(if n < 0 { 0 } else { n as nat }, |i: int| c)
}

/// Relies on `String::push`: appends exactly one character.
#[verifier::external_body]
fn push_char(out: &mut String, c: char)
    ensures
        final(out)@ == old(out)@.push(c),
{
    out.push(c)
}

/// Appends `n` copies of `c`.
fn push_repeated(out: &mut String, c: char, n: usize)
    ensures
        final(out)@ == old(out)@ + repeat_char(c, n as int),
{
    let mut j: usize = 0;
    proof {
        assert(out@ =~= old(out)@ + repeat_char(c, 0));
    }
    while j < n
        invariant
            j <= n,
            out@ == old(out)@ + repeat_char(c, j as int),
        decreases n - j,
    {
        push_char(out, c);
        proof {
            assert(out@ =~= old(out)@ + repeat_char(c, j as int + 1));
        }
        j = j + 1;
    }
}

impl LangErrorMsg {
    /// Returns the human-readable text of the message, exactly as
    /// [`msg_text`] describes.
    pub fn message(&self) -> (r: String)
        ensures
            r@ == msg_text(self@),
    {
        match self {
            LangErrorMsg::Unimplemented => String::from_str("This feature is unimplemented"),
            LangErrorMsg::InternalError(s) => {
                let r = String::from_str("Internal error: ").concat(s).concat(
                    "\nThis is a bug in NDCell, not your code. Please report this to the developer!",
                );
                r
            },
            LangErrorMsg::UnknownSymbol => String::from_str("Unknown symbol"),
            LangErrorMsg::Unterminated(s) => String::from_str("This ").concat(s).concat(
                " never ends",
            ),
            LangErrorMsg::Unmatched(c1, c2) => {
                let mut r = String::from_str("This '");
                push_char(&mut r, *c1);
                let mut r = r.concat("' has no matching '");
                push_char(&mut r, *c2);
                let r = r.concat("'");
                proof {
                    assert(r@ =~= msg_text(self@));
                }
                r
            },
            LangErrorMsg::Expected(s) => String::from_str("Expected ").concat(s),
            LangErrorMsg::TopLevelNonDirective => String::from_str(
                "Only directives may appear at the top level of a file",
            ),
            LangErrorMsg::InvalidDirectiveName => String::from_str("Invalid directive name"),
            LangErrorMsg::MissingTransitionFunction => String::from_str(
                "Missing transition function",
            ),
            LangErrorMsg::MultipleTransitionFunctions => String::from_str(
                "Multiple transition functions",
            ),
            LangErrorMsg::TypeError { expected, got } => {
                let r = String::from_str("Type error: expected ").concat(expected.name()).concat(
                    " but got ",
                ).concat(got.name());
                proof {
                    assert(r@ =~= msg_text(self@));
                }
                r
            },
            LangErrorMsg::UseOfUninitializedVariable => String::from_str(
                "This variable might not be initialized before use",
            ),
            LangErrorMsg::IntegerOverflowDuringNegation => String::from_str(
                "Integer overflow during negation",
            ),
            LangErrorMsg::IntegerOverflowDuringAddition => String::from_str(
                "Integer overflow during addition",
            ),
            LangErrorMsg::IntegerOverflowDuringSubtraction => String::from_str(
                "Integer overflow during subtraction",
            ),
            LangErrorMsg::IntegerOverflowDuringMultiplication => String::from_str(
                "Integer overflow during multiplication",
            ),
            LangErrorMsg::IntegerOverflowDuringDivision => String::from_str(
                "Integer overflow during division",
            ),
            LangErrorMsg::IntegerOverflowDuringRemainder => String::from_str(
                "Integer overflow during remainder",
            ),
            LangErrorMsg::DivideByZero => String::from_str("Divide by zero"),
            LangErrorMsg::CellStateOutOfRange => String::from_str("Cell state out of range"),
        }
    }
}

/// What rendering a resolved error produces: when the source line and
/// columns are known, the source line, a newline, spaces up to the start
/// column, a caret for each column of the span, three spaces, and the
/// message; otherwise the message alone.
pub open spec fn rendered_text(v: LangErrorWithSourceView) -> Seq<char> {
    match (v.source_line, v.span) {
        (Some(line), Some((start, end))) => line + "\n"@ + repeat_char(
            ' ',
            if start >= 1 {
                start - 1
            } else {
                0
            },
        ) + repeat_char(
            '^',
            if end >= start {
                end - start
            } else {
                0
            },
        ) + "   "@ + msg_text(v.msg),
        _ => msg_text(v.msg),
    }
}

impl LangErrorWithSource {
    /// Renders the error as text, exactly as [`rendered_text`] describes:
    /// the source line, a caret underline below the offending columns, and
    /// the message.
    pub fn message(&self) -> (r: String)
        ensures
            r@ == rendered_text(self@),
    {
        match (&self.source_line, &self.span) {
            (Some(line), Some(cols)) => {
                let start = cols.0;
                let end = cols.1;
                let mut out = String::from_str(line.as_str());
                push_char(&mut out, '\n');
                let spaces = if start >= 1 {
                    start - 1
                } else {
                    0
                };
                let carets = if end >= start {
                    end - start
                } else {
                    0
                };
                push_repeated(&mut out, ' ', spaces);
                push_repeated(&mut out, '^', carets);
                let out = out.concat("   ");
                let msg = self.msg.message();
                let out = out.concat(msg.as_str());
                proof {
                    reveal_strlit("\n");
                    assert("\n"@ =~= seq!['\n']);
                    assert(out@ =~= rendered_text(self@));
                }
                out
            },
            _ => self.msg.message(),
        }
    }
}

} // verus!
