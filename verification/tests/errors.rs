use ndca::errors::{LangError, LangErrorMsg};
use ndca::span::Span;
use ndca::types::Type;

#[test]
fn with_span_and_without_span_build_the_error() {
    let e = LangErrorMsg::DivideByZero.with_span(Span { start: 3, end: 7 });
    assert_eq!(e.span, Some(Span { start: 3, end: 7 }));
    assert_eq!(e.msg, LangErrorMsg::DivideByZero);
    let e = LangErrorMsg::UnknownSymbol.without_span();
    assert_eq!(e.span, None);
    assert_eq!(e.msg, LangErrorMsg::UnknownSymbol);
}

#[test]
fn with_source_locates_the_line_and_columns() {
    let src = "set x = 3\nset y = 10 % 0";
    // Characters 15..18 are "10 " on the second line; columns are 1-based.
    let e = LangErrorMsg::DivideByZero.with_span(Span { start: 15, end: 18 });
    let resolved = e.with_source(src);
    assert_eq!(resolved.source_line.as_deref(), Some("set y = 10 % 0"));
    assert_eq!(resolved.span, Some((6, 9)));
    assert_eq!(resolved.msg, LangErrorMsg::DivideByZero);
}

#[test]
fn with_source_on_the_first_line() {
    let src = "become #2";
    let e = LangErrorMsg::CellStateOutOfRange.with_span(Span { start: 7, end: 9 });
    let resolved = e.with_source(src);
    assert_eq!(resolved.source_line.as_deref(), Some("become #2"));
    assert_eq!(resolved.span, Some((8, 10)));
}

#[test]
fn with_source_without_a_span_keeps_only_the_message() {
    let e = LangErrorMsg::MissingTransitionFunction.without_span();
    let resolved = e.with_source("whatever");
    assert_eq!(resolved.source_line, None);
    assert_eq!(resolved.span, None);
    assert_eq!(resolved.msg, LangErrorMsg::MissingTransitionFunction);
}

#[test]
fn with_source_spanning_two_lines_collapses_to_one_column() {
    let src = "ab\ncd";
    let e = LangErrorMsg::UnknownSymbol.with_span(Span { start: 1, end: 4 });
    let resolved = e.with_source(src);
    assert_eq!(resolved.source_line.as_deref(), Some("ab"));
    // The end lies on another line, so the span collapses to the start
    // column alone.
    assert_eq!(resolved.span, Some((2, 2)));
}

#[test]
fn with_source_clamps_positions_past_the_end() {
    let src = "xy";
    let e = LangErrorMsg::UnknownSymbol.with_span(Span { start: 50, end: 60 });
    let resolved = e.with_source(src);
    assert_eq!(resolved.source_line.as_deref(), Some("xy"));
    assert_eq!(resolved.span, Some((3, 3)));
}

#[test]
fn rendered_error_underlines_the_span() {
    let src = "set y = 10 % 0";
    let e = LangErrorMsg::DivideByZero.with_span(Span { start: 8, end: 14 });
    let rendered = e.with_source(src).message();
    assert_eq!(rendered, "set y = 10 % 0\n        ^^^^^^   Divide by zero");
}

#[test]
fn rendered_error_without_a_span_is_the_message_alone() {
    let e = LangErrorMsg::MultipleTransitionFunctions.without_span();
    assert_eq!(e.with_source("x").message(), "Multiple transition functions");
}

#[test]
fn message_texts() {
    assert_eq!(LangErrorMsg::Unimplemented.message(), "This feature is unimplemented");
    assert_eq!(
        LangErrorMsg::TypeError { expected: Type::Int, got: Type::CellState }.message(),
        "Type error: expected integer but got cell state"
    );
    assert_eq!(
        LangErrorMsg::Unmatched('(', ')').message(),
        "This '(' has no matching ')'"
    );
    assert_eq!(
        LangErrorMsg::Unterminated("string").message(),
        "This string never ends"
    );
    assert_eq!(LangErrorMsg::Expected("expression").message(), "Expected expression");
    assert_eq!(
        LangErrorMsg::InternalError("oops").message(),
        "Internal error: oops\nThis is a bug in NDCell, not your code. Please report this to the developer!"
    );
    assert_eq!(
        LangErrorMsg::IntegerOverflowDuringNegation.message(),
        "Integer overflow during negation"
    );
}

#[test]
fn error_equality_is_by_span_and_kind() {
    let a = LangError { span: Some(Span { start: 1, end: 2 }), msg: LangErrorMsg::DivideByZero };
    let b = LangErrorMsg::DivideByZero.with_span(Span { start: 1, end: 2 });
    assert_eq!(a, b);
}
