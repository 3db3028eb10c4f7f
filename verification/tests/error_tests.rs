use lox::error::{Error, ErrorKind, Position};

#[test]
fn position_keeps_its_parts() {
    let p = Position::new(3, 7, 42);
    assert_eq!((p.line, p.column, p.offset), (3, 7, 42));
}

#[test]
fn plain_constructors_set_the_kind() {
    let p = Position::new(1, 2, 3);
    let e = Error::syntax("a", p);
    assert_eq!((e.kind, e.message.as_str(), e.position, e.help.clone()), (ErrorKind::Syntax, "a", p, None));
    let e = Error::runtime("b", p);
    assert_eq!((e.kind, e.message.as_str(), e.position, e.help.clone()), (ErrorKind::Runtime, "b", p, None));
    let e = Error::parse("c", p);
    assert_eq!((e.kind, e.message.as_str(), e.position, e.help.clone()), (ErrorKind::Parse, "c", p, None));
    let e = Error::type_error("d", p);
    assert_eq!((e.kind, e.message.as_str(), e.position, e.help.clone()), (ErrorKind::Type, "d", p, None));
}

#[test]
fn with_help_replaces_the_hint_only() {
    let p = Position::new(1, 1, 0);
    let e = Error::parse("m", p).with_help("first").with_help("second");
    assert_eq!(e.kind, ErrorKind::Parse);
    assert_eq!(e.message, "m");
    assert_eq!(e.position, p);
    assert_eq!(e.help.as_deref(), Some("second"));
}

#[test]
fn unexpected_token_names_both_tokens() {
    let e = Error::unexpected_token(")", "+", Position::new(2, 3, 9));
    assert_eq!(e.kind, ErrorKind::Syntax);
    assert_eq!(e.message, "Expected ')', found '+'");
    assert_eq!(e.help.as_deref(), Some("Try using ')' instead"));
    assert_eq!(e.position, Position::new(2, 3, 9));
}

#[test]
fn undefined_variable_names_the_variable() {
    let e = Error::undefined_variable("x", Position::new(1, 1, 0));
    assert_eq!(e.kind, ErrorKind::Runtime);
    assert_eq!(e.message, "Undefined variable 'x'");
    assert_eq!(e.help.as_deref(), Some("Make sure the variable is declared before use"));
}

#[test]
fn division_by_zero_error() {
    let e = Error::division_by_zero(Position::new(4, 5, 6));
    assert_eq!(e.kind, ErrorKind::Runtime);
    assert_eq!(e.message, "Division by zero");
    assert_eq!(e.help.as_deref(), Some("Ensure the denominator is not zero"));
    assert_eq!(e.position, Position::new(4, 5, 6));
}

#[test]
fn invalid_operand_types_names_operator_and_types() {
    let e = Error::invalid_operand_types("-", "number", "string", Position::new(1, 3, 2));
    assert_eq!(e.kind, ErrorKind::Runtime);
    assert_eq!(e.message, "Invalid operand types for -: number and string");
    assert_eq!(e.help.as_deref(), Some("The - operator requires compatible types"));
}

#[test]
fn error_clone_keeps_everything() {
    let e = Error::syntax("m", Position::new(1, 2, 3)).with_help("h");
    let c = e.clone();
    assert_eq!((c.kind, c.message, c.position, c.help), (e.kind, e.message, e.position, e.help));
}
