//! Positions in the source text and the error value shared by every stage.

use vstd::prelude::*;
use vstd::string::*;

verus! {

/// The stage at which a failure was found.
#[derive(Debug, Clone, Copy, PartialEq, Eq, Structural)]
pub enum ErrorKind {
    Syntax,
    Runtime,
    Parse,
    Type,
}

/// A place in the source: row and column count characters from 1, `offset`
/// counts bytes of UTF-8 from the start of the text.
#[derive(Debug, Clone, Copy, PartialEq, Eq, Structural)]
pub struct Position {
    pub line: usize,
    pub column: usize,
    pub offset: usize,
}

impl Position {
    pub fn new(line: usize, column: usize, offset: usize) -> (p: Self)
        ensures
            p == (Position { line, column, offset }),
    {
        Position { line, column, offset }
    }
}

/// A failure of one stage, as a plain value.
#[derive(Debug)]
pub struct Error {
    pub kind: ErrorKind,
    pub message: String,
    pub position: Position,
    pub help: Option<String>,
}

/// The mathematical content of an [`Error`].
pub struct ErrorView {
    pub kind: ErrorKind,
    pub message: Seq<char>,
    pub position: Position,
    pub help: Option<Seq<char>>,
}

/// An error of the given kind without a hint.
pub open spec fn plain_error(kind: ErrorKind, message: Seq<char>, position: Position) -> ErrorView {
    ErrorView { kind, message, position, help: None }
}

/// An error of the given kind with a hint.
pub open spec fn hinted_error(
    kind: ErrorKind,
    message: Seq<char>,
    position: Position,
    help: Seq<char>,
) -> ErrorView {
    ErrorView { kind, message, position, help: Some(help) }
}

impl View for Error {
    type V = ErrorView;

    open spec fn view(&self) -> ErrorView {
        ErrorView {
            kind: self.kind,
            message: self.message@,
            position: self.position,
            help: match self.help {
                Some(h) => Some(h@),
                None => None,
            },
        }
    }
}

impl Clone for Error {
    fn clone(&self) -> (e: Self)
        ensures
            e@ == self@,
    {
        let help = match &self.help {
            Some(h) => Some(h.clone()),
            None => None,
        };
        Error { kind: self.kind, message: self.message.clone(), position: self.position, help }
    }
}

impl Error {
    fn new(kind: ErrorKind, message: &str, position: Position) -> (e: Self)
        ensures
            e@ == plain_error(kind, message@, position),
    {
        Error { kind, message: String::from_str(message), position, help: None }
    }

    /// The same error with `help` as its hint, replacing any earlier one.
    pub fn with_help(self, help: &str) -> (e: Self)
        ensures
            e@ == (ErrorView { help: Some(help@), ..self@ }),
    {
        let Error { kind, message, position, help: _ } = self;
        Error { kind, message, position, help: Some(String::from_str(help)) }
    }

    pub fn syntax(message: &str, position: Position) -> (e: Self)
        ensures
            e@ == plain_error(ErrorKind::Syntax, message@, position),
    {
        Self::new(ErrorKind::Syntax, message, position)
    }

    pub fn runtime(message: &str, position: Position) -> (e: Self)
        ensures
            e@ == plain_error(ErrorKind::Runtime, message@, position),
    {
        Self::new(ErrorKind::Runtime, message, position)
    }

    pub fn parse(message: &str, position: Position) -> (e: Self)
        ensures
            e@ == plain_error(ErrorKind::Parse, message@, position),
    {
        Self::new(ErrorKind::Parse, message, position)
    }

    pub fn type_error(message: &str, position: Position) -> (e: Self)
        ensures
            e@ == plain_error(ErrorKind::Type, message@, position),
    {
        Self::new(ErrorKind::Type, message, position)
    }

    /// A syntax error that names the token that was wanted and the one found.
    pub fn unexpected_token(expected: &str, found: &str, position: Position) -> (e: Self)
        ensures
            e@ == hinted_error(
                ErrorKind::Syntax,
                "Expected '"@ + expected@ + "', found '"@ + found@ + "'"@,
                position,
                "Try using '"@ + expected@ + "' instead"@,
            ),
    {
        let mut message = String::from_str("Expected '");
        message.append(expected);
        message.append("', found '");
        message.append(found);
        message.append("'");
        let mut help = String::from_str("Try using '");
        help.append(expected);
        help.append("' instead");
        Self::syntax(message.as_str(), position).with_help(help.as_str())
    }

    /// A runtime error for a name that was never declared.
    pub fn undefined_variable(name: &str, position: Position) -> (e: Self)
        ensures
            e@ == hinted_error(
                ErrorKind::Runtime,
                "Undefined variable '"@ + name@ + "'"@,
                position,
                "Make sure the variable is declared before use"@,
            ),
    {
        let mut message = String::from_str("Undefined variable '");
        message.append(name);
        message.append("'");
        Self::runtime(message.as_str(), position).with_help(
            "Make sure the variable is declared before use",
        )
    }

    /// The runtime error kept for a zero denominator.
    pub fn division_by_zero(position: Position) -> (e: Self)
        ensures
            e@ == hinted_error(
                ErrorKind::Runtime,
                "Division by zero"@,
                position,
                "Ensure the denominator is not zero"@,
            ),
    {
        Self::runtime("Division by zero", position).with_help("Ensure the denominator is not zero")
    }

    /// A runtime error for an operator applied to operands it does not take.
    pub fn invalid_operand_types(op: &str, left: &str, right: &str, position: Position) -> (e: Self)
        ensures
            e@ == hinted_error(
                ErrorKind::Runtime,
                "Invalid operand types for "@ + op@ + ": "@ + left@ + " and "@ + right@,
                position,
                "The "@ + op@ + " operator requires compatible types"@,
            ),
    {
        let mut message = String::from_str("Invalid operand types for ");
        message.append(op);
        message.append(": ");
        message.append(left);
        message.append(" and ");
        message.append(right);
        let mut help = String::from_str("The ");
        help.append(op);
        help.append(" operator requires compatible types");
        Self::runtime(message.as_str(), position).with_help(help.as_str())
    }
}

} // verus!
