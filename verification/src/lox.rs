//! The three stages in a row: text to value.

use vstd::prelude::*;
use vstd::string::*;
use vstd::utf8::encode_utf8;
use crate::error::{plain_error, Error, ErrorKind, ErrorView, Position};
use crate::expr::eval;
use crate::parser::{at_end, expression, parse_error, Parser};
use crate::scanner::{scan, Scanner};
use crate::value::{outcome_view, Value, ValueView};

verus! {

/// The interpreter. It keeps nothing from one text to the next.
#[derive(Debug)]
pub struct Lox {}

/// Whether a text has too many bytes for its positions to be counted.
pub open spec fn too_long(src: Seq<char>) -> bool {
    encode_utf8(src).len() + 1 >= usize::MAX
}

/// The outcome of running a text: its tokens, with the first character in
/// column 1, are parsed as one expression, which must take all of them, and
/// the tree is evaluated. The first stage that fails gives the outcome.
pub open spec fn run_outcome(src: Seq<char>) -> Result<ValueView, ErrorView> {
    if too_long(src) {
        Err(
            plain_error(
                ErrorKind::Syntax,
                "source text too long"@,
                Position { line: 1, column: 1, offset: 0 },
            ),
        )
    } else {
        match scan(src, 1) {
            Ok(tokens) => match expression(tokens, 0) {
                Ok((tree, next)) => if at_end(tokens, next) {
                    eval(tree)
                } else {
                    Err(parse_error(tokens, next, "expected end of input"@))
                },
                Err(e) => Err(e),
            },
            Err(e) => Err(e),
        }
    }
}

impl Lox {
    pub fn new() -> (lox: Self)
        ensures
            lox == (Lox {  }),
    {
        Lox {  }
    }

    /// Scans, parses and evaluates one text. Tokens left after the
    /// expression are a parse error at the first of them.
    pub fn run(&mut self, source: &str) -> (r: Result<Value, Error>)
        ensures
            outcome_view(r) == run_outcome(source@),
    {
        if source.as_bytes().len() >= usize::MAX - 1 {
            return Err(Error::syntax("source text too long", Position::new(1, 1, 0)));
        }
        let mut scanner = Scanner::new(String::from_str(source), Vec::new(), 1);
        let tokens = match scanner.get_tokens() {
            Ok(tokens) => tokens,
            Err(e) => {
                return Err(e);
            },
        };
        let mut parser = Parser::new(tokens);
        let tree = match parser.parse() {
            Ok(tree) => tree,
            Err(e) => {
                return Err(e);
            },
        };
        if !parser.is_at_end() {
            return Err(Error::parse("expected end of input", parser.place()));
        }
        tree.evaluate()
    }
}

} // verus!
