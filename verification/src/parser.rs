//! The parser: tokens to one expression tree, by recursive descent.

use vstd::prelude::*;
use vstd::string::*;
use crate::error::{plain_error, Error, ErrorKind, ErrorView, Position};
use crate::expr::{
    binary_node, grouping_node, ternary_node, unary_node, Expr, ExprView, Literal, LiteralView,
};
use crate::number::{double_of_text, read_double};
use crate::scanner::{is_decimal, is_decimal_text};
use crate::token::{token_views, Token, TokenKind, TokenView};

verus! {

/// The levels of infix operators, which all group to the left.
#[derive(Debug, Clone, Copy, PartialEq, Eq, Structural)]
pub enum Level {
    /// `,`
    Comma,
    /// `!=` and `==`
    Equality,
    /// `>`, `>=`, `<` and `<=`
    Comparison,
    /// `+` and `-`
    Term,
    /// `/` and `*`
    Factor,
}

/// The operators of a level.
pub open spec fn level_operators(level: Level) -> Seq<TokenKind> {
    match level {
        Level::Comma => seq![TokenKind::Comma],
        Level::Equality => seq![TokenKind::BangEqual, TokenKind::EqualEqual],
        Level::Comparison => seq![
            TokenKind::Greater,
            TokenKind::GreaterEqual,
            TokenKind::Less,
            TokenKind::LessEqual,
        ],
        Level::Term => seq![TokenKind::Plus, TokenKind::Minus],
        Level::Factor => seq![TokenKind::Slash, TokenKind::Star],
    }
}

/// How loosely a level binds: the larger, the looser. The conditional
/// stands between equality and the comma.
pub open spec fn level_rank(level: Level) -> int {
    match level {
        Level::Factor => 1,
        Level::Term => 2,
        Level::Comparison => 3,
        Level::Equality => 4,
        Level::Comma => 6,
    }
}

/// Whether nothing is left to read at `pos`: the tokens are used up, or the
/// end token stands there.
pub open spec fn at_end(ts: Seq<TokenView>, pos: int) -> bool {
    pos < 0 || pos >= ts.len() || ts[pos].kind == TokenKind::Eof
}

/// Whether a token of one of `kinds` stands at `pos`.
pub open spec fn holds_any(ts: Seq<TokenView>, pos: int, kinds: Seq<TokenKind>) -> bool {
    !at_end(ts, pos) && kinds.contains(ts[pos].kind)
}

/// Whether a token of `kind` stands at `pos`.
pub open spec fn holds(ts: Seq<TokenView>, pos: int, kind: TokenKind) -> bool {
    !at_end(ts, pos) && ts[pos].kind == kind
}

/// The place that an error at `pos` reports: that of the token there, or
/// the start of the text where the tokens are used up.
pub open spec fn place(ts: Seq<TokenView>, pos: int) -> Position {
    if 0 <= pos < ts.len() {
        ts[pos].position()
    } else {
        Position { line: 1, column: 1, offset: 0 }
    }
}

/// Whether reading from `pos` to `next` took at least one token and stayed
/// inside the tokens. Every successful step of the grammar does.
pub open spec fn moved(ts: Seq<TokenView>, pos: int, next: int) -> bool {
    pos < next <= ts.len()
}

/// A parse error at `pos`.
pub open spec fn parse_error(ts: Seq<TokenView>, pos: int, message: Seq<char>) -> ErrorView {
    plain_error(ErrorKind::Parse, message, place(ts, pos))
}

/// A tree and the index of the first token after it, or an error.
pub type Parsed = Result<(ExprView, int), ErrorView>;

/// What reading the text of a number token gives: the double that the text
/// is read as where it is a number as the scanner reads one, else nothing.
pub open spec fn number_read(text: Seq<char>) -> Option<u64> {
    if is_decimal(text) {
        Some(double_of_text(text))
    } else {
        None
    }
}

/// The number that a number token stands for, given what reading its text
/// gave, or a parse error at `position` where the text was refused.
pub open spec fn number_outcome(read: Option<u64>, position: Position) -> Result<
    ExprView,
    ErrorView,
> {
    match read {
        Some(bits) => Ok(ExprView::Literal(LiteralView::Number(bits))),
        None => Err(plain_error(ErrorKind::Parse, "invalid number literal"@, position)),
    }
}

/// A constant or a parenthesised expression at `pos`; anything else is an
/// error there.
pub open spec fn primary(ts: Seq<TokenView>, pos: int) -> Parsed
    decreases ts.len() - pos, 0int,
{
    if holds(ts, pos, TokenKind::False) {
        Ok((ExprView::Literal(LiteralView::Bool(false)), pos + 1))
    } else if holds(ts, pos, TokenKind::True) {
        Ok((ExprView::Literal(LiteralView::Bool(true)), pos + 1))
    } else if holds(ts, pos, TokenKind::Nil) {
        Ok((ExprView::Literal(LiteralView::Nil), pos + 1))
    } else if holds(ts, pos, TokenKind::Number) {
        match number_outcome(number_read(ts[pos].lexeme), ts[pos].position()) {
            Ok(e) => Ok((e, pos + 1)),
            Err(err) => Err(err),
        }
    } else if holds(ts, pos, TokenKind::String) {
        Ok((ExprView::Literal(LiteralView::String(ts[pos].lexeme)), pos + 1))
    } else if holds(ts, pos, TokenKind::LeftParen) {
        match expression(ts, pos + 1) {
            Ok((inner, next)) => if holds(ts, next, TokenKind::RightParen) {
                Ok((grouping_node(inner), next + 1))
            } else {
                Err(parse_error(ts, next, "expected ')' after expression"@))
            },
            Err(err) => Err(err),
        }
    } else {
        Err(parse_error(ts, pos, "unexpected token"@))
    }
}

/// Any number of `!` and `-` in front of a primary.
pub open spec fn unary(ts: Seq<TokenView>, pos: int) -> Parsed
    decreases ts.len() - pos, 1int,
{
    if holds_any(ts, pos, seq![TokenKind::Bang, TokenKind::Minus]) {
        match unary(ts, pos + 1) {
            Ok((right, next)) => Ok((unary_node(ts[pos], right), next)),
            Err(err) => Err(err),
        }
    } else {
        primary(ts, pos)
    }
}

/// One operand of a level: an expression of the next tighter level.
pub open spec fn operand(ts: Seq<TokenView>, level: Level, pos: int) -> Parsed
    decreases ts.len() - pos, 2 * level_rank(level),
{
    match level {
        Level::Comma => ternary(ts, pos),
        Level::Equality => binary(ts, Level::Comparison, pos),
        Level::Comparison => binary(ts, Level::Term, pos),
        Level::Term => binary(ts, Level::Factor, pos),
        Level::Factor => unary(ts, pos),
    }
}

/// What follows the operand `left` of a level: as long as an operator of
/// the level stands at `pos`, it and the operand after it are folded into
/// `left`, on the left side. The test on `next` only shows that the
/// recursion ends: an operand is never empty, so it always holds
/// (`lemma_binary_rest_unfolds`).
pub open spec fn binary_rest(ts: Seq<TokenView>, level: Level, pos: int, left: ExprView) -> Parsed
    decreases ts.len() - pos, 2 * level_rank(level),
{
    if holds_any(ts, pos, level_operators(level)) {
        match operand(ts, level, pos + 1) {
            Ok((right, next)) => if moved(ts, pos, next) {
                binary_rest(ts, level, next, binary_node(left, ts[pos], right))
            } else {
                Ok((binary_node(left, ts[pos], right), next))
            },
            Err(err) => Err(err),
        }
    } else {
        Ok((left, pos))
    }
}

/// An expression of a level: operands joined by the level's operators,
/// grouped to the left. The test on `next` only shows that the recursion
/// ends: it always holds (`lemma_binary_unfolds`).
pub open spec fn binary(ts: Seq<TokenView>, level: Level, pos: int) -> Parsed
    decreases ts.len() - pos, 2 * level_rank(level) + 1,
{
    match operand(ts, level, pos) {
        Ok((left, next)) => if moved(ts, pos, next) {
            binary_rest(ts, level, next, left)
        } else {
            Ok((left, next))
        },
        Err(err) => Err(err),
    }
}

/// A conditional, or the equality it starts with: after `?` a whole
/// expression, then `:`, then a conditional again, so that conditionals
/// chain to the right. The tests on `next` and `colon` only show that the
/// recursion ends: they always hold (`lemma_ternary_unfolds`).
pub open spec fn ternary(ts: Seq<TokenView>, pos: int) -> Parsed
    decreases ts.len() - pos, 10int,
{
    match binary(ts, Level::Equality, pos) {
        Ok((condition, next)) => if moved(ts, pos, next) && holds(ts, next, TokenKind::Question) {
            match expression(ts, next + 1) {
                Ok((then_expr, colon)) => if moved(ts, next, colon) && holds(ts, colon, TokenKind::Colon) {
                    match ternary(ts, colon + 1) {
                        Ok((else_expr, end)) => Ok(
                            (ternary_node(condition, then_expr, else_expr), end),
                        ),
                        Err(err) => Err(err),
                    }
                } else {
                    Err(parse_error(ts, colon, "expected ':' after then-branch"@))
                },
                Err(err) => Err(err),
            }
        } else {
            Ok((condition, next))
        },
        Err(err) => Err(err),
    }
}

/// A whole expression: the loosest level.
pub open spec fn expression(ts: Seq<TokenView>, pos: int) -> Parsed
    decreases ts.len() - pos, 14int,
{
    binary(ts, Level::Comma, pos)
}

/// The tree of the one expression that starts at `pos`, or the first error.
/// Tokens after the expression are not looked at.
pub open spec fn parse_outcome(ts: Seq<TokenView>, pos: int) -> Result<ExprView, ErrorView> {
    match expression(ts, pos) {
        Ok((e, _)) => Ok(e),
        Err(err) => Err(err),
    }
}

/// The content of a parse's outcome.
pub open spec fn parse_view(r: Result<Expr, Error>) -> Result<ExprView, ErrorView> {
    match r {
        Ok(e) => Ok(e@),
        Err(err) => Err(err@),
    }
}

/// Whether the outcome `r`, with the cursor left at `cursor`, is what the
/// grammar gives.
pub open spec fn agrees(r: Result<Expr, Error>, cursor: int, model: Parsed) -> bool {
    match model {
        Ok((e, next)) => r is Ok && r->Ok_0@ == e && cursor == next,
        Err(err) => r is Err && r->Err_0@ == err,
    }
}

/// Whether a successful outcome of reading at `pos` started inside the
/// tokens, took at least one of them and stayed inside.
pub open spec fn steps(ts: Seq<TokenView>, pos: int, r: Parsed) -> bool {
    r is Ok ==> 0 <= pos && moved(ts, pos, r->Ok_0.1)
}

/// A primary is never empty.
pub proof fn lemma_primary_moves(ts: Seq<TokenView>, pos: int)
    ensures
        steps(ts, pos, primary(ts, pos)),
    decreases ts.len() - pos, 0int,
{
    if holds(ts, pos, TokenKind::LeftParen) {
        lemma_expression_moves(ts, pos + 1);
    }
}

/// A prefix expression is never empty.
pub proof fn lemma_unary_moves(ts: Seq<TokenView>, pos: int)
    ensures
        steps(ts, pos, unary(ts, pos)),
    decreases ts.len() - pos, 1int,
{
    if holds_any(ts, pos, seq![TokenKind::Bang, TokenKind::Minus]) {
        lemma_unary_moves(ts, pos + 1);
    } else {
        lemma_primary_moves(ts, pos);
    }
}

/// An operand of a level is never empty.
pub proof fn lemma_operand_moves(ts: Seq<TokenView>, level: Level, pos: int)
    ensures
        steps(ts, pos, operand(ts, level, pos)),
    decreases ts.len() - pos, 2 * level_rank(level),
{
    match level {
        Level::Comma => lemma_ternary_moves(ts, pos),
        Level::Equality => lemma_binary_moves(ts, Level::Comparison, pos),
        Level::Comparison => lemma_binary_moves(ts, Level::Term, pos),
        Level::Term => lemma_binary_moves(ts, Level::Factor, pos),
        Level::Factor => lemma_unary_moves(ts, pos),
    }
}

/// What follows an operand ends at or behind `pos`, inside the tokens.
pub proof fn lemma_binary_rest_stays(ts: Seq<TokenView>, level: Level, pos: int, left: ExprView)
    requires
        0 <= pos <= ts.len(),
    ensures
        binary_rest(ts, level, pos, left) is Ok ==> pos <= binary_rest(
            ts,
            level,
            pos,
            left,
        )->Ok_0.1 <= ts.len(),
    decreases ts.len() - pos, 2 * level_rank(level),
{
    if holds_any(ts, pos, level_operators(level)) {
        lemma_operand_moves(ts, level, pos + 1);
        if let Ok((right, next)) = operand(ts, level, pos + 1) {
            lemma_binary_rest_stays(ts, level, next, binary_node(left, ts[pos], right));
        }
    }
}

/// An expression of a level is never empty.
pub proof fn lemma_binary_moves(ts: Seq<TokenView>, level: Level, pos: int)
    ensures
        steps(ts, pos, binary(ts, level, pos)),
    decreases ts.len() - pos, 2 * level_rank(level) + 1,
{
    lemma_operand_moves(ts, level, pos);
    if let Ok((left, next)) = operand(ts, level, pos) {
        lemma_binary_rest_stays(ts, level, next, left);
    }
}

/// A conditional is never empty.
pub proof fn lemma_ternary_moves(ts: Seq<TokenView>, pos: int)
    ensures
        steps(ts, pos, ternary(ts, pos)),
    decreases ts.len() - pos, 10int,
{
    lemma_binary_moves(ts, Level::Equality, pos);
    if let Ok((condition, next)) = binary(ts, Level::Equality, pos) {
        if holds(ts, next, TokenKind::Question) {
            lemma_expression_moves(ts, next + 1);
            if let Ok((then_expr, colon)) = expression(ts, next + 1) {
                if holds(ts, colon, TokenKind::Colon) {
                    lemma_ternary_moves(ts, colon + 1);
                }
            }
        }
    }
}

/// An expression is never empty: every successful parse takes at least one
/// token and ends inside the tokens.
pub proof fn lemma_expression_moves(ts: Seq<TokenView>, pos: int)
    ensures
        steps(ts, pos, expression(ts, pos)),
    decreases ts.len() - pos, 14int,
{
    lemma_binary_moves(ts, Level::Comma, pos);
}

/// An expression of a level is an operand and what follows it.
pub proof fn lemma_binary_unfolds(ts: Seq<TokenView>, level: Level, pos: int)
    ensures
        binary(ts, level, pos) == match operand(ts, level, pos) {
            Ok((left, next)) => binary_rest(ts, level, next, left),
            Err(err) => Err(err),
        },
{
    lemma_operand_moves(ts, level, pos);
}

/// After an operand, an operator of the level takes the next operand with
/// it, and the two operands form the left operand of what follows.
pub proof fn lemma_binary_rest_unfolds(ts: Seq<TokenView>, level: Level, pos: int, left: ExprView)
    requires
        holds_any(ts, pos, level_operators(level)),
    ensures
        binary_rest(ts, level, pos, left) == match operand(ts, level, pos + 1) {
            Ok((right, next)) => binary_rest(ts, level, next, binary_node(left, ts[pos], right)),
            Err(err) => Err(err),
        },
{
    lemma_operand_moves(ts, level, pos + 1);
}

/// A conditional with both its marks is its condition, a whole expression
/// and a conditional.
pub proof fn lemma_ternary_unfolds(ts: Seq<TokenView>, pos: int)
    ensures
        ternary(ts, pos) == match binary(ts, Level::Equality, pos) {
            Ok((condition, next)) => if holds(ts, next, TokenKind::Question) {
                match expression(ts, next + 1) {
                    Ok((then_expr, colon)) => if holds(ts, colon, TokenKind::Colon) {
                        match ternary(ts, colon + 1) {
                            Ok((else_expr, end)) => Ok(
                                (ternary_node(condition, then_expr, else_expr), end),
                            ),
                            Err(err) => Err(err),
                        }
                    } else {
                        Err(parse_error(ts, colon, "expected ':' after then-branch"@))
                    },
                    Err(err) => Err(err),
                }
            } else {
                Ok((condition, next))
            },
            Err(err) => Err(err),
        },
{
    lemma_binary_moves(ts, Level::Equality, pos);
    if let Ok((condition, next)) = binary(ts, Level::Equality, pos) {
        lemma_expression_moves(ts, next + 1);
    }
}

/// A parser over a run of tokens, with a cursor on the next one to read.
#[derive(Debug)]
pub struct Parser {
    tokens: Vec<Token>,
    current: usize,
}

/// The tree of a number token, given what reading its text gave: the number
/// read, or a parse error at `position` where the text was refused.
pub fn number_literal(read: Option<u64>, position: Position) -> (r: Result<Expr, Error>)
    ensures
        parse_view(r) == number_outcome(read, position),
{
    match read {
        Some(bits) => Ok(Expr::Literal(Literal::Number(bits))),
        None => Err(Error::parse("invalid number literal", position)),
    }
}

impl Parser {
    /// The tokens being parsed.
    pub closed spec fn tokens_view(&self) -> Seq<TokenView> {
        token_views(self.tokens@)
    }

    /// The index of the next token to read.
    pub closed spec fn cursor(&self) -> int {
        self.current as int
    }

    /// The parser's invariant: the cursor lies inside the tokens or just
    /// behind them.
    pub closed spec fn wf(&self) -> bool {
        self.current <= self.tokens@.len()
    }

    /// Whether `before` is this parser with the cursor elsewhere.
    spec fn follows(&self, before: &Parser) -> bool {
        self.wf() && self.tokens == before.tokens
    }

    /// A parser at the first of `tokens`.
    pub fn new(tokens: Vec<Token>) -> (p: Self)
        ensures
            p.wf(),
            p.tokens_view() == token_views(tokens@),
            p.cursor() == 0,
    {
        Parser { tokens, current: 0 }
    }

    /// Parses the one expression that starts at the cursor and leaves the
    /// cursor behind it. The first error ends the parse and puts the cursor
    /// back to where the parse began.
    pub fn parse(&mut self) -> (r: Result<Expr, Error>)
        requires
            old(self).wf(),
        ensures
            final(self).wf(),
            final(self).tokens_view() == old(self).tokens_view(),
            parse_view(r) == parse_outcome(old(self).tokens_view(), old(self).cursor()),
            agrees(r, final(self).cursor(), expression(old(self).tokens_view(), old(self).cursor())),
            r is Err ==> final(self).cursor() == old(self).cursor(),
    {
        let begin = self.current;
        let r = self.expression();
        if r.is_err() {
            self.current = begin;
        }
        r
    }

    fn expression(&mut self) -> (r: Result<Expr, Error>)
        requires
            old(self).wf(),
        ensures
            final(self).follows(old(self)),
            agrees(r, final(self).cursor(), expression(old(self).tokens_view(), old(self).cursor())),
            r is Ok ==> final(self).current > old(self).current,
        decreases old(self).tokens@.len() - old(self).current, 27int,
    {
        self.comma()
    }

    fn comma(&mut self) -> (r: Result<Expr, Error>)
        requires
            old(self).wf(),
        ensures
            final(self).follows(old(self)),
            agrees(
                r,
                final(self).cursor(),
                binary(old(self).tokens_view(), Level::Comma, old(self).cursor()),
            ),
            r is Ok ==> final(self).current > old(self).current,
        decreases old(self).tokens@.len() - old(self).current, 26int,
    {
        self.binary_level(Level::Comma)
    }

    fn ternary(&mut self) -> (r: Result<Expr, Error>)
        requires
            old(self).wf(),
        ensures
            final(self).follows(old(self)),
            agrees(r, final(self).cursor(), ternary(old(self).tokens_view(), old(self).cursor())),
            r is Ok ==> final(self).current > old(self).current,
        decreases old(self).tokens@.len() - old(self).current, 20int,
    {
        let expr = match self.equality() {
            Ok(e) => e,
            Err(err) => {
                return Err(err);
            },
        };
        if self.match_token(vec![TokenKind::Question].as_slice()) {
            let then_expr = match self.expression() {
                Ok(e) => e,
                Err(err) => {
                    return Err(err);
                },
            };
            if !self.match_token(vec![TokenKind::Colon].as_slice()) {
                return Err(Error::parse("expected ':' after then-branch", self.place()));
            }
            let else_expr = match self.ternary() {
                Ok(e) => e,
                Err(err) => {
                    return Err(err);
                },
            };
            return Ok(
                Expr::Ternary {
                    condition: Box::new(expr),
                    then_expr: Box::new(then_expr),
                    else_expr: Box::new(else_expr),
                },
            );
        }
        Ok(expr)
    }

    fn equality(&mut self) -> (r: Result<Expr, Error>)
        requires
            old(self).wf(),
        ensures
            final(self).follows(old(self)),
            agrees(
                r,
                final(self).cursor(),
                binary(old(self).tokens_view(), Level::Equality, old(self).cursor()),
            ),
            r is Ok ==> final(self).current > old(self).current,
        decreases old(self).tokens@.len() - old(self).current, 18int,
    {
        self.binary_level(Level::Equality)
    }

    fn comparison(&mut self) -> (r: Result<Expr, Error>)
        requires
            old(self).wf(),
        ensures
            final(self).follows(old(self)),
            agrees(
                r,
                final(self).cursor(),
                binary(old(self).tokens_view(), Level::Comparison, old(self).cursor()),
            ),
            r is Ok ==> final(self).current > old(self).current,
        decreases old(self).tokens@.len() - old(self).current, 14int,
    {
        self.binary_level(Level::Comparison)
    }

    fn term(&mut self) -> (r: Result<Expr, Error>)
        requires
            old(self).wf(),
        ensures
            final(self).follows(old(self)),
            agrees(
                r,
                final(self).cursor(),
                binary(old(self).tokens_view(), Level::Term, old(self).cursor()),
            ),
            r is Ok ==> final(self).current > old(self).current,
        decreases old(self).tokens@.len() - old(self).current, 10int,
    {
        self.binary_level(Level::Term)
    }

    fn factor(&mut self) -> (r: Result<Expr, Error>)
        requires
            old(self).wf(),
        ensures
            final(self).follows(old(self)),
            agrees(
                r,
                final(self).cursor(),
                binary(old(self).tokens_view(), Level::Factor, old(self).cursor()),
            ),
            r is Ok ==> final(self).current > old(self).current,
        decreases old(self).tokens@.len() - old(self).current, 6int,
    {
        self.binary_level(Level::Factor)
    }

    /// One operand of a level.
    fn operand(&mut self, level: Level) -> (r: Result<Expr, Error>)
        requires
            old(self).wf(),
        ensures
            final(self).follows(old(self)),
            agrees(
                r,
                final(self).cursor(),
                operand(old(self).tokens_view(), level, old(self).cursor()),
            ),
            r is Ok ==> final(self).current > old(self).current,
        decreases old(self).tokens@.len() - old(self).current, 4 * level_rank(level),
    {
        match level {
            Level::Comma => self.ternary(),
            Level::Equality => self.comparison(),
            Level::Comparison => self.term(),
            Level::Term => self.factor(),
            Level::Factor => self.unary(),
        }
    }

    /// The operators of a level.
    fn operators(level: Level) -> (kinds: Vec<TokenKind>)
        ensures
            kinds@ == level_operators(level),
    {
        match level {
            Level::Comma => vec![TokenKind::Comma],
            Level::Equality => vec![TokenKind::BangEqual, TokenKind::EqualEqual],
            Level::Comparison => vec![
                TokenKind::Greater,
                TokenKind::GreaterEqual,
                TokenKind::Less,
                TokenKind::LessEqual,
            ],
            Level::Term => vec![TokenKind::Plus, TokenKind::Minus],
            Level::Factor => vec![TokenKind::Slash, TokenKind::Star],
        }
    }

    /// An expression of a level: one operand, then operators of the level
    /// with an operand each, folded to the left.
    fn binary_level(&mut self, level: Level) -> (r: Result<Expr, Error>)
        requires
            old(self).wf(),
        ensures
            final(self).follows(old(self)),
            agrees(
                r,
                final(self).cursor(),
                binary(old(self).tokens_view(), level, old(self).cursor()),
            ),
            r is Ok ==> final(self).current > old(self).current,
        decreases old(self).tokens@.len() - old(self).current, 4 * level_rank(level) + 1,
    {
        let ghost ts = self.tokens_view();
        let ghost goal = binary(ts, level, self.cursor());
        let mut expr = match self.operand(level) {
            Ok(e) => e,
            Err(err) => {
                return Err(err);
            },
        };
        let kinds = Self::operators(level);
        loop
            invariant
                self.follows(old(self)),
                ts == old(self).tokens_view(),
                kinds@ == level_operators(level),
                self.current > old(self).current,
                goal == binary(ts, level, old(self).cursor()),
                binary_rest(ts, level, self.cursor(), expr@) == goal,
            ensures
                self.follows(old(self)),
                self.current > old(self).current,
                goal == Ok::<(ExprView, int), ErrorView>((expr@, self.cursor())),
            decreases self.tokens@.len() - self.current,
        {
            let ghost pos = self.cursor();
            let ghost left = expr@;
            if !self.match_token(kinds.as_slice()) {
                break;
            }
            let operator = self.previous();
            let right = match self.operand(level) {
                Ok(e) => e,
                Err(err) => {
                    assert(binary_rest(ts, level, pos, left) == Err::<(ExprView, int), ErrorView>(
                        err@,
                    ));
                    return Err(err);
                },
            };
            expr = Expr::Binary { left: Box::new(expr), operator, right: Box::new(right) };
            assert(expr@ == binary_node(left, ts[pos], right@));
            assert(moved(ts, pos, self.cursor()));
        }
        Ok(expr)
    }

    fn unary(&mut self) -> (r: Result<Expr, Error>)
        requires
            old(self).wf(),
        ensures
            final(self).follows(old(self)),
            agrees(r, final(self).cursor(), unary(old(self).tokens_view(), old(self).cursor())),
            r is Ok ==> final(self).current > old(self).current,
        decreases old(self).tokens@.len() - old(self).current, 2int,
    {
        if self.match_token(vec![TokenKind::Bang, TokenKind::Minus].as_slice()) {
            let operator = self.previous();
            let right = match self.unary() {
                Ok(e) => e,
                Err(err) => {
                    return Err(err);
                },
            };
            return Ok(Expr::Unary { operator, right: Box::new(right) });
        }
        self.primary()
    }

    fn primary(&mut self) -> (r: Result<Expr, Error>)
        requires
            old(self).wf(),
        ensures
            final(self).follows(old(self)),
            agrees(r, final(self).cursor(), primary(old(self).tokens_view(), old(self).cursor())),
            r is Ok ==> final(self).current > old(self).current,
        decreases old(self).tokens@.len() - old(self).current, 0int,
    {
        if self.match_token(vec![TokenKind::False].as_slice()) {
            return Ok(Expr::Literal(Literal::Bool(false)));
        }
        if self.match_token(vec![TokenKind::True].as_slice()) {
            return Ok(Expr::Literal(Literal::Bool(true)));
        }
        if self.match_token(vec![TokenKind::Nil].as_slice()) {
            return Ok(Expr::Literal(Literal::Nil));
        }
        if self.match_token(vec![TokenKind::Number].as_slice()) {
            let token = self.previous();
            let read = if is_decimal_text(token.lexeme.as_str()) {
                read_double(token.lexeme.as_str())
            } else {
                None
            };
            return number_literal(read, token.position());
        }
        if self.match_token(vec![TokenKind::String].as_slice()) {
            return Ok(Expr::Literal(Literal::String(self.previous().lexeme)));
        }
        if self.match_token(vec![TokenKind::LeftParen].as_slice()) {
            let expr = match self.expression() {
                Ok(e) => e,
                Err(err) => {
                    return Err(err);
                },
            };
            return match self.consume(TokenKind::RightParen, "expected ')' after expression") {
                Ok(_token) => Ok(Expr::Grouping { expr: Box::new(expr) }),
                Err(error) => Err(error),
            };
        }
        Err(Error::parse("unexpected token", self.place()))
    }

    /// Moves past the token at the cursor if its kind is one of `kinds`, and
    /// says whether it did.
    fn match_token(&mut self, kinds: &[TokenKind]) -> (b: bool)
        requires
            old(self).wf(),
        ensures
            final(self).follows(old(self)),
            b == holds_any(old(self).tokens_view(), old(self).cursor(), kinds@),
            final(self).current == if b {
                old(self).current + 1
            } else {
                old(self).current as int
            },
    {
        let mut i: usize = 0;
        while i < kinds.len()
            invariant
                self.follows(old(self)),
                self.current == old(self).current,
                i <= kinds@.len(),
                forall|j: int| 0 <= j < i ==> !holds(self.tokens_view(), self.cursor(), kinds@[j]),
            decreases kinds@.len() - i,
        {
            if self.check(kinds[i]) {
                self.advance();
                return true;
            }
            i += 1;
        }
        false
    }

    /// Whether a token of `kind` stands at the cursor.
    fn check(&self, kind: TokenKind) -> (b: bool)
        requires
            self.wf(),
        ensures
            b == holds(self.tokens_view(), self.cursor(), kind),
    {
        !self.is_at_end() && self.tokens[self.current].kind == kind
    }

    /// Moves past the token at the cursor, unless nothing is left to read,
    /// and returns the token in front of the cursor then.
    fn advance(&mut self) -> (t: Token)
        requires
            old(self).wf(),
            !at_end(old(self).tokens_view(), old(self).cursor()),
        ensures
            final(self).follows(old(self)),
            final(self).current == old(self).current + 1,
            t@ == old(self).tokens_view()[old(self).cursor()],
    {
        if !self.is_at_end() {
            self.current += 1;
        }
        self.previous()
    }

    /// Whether nothing is left to read: the tokens are used up, or the end
    /// token stands at the cursor.
    pub fn is_at_end(&self) -> (b: bool)
        requires
            self.wf(),
        ensures
            b == at_end(self.tokens_view(), self.cursor()),
            !b ==> self.cursor() < self.tokens_view().len() <= usize::MAX,
    {
        match self.peek() {
            Some(token) => token.kind == TokenKind::Eof,
            None => true,
        }
    }

    /// The token at the cursor, if the tokens are not used up.
    fn peek(&self) -> (t: Option<&Token>)
        requires
            self.wf(),
        ensures
            self.current < self.tokens@.len() ==> t == Some(&self.tokens@[self.current as int]),
            self.current >= self.tokens@.len() ==> t is None,
            self.tokens@.len() <= usize::MAX,
    {
        if self.current < self.tokens.len() {
            Some(&self.tokens[self.current])
        } else {
            None
        }
    }

    /// The place that an error at the cursor reports: that of the token
    /// there, or the start of the text where the tokens are used up.
    pub fn place(&self) -> (p: Position)
        requires
            self.wf(),
        ensures
            p == place(self.tokens_view(), self.cursor()),
    {
        match self.peek() {
            Some(token) => token.position(),
            None => Position::new(1, 1, 0),
        }
    }

    /// A copy of the token in front of the cursor.
    fn previous(&self) -> (t: Token)
        requires
            self.wf(),
            self.current >= 1,
        ensures
            t@ == self.tokens_view()[self.cursor() - 1],
    {
        self.tokens[self.current - 1].clone()
    }

    /// Moves past the token at the cursor and returns it if it is of
    /// `kind`; else a parse error with `message` at that token.
    fn consume(&mut self, kind: TokenKind, message: &str) -> (r: Result<Token, Error>)
        requires
            old(self).wf(),
        ensures
            final(self).follows(old(self)),
            holds(old(self).tokens_view(), old(self).cursor(), kind) ==> r is Ok && r->Ok_0@
                == old(self).tokens_view()[old(self).cursor()] && final(self).current == old(
                self,
            ).current + 1,
            !holds(old(self).tokens_view(), old(self).cursor(), kind) ==> r is Err && r->Err_0@
                == parse_error(old(self).tokens_view(), old(self).cursor(), message@)
                && final(self).current == old(self).current,
    {
        if self.check(kind) {
            Ok(self.advance())
        } else {
            Err(Error::parse(message, self.place()))
        }
    }
}

} // verus!
