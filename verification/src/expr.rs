//! Expression trees, their evaluation and their printing.

use vstd::prelude::*;
use vstd::string::*;
use crate::error::{plain_error, Error, ErrorKind, ErrorView};
use crate::number::{
    add_doubles, divide_doubles, double_difference, double_negation, double_product,
    double_sum, is_finite_nonzero_double, is_zero_double, multiply_doubles, negate_double,
    quotient_of_doubles, signed_infinity, subtract_doubles, text_of_double, write_double,
};
use crate::token::{Token, TokenKind, TokenView};
use crate::value::{numeric_outcome, outcome_view, Value, ValueView};

verus! {

/// A constant of the language. A number is held as the bit pattern of its
/// double.
#[derive(Debug)]
pub enum Literal {
    Number(u64),
    String(String),
    Bool(bool),
    Nil,
}

/// An expression tree. Every node owns its children.
#[derive(Debug)]
pub enum Expr {
    Literal(Literal),
    Binary { left: Box<Expr>, operator: Token, right: Box<Expr> },
    Grouping { expr: Box<Expr> },
    Unary { operator: Token, right: Box<Expr> },
    Ternary { condition: Box<Expr>, then_expr: Box<Expr>, else_expr: Box<Expr> },
}

/// The three ways in which a tree can be printed.
#[derive(Debug, Clone, Copy, PartialEq, Eq, Structural)]
pub enum Notation {
    Lisp,
    Rpn,
    Polish,
}

/// The mathematical content of a [`Literal`].
pub enum LiteralView {
    Number(u64),
    String(Seq<char>),
    Bool(bool),
    Nil,
}

/// The mathematical content of an [`Expr`].
pub enum ExprView {
    Literal(LiteralView),
    Binary { left: Box<ExprView>, operator: TokenView, right: Box<ExprView> },
    Grouping { expr: Box<ExprView> },
    Unary { operator: TokenView, right: Box<ExprView> },
    Ternary { condition: Box<ExprView>, then_expr: Box<ExprView>, else_expr: Box<ExprView> },
}

impl View for Literal {
    type V = LiteralView;

    open spec fn view(&self) -> LiteralView {
        match self {
            Literal::Number(n) => LiteralView::Number(*n),
            Literal::String(s) => LiteralView::String(s@),
            Literal::Bool(b) => LiteralView::Bool(*b),
            Literal::Nil => LiteralView::Nil,
        }
    }
}

impl View for Expr {
    type V = ExprView;

    open spec fn view(&self) -> ExprView
        decreases self,
    {
        match self {
            Expr::Literal(lit) => ExprView::Literal(lit@),
            Expr::Binary { left, operator, right } => ExprView::Binary {
                left: Box::new((**left).view()),
                operator: operator@,
                right: Box::new((**right).view()),
            },
            Expr::Grouping { expr } => ExprView::Grouping { expr: Box::new((**expr).view()) },
            Expr::Unary { operator, right } => ExprView::Unary {
                operator: operator@,
                right: Box::new((**right).view()),
            },
            Expr::Ternary { condition, then_expr, else_expr } => ExprView::Ternary {
                condition: Box::new((**condition).view()),
                then_expr: Box::new((**then_expr).view()),
                else_expr: Box::new((**else_expr).view()),
            },
        }
    }
}

impl Clone for Literal {
    fn clone(&self) -> (lit: Self)
        ensures
            lit@ == self@,
    {
        match self {
            Literal::Number(n) => Literal::Number(*n),
            Literal::String(s) => Literal::String(s.clone()),
            Literal::Bool(b) => Literal::Bool(*b),
            Literal::Nil => Literal::Nil,
        }
    }
}

impl Clone for Expr {
    fn clone(&self) -> (e: Self)
        ensures
            e@ == self@,
        decreases self,
    {
        match self {
            Expr::Literal(lit) => Expr::Literal(lit.clone()),
            Expr::Binary { left, operator, right } => Expr::Binary {
                left: Box::new((**left).clone()),
                operator: operator.clone(),
                right: Box::new((**right).clone()),
            },
            Expr::Grouping { expr } => Expr::Grouping { expr: Box::new((**expr).clone()) },
            Expr::Unary { operator, right } => Expr::Unary {
                operator: operator.clone(),
                right: Box::new((**right).clone()),
            },
            Expr::Ternary { condition, then_expr, else_expr } => Expr::Ternary {
                condition: Box::new((**condition).clone()),
                then_expr: Box::new((**then_expr).clone()),
                else_expr: Box::new((**else_expr).clone()),
            },
        }
    }
}

/// The node of a prefix operator and its operand.
pub open spec fn unary_node(operator: TokenView, right: ExprView) -> ExprView {
    ExprView::Unary { operator, right: Box::new(right) }
}

/// The node of an infix operator and its operands.
pub open spec fn binary_node(left: ExprView, operator: TokenView, right: ExprView) -> ExprView {
    ExprView::Binary { left: Box::new(left), operator, right: Box::new(right) }
}

/// The node of a parenthesised expression.
pub open spec fn grouping_node(inner: ExprView) -> ExprView {
    ExprView::Grouping { expr: Box::new(inner) }
}

/// The node of a conditional.
pub open spec fn ternary_node(condition: ExprView, then_expr: ExprView, else_expr: ExprView) -> ExprView {
    ExprView::Ternary {
        condition: Box::new(condition),
        then_expr: Box::new(then_expr),
        else_expr: Box::new(else_expr),
    }
}

/// The value of a constant.
pub open spec fn literal_value(lit: LiteralView) -> ValueView {
    match lit {
        LiteralView::Number(n) => ValueView::Number(n),
        LiteralView::String(s) => ValueView::String(s),
        LiteralView::Bool(b) => ValueView::Bool(b),
        LiteralView::Nil => ValueView::Nil,
    }
}

/// What a prefix operator makes of its operand's value.
pub open spec fn unary_outcome(operator: TokenView, operand: ValueView) -> Result<
    ValueView,
    ErrorView,
> {
    match operator.kind {
        TokenKind::Minus => match operand {
            ValueView::Number(n) => Ok(ValueView::Number(double_negation(n))),
            _ => Err(
                plain_error(ErrorKind::Runtime, "operand must be a number"@, operator.position()),
            ),
        },
        TokenKind::Bang => Ok(ValueView::Bool(!operand.is_truthy())),
        _ => Err(plain_error(ErrorKind::Runtime, "invalid unary operator"@, operator.position())),
    }
}

/// Whether the operator divides a number that is neither zero, nor
/// infinite, nor a NaN by a zero.
pub open spec fn divides_by_zero(operator: TokenView, left: ValueView, right: ValueView) -> bool {
    &&& operator.kind == TokenKind::Slash
    &&& left is Number
    &&& right is Number
    &&& is_finite_nonzero_double(left->Number_0)
    &&& is_zero_double(right->Number_0)
}

/// What an infix operator makes of its operands' values. A sum is of two
/// numbers or of two strings; difference, product and quotient are of two
/// numbers, and a zero divisor is no error.
pub open spec fn binary_outcome(operator: TokenView, left: ValueView, right: ValueView) -> Result<
    ValueView,
    ErrorView,
> {
    match operator.kind {
        TokenKind::Plus => match (left, right) {
            (ValueView::Number(a), ValueView::Number(b)) => Ok(ValueView::Number(double_sum(a, b))),
            (ValueView::String(a), ValueView::String(b)) => Ok(ValueView::String(a + b)),
            _ => Err(
                plain_error(
                    ErrorKind::Runtime,
                    "operands must be two numbers or two strings"@,
                    operator.position(),
                ),
            ),
        },
        TokenKind::Minus => numeric_outcome(
            left,
            right,
            double_difference(left->Number_0, right->Number_0),
            operator.position(),
        ),
        TokenKind::Star => numeric_outcome(
            left,
            right,
            double_product(left->Number_0, right->Number_0),
            operator.position(),
        ),
        TokenKind::Slash => numeric_outcome(
            left,
            right,
            quotient_of_doubles(left->Number_0, right->Number_0),
            operator.position(),
        ),
        _ => Err(plain_error(ErrorKind::Runtime, "invalid binary operator"@, operator.position())),
    }
}

/// The outcome of evaluating a tree: the first error met, going through
/// operands from left to right, or the value. Of a conditional only the
/// chosen branch counts.
pub open spec fn eval(e: ExprView) -> Result<ValueView, ErrorView>
    decreases e,
{
    match e {
        ExprView::Literal(lit) => Ok(literal_value(lit)),
        ExprView::Grouping { expr } => eval(*expr),
        ExprView::Unary { operator, right } => match eval(*right) {
            Ok(v) => unary_outcome(operator, v),
            Err(err) => Err(err),
        },
        ExprView::Binary { left, operator, right } => match eval(*left) {
            Ok(l) => match eval(*right) {
                Ok(r) => binary_outcome(operator, l, r),
                Err(err) => Err(err),
            },
            Err(err) => Err(err),
        },
        ExprView::Ternary { condition, then_expr, else_expr } => match eval(*condition) {
            Ok(c) => if c.is_truthy() {
                eval(*then_expr)
            } else {
                eval(*else_expr)
            },
            Err(err) => Err(err),
        },
    }
}

/// The text of a constant: a number as decimal text, a string between
/// double quotes, `true`, `false` or `nil`.
pub open spec fn literal_text(lit: LiteralView) -> Seq<char> {
    match lit {
        LiteralView::Number(n) => text_of_double(n),
        LiteralView::String(s) => "\""@ + s + "\""@,
        LiteralView::Bool(b) => if b {
            "true"@
        } else {
            "false"@
        },
        LiteralView::Nil => "nil"@,
    }
}

/// The text of a tree in a notation. Lisp puts each operator in front of its
/// operands and the whole in parentheses, and marks a parenthesised
/// expression as a group. Polish puts the operator in front and the reverse
/// notation puts it behind; neither writes a parenthesis of its own. A
/// conditional is written with the operator `?:`.
pub open spec fn rendering(e: ExprView, notation: Notation) -> Seq<char>
    decreases e,
{
    match e {
        ExprView::Literal(lit) => literal_text(lit),
        ExprView::Grouping { expr } => match notation {
            Notation::Lisp => "(group "@ + rendering(*expr, notation) + ")"@,
            _ => rendering(*expr, notation),
        },
        ExprView::Unary { operator, right } => match notation {
            Notation::Lisp => "("@ + operator.lexeme + " "@ + rendering(*right, notation) + ")"@,
            Notation::Polish => operator.lexeme + " "@ + rendering(*right, notation),
            Notation::Rpn => rendering(*right, notation) + " "@ + operator.lexeme,
        },
        ExprView::Binary { left, operator, right } => match notation {
            Notation::Lisp => "("@ + operator.lexeme + " "@ + rendering(*left, notation) + " "@
                + rendering(*right, notation) + ")"@,
            Notation::Polish => operator.lexeme + " "@ + rendering(*left, notation) + " "@
                + rendering(*right, notation),
            Notation::Rpn => rendering(*left, notation) + " "@ + rendering(*right, notation) + " "@
                + operator.lexeme,
        },
        ExprView::Ternary { condition, then_expr, else_expr } => match notation {
            Notation::Lisp => "(?: "@ + rendering(*condition, notation) + " "@ + rendering(
                *then_expr,
                notation,
            ) + " "@ + rendering(*else_expr, notation) + ")"@,
            Notation::Polish => "?: "@ + rendering(*condition, notation) + " "@ + rendering(
                *then_expr,
                notation,
            ) + " "@ + rendering(*else_expr, notation),
            Notation::Rpn => rendering(*condition, notation) + " "@ + rendering(
                *then_expr,
                notation,
            ) + " "@ + rendering(*else_expr, notation) + " ?:"@,
        },
    }
}

/// Evaluation is a function of the tree's content: whatever two evaluations
/// of trees with the same content give, they give the same.
pub proof fn lemma_evaluation_deterministic(
    a: Expr,
    b: Expr,
    first: Result<Value, Error>,
    second: Result<Value, Error>,
)
    requires
        a@ == b@,
        outcome_view(first) == eval(a@),
        outcome_view(second) == eval(b@),
    ensures
        outcome_view(first) == outcome_view(second),
{
}

/// A conditional whose condition holds is worth its first branch, whatever
/// the second is; one whose condition fails is worth its second branch,
/// whatever the first is.
pub proof fn lemma_conditional_takes_one_branch(
    condition: ExprView,
    taken: ExprView,
    other: ExprView,
)
    requires
        eval(condition) is Ok,
    ensures
        eval(condition)->Ok_0.is_truthy() ==> eval(ternary_node(condition, taken, other)) == eval(
            taken,
        ),
        !eval(condition)->Ok_0.is_truthy() ==> eval(ternary_node(condition, other, taken)) == eval(
            taken,
        ),
{
}

/// To divide by zero is no error: where a number that is neither zero, nor
/// infinite, nor a NaN is divided by a zero, the quotient is the infinity
/// whose sign is the product of the two signs.
pub proof fn lemma_division_by_zero_is_infinite(
    operator: TokenView,
    left: ValueView,
    right: ValueView,
)
    requires
        divides_by_zero(operator, left, right),
    ensures
        binary_outcome(operator, left, right) == Ok::<ValueView, ErrorView>(
            ValueView::Number(signed_infinity(left->Number_0, right->Number_0)),
        ),
{
}

/// Parentheses do not change what an expression is worth.
pub proof fn lemma_grouping_is_transparent(inner: ExprView)
    ensures
        eval(grouping_node(inner)) == eval(inner),
{
}

impl Expr {
    /// Evaluates the tree. The tree is only read, and the outcome is a
    /// function of its content.
    pub fn evaluate(&self) -> (r: Result<Value, Error>)
        ensures
            outcome_view(r) == eval(self@),
        decreases self@, 1int,
    {
        match self {
            Expr::Literal(lit) => Self::evaluate_literal(lit),
            Expr::Grouping { expr } => expr.evaluate(),
            Expr::Unary { operator, right } => Self::evaluate_unary(operator, right),
            Expr::Binary { left, operator, right } => Self::evaluate_binary(left, operator, right),
            Expr::Ternary { condition, then_expr, else_expr } => Self::evaluate_ternary(
                condition,
                then_expr,
                else_expr,
            ),
        }
    }

    fn evaluate_literal(lit: &Literal) -> (r: Result<Value, Error>)
        ensures
            outcome_view(r) == Ok::<ValueView, ErrorView>(literal_value(lit@)),
    {
        Ok(
            match lit {
                Literal::Number(n) => Value::Number(*n),
                Literal::String(s) => Value::String(s.clone()),
                Literal::Bool(b) => Value::Bool(*b),
                Literal::Nil => Value::Nil,
            },
        )
    }

    fn evaluate_unary(operator: &Token, right: &Expr) -> (r: Result<Value, Error>)
        ensures
            outcome_view(r) == eval(unary_node(operator@, right@)),
        decreases unary_node(operator@, right@), 0int,
    {
        let right_val = match right.evaluate() {
            Ok(v) => v,
            Err(e) => { return Err(e); },
        };
        Self::apply_unary(operator, &right_val)
    }

    /// Applies a prefix operator to the value of its operand.
    pub fn apply_unary(operator: &Token, operand: &Value) -> (r: Result<Value, Error>)
        ensures
            outcome_view(r) == unary_outcome(operator@, operand@),
    {
        match operator.kind {
            TokenKind::Minus => match operand {
                Value::Number(n) => Ok(Value::Number(negate_double(*n))),
                _ => Err(Error::runtime("operand must be a number", operator.position())),
            },
            TokenKind::Bang => Ok(Value::Bool(!operand.is_truthy())),
            _ => Err(Error::runtime("invalid unary operator", operator.position())),
        }
    }

    fn evaluate_binary(left: &Expr, operator: &Token, right: &Expr) -> (r: Result<Value, Error>)
        ensures
            outcome_view(r) == eval(binary_node(left@, operator@, right@)),
        decreases binary_node(left@, operator@, right@), 0int,
    {
        let left_val = match left.evaluate() {
            Ok(v) => v,
            Err(e) => { return Err(e); },
        };
        let right_val = match right.evaluate() {
            Ok(v) => v,
            Err(e) => { return Err(e); },
        };
        Self::apply_binary(operator, &left_val, &right_val)
    }

    /// Applies an infix operator to the values of its operands. To divide
    /// by zero is no error.
    pub fn apply_binary(operator: &Token, left: &Value, right: &Value) -> (r: Result<Value, Error>)
        ensures
            outcome_view(r) == binary_outcome(operator@, left@, right@),
    {
        let position = operator.position();
        match operator.kind {
            TokenKind::Plus => match (left, right) {
                (Value::Number(a), Value::Number(b)) => Ok(Value::Number(add_doubles(*a, *b))),
                (Value::String(a), Value::String(b)) => Ok(
                    Value::String(a.clone().concat(b.as_str())),
                ),
                _ => Err(Error::runtime("operands must be two numbers or two strings", position)),
            },
            TokenKind::Minus => Value::binary_number_operation(
                left,
                right,
                subtract_doubles,
                position,
            ),
            TokenKind::Star => Value::binary_number_operation(
                left,
                right,
                multiply_doubles,
                position,
            ),
            TokenKind::Slash => Value::binary_number_operation(
                left,
                right,
                divide_doubles,
                position,
            ),
            _ => Err(Error::runtime("invalid binary operator", position)),
        }
    }

    fn evaluate_ternary(condition: &Expr, then_expr: &Expr, else_expr: &Expr) -> (r: Result<
        Value,
        Error,
    >)
        ensures
            outcome_view(r) == eval(ternary_node(condition@, then_expr@, else_expr@)),
        decreases ternary_node(condition@, then_expr@, else_expr@), 0int,
    {
        let condition_val = match condition.evaluate() {
            Ok(v) => v,
            Err(e) => { return Err(e); },
        };
        if condition_val.is_truthy() {
            then_expr.evaluate()
        } else {
            else_expr.evaluate()
        }
    }

    /// The text of the tree in the given notation. Nothing is evaluated.
    pub fn print(&self, notation: Notation) -> (text: String)
        ensures
            text@ == rendering(self@, notation),
        decreases self,
    {
        match self {
            Expr::Literal(lit) => match lit {
                Literal::Number(n) => write_double(*n),
                Literal::String(s) => {
                    let mut text = String::from_str("\"");
                    text.append(s.as_str());
                    text.append("\"");
                    text
                },
                Literal::Bool(b) => if *b {
                    String::from_str("true")
                } else {
                    String::from_str("false")
                },
                Literal::Nil => String::from_str("nil"),
            },
            Expr::Grouping { expr } => {
                let inner = expr.print(notation);
                match notation {
                    Notation::Lisp => {
                        let mut text = String::from_str("(group ");
                        text.append(inner.as_str());
                        text.append(")");
                        text
                    },
                    _ => inner,
                }
            },
            Expr::Unary { operator, right } => {
                let operand = right.print(notation);
                match notation {
                    Notation::Lisp => {
                        let mut text = String::from_str("(");
                        text.append(operator.lexeme.as_str());
                        text.append(" ");
                        text.append(operand.as_str());
                        text.append(")");
                        text
                    },
                    Notation::Polish => {
                        let mut text = operator.lexeme.clone();
                        text.append(" ");
                        text.append(operand.as_str());
                        text
                    },
                    Notation::Rpn => {
                        let mut text = operand;
                        text.append(" ");
                        text.append(operator.lexeme.as_str());
                        text
                    },
                }
            },
            Expr::Binary { left, operator, right } => {
                let first = left.print(notation);
                let second = right.print(notation);
                match notation {
                    Notation::Lisp => {
                        let mut text = String::from_str("(");
                        text.append(operator.lexeme.as_str());
                        text.append(" ");
                        text.append(first.as_str());
                        text.append(" ");
                        text.append(second.as_str());
                        text.append(")");
                        text
                    },
                    Notation::Polish => {
                        let mut text = operator.lexeme.clone();
                        text.append(" ");
                        text.append(first.as_str());
                        text.append(" ");
                        text.append(second.as_str());
                        text
                    },
                    Notation::Rpn => {
                        let mut text = first;
                        text.append(" ");
                        text.append(second.as_str());
                        text.append(" ");
                        text.append(operator.lexeme.as_str());
                        text
                    },
                }
            },
            Expr::Ternary { condition, then_expr, else_expr } => {
                let first = condition.print(notation);
                let second = then_expr.print(notation);
                let third = else_expr.print(notation);
                let mut text = match notation {
                    Notation::Lisp => String::from_str("(?: "),
                    Notation::Polish => String::from_str("?: "),
                    Notation::Rpn => String::new(),
                };
                text.append(first.as_str());
                text.append(" ");
                text.append(second.as_str());
                text.append(" ");
                text.append(third.as_str());
                match notation {
                    Notation::Lisp => text.append(")"),
                    Notation::Polish => {},
                    Notation::Rpn => text.append(" ?:"),
                }
                proof {
                    assert(Seq::<char>::empty() + first@ =~= first@);
                }
                text
            },
        }
    }
}

} // verus!
