use lox::error::{Error, ErrorKind, Position};
use lox::expr::{Expr, Literal, Notation};
use lox::lox::Lox;
use lox::number::negate_double;
use lox::parser::{number_literal, Parser};
use lox::scanner::{is_decimal_text, Scanner};
use lox::token::{Token, TokenKind};
use lox::value::Value;

fn run(source: &str) -> Result<Value, Error> {
    Lox::new().run(source)
}

fn number(source: &str) -> f64 {
    match run(source) {
        Ok(Value::Number(bits)) => f64::from_bits(bits),
        other => panic!("not a number: {:?}", other),
    }
}

fn text(source: &str) -> String {
    match run(source) {
        Ok(Value::String(s)) => s,
        other => panic!("not a string: {:?}", other),
    }
}

fn truth(source: &str) -> bool {
    match run(source) {
        Ok(Value::Bool(b)) => b,
        other => panic!("not a boolean: {:?}", other),
    }
}

fn failure(source: &str) -> Error {
    match run(source) {
        Err(e) => e,
        other => panic!("not an error: {:?}", other),
    }
}

fn tree(source: &str) -> Expr {
    let tokens = Scanner::new(source.to_string(), Vec::new(), 1).get_tokens().unwrap();
    Parser::new(tokens).parse().unwrap()
}

fn parse_failure(source: &str) -> Error {
    let tokens = Scanner::new(source.to_string(), Vec::new(), 1).get_tokens().unwrap();
    Parser::new(tokens).parse().unwrap_err()
}

fn lisp(source: &str) -> String {
    tree(source).print(Notation::Lisp)
}

fn num(x: f64) -> Value {
    Value::Number(x.to_bits())
}

fn operator(kind: TokenKind, lexeme: &str) -> Token {
    Token::new(lexeme.to_string(), kind, 1, 7, 6)
}

#[test]
fn product_binds_tighter_than_sum() {
    assert_eq!(number("1 + 2 * 3"), 7.0);
    assert_eq!(number("2 * 3 + 1"), 7.0);
    assert_eq!(number("(1 + 2) * 3"), 9.0);
    assert_eq!(lisp("1 + 2 * 3"), "(+ 1 (* 2 3))");
}

#[test]
fn strings_are_joined() {
    assert_eq!(text("\"a\" + \"b\""), "ab");
    assert_eq!(text("\"\" + \"\""), "");
    assert_eq!(text("\"a\" + \"b\" + \"c\""), "abc");
}

#[test]
fn negating_a_boolean_is_a_runtime_error() {
    let e = failure("-true");
    assert_eq!(e.kind, ErrorKind::Runtime);
    assert_eq!(e.message, "operand must be a number");
    assert_eq!(e.position, Position::new(1, 1, 0));
    assert!(e.help.is_none());
    assert_eq!(failure("1 + -\"a\"").position, Position::new(1, 5, 4));
    assert_eq!(failure("-nil").message, "operand must be a number");
}

#[test]
fn conditional_takes_one_branch() {
    assert_eq!(number("true ? 1 : 2"), 1.0);
    assert_eq!(number("false ? 1 : 2"), 2.0);
}

#[test]
fn conditional_does_not_evaluate_the_other_branch() {
    assert_eq!(number("true ? 1 : -true"), 1.0);
    assert_eq!(number("false ? -true : 2"), 2.0);
    assert_eq!(failure("false ? 1 : -true").message, "operand must be a number");
    assert_eq!(failure("true ? -true : 2").message, "operand must be a number");
    assert_eq!(failure("-true ? 1 : 2").message, "operand must be a number");
}

#[test]
fn evaluation_is_repeatable() {
    for source in ["1 + 2 * 3", "\"a\" + \"b\"", "-true", "!nil ? 1 / 0 : 2", "1 / 3 - 0.1"] {
        let e = tree(source);
        let first = e.evaluate();
        let second = e.evaluate();
        let third = tree(source).evaluate();
        assert_eq!(format!("{:?}", first), format!("{:?}", second));
        assert_eq!(format!("{:?}", first), format!("{:?}", third));
        assert_eq!(e.print(Notation::Lisp), lisp(source));
    }
}

#[test]
fn division_by_zero_is_not_an_error() {
    assert_eq!(number("1 / 0"), f64::INFINITY);
    assert_eq!(number("-1 / 0"), f64::NEG_INFINITY);
    assert!(number("0 / 0").is_nan());
    assert_eq!(run("1 / 0").unwrap().kind_name(), "number");
}

#[test]
fn finite_number_by_zero_is_a_signed_infinity() {
    let slash = operator(TokenKind::Slash, "/");
    let cases = [
        (1.0f64, 0.0f64, 0x7FF0_0000_0000_0000u64),
        (1.0, -0.0, 0xFFF0_0000_0000_0000),
        (-1.0, 0.0, 0xFFF0_0000_0000_0000),
        (-2.5, -0.0, 0x7FF0_0000_0000_0000),
        (f64::MIN_POSITIVE / 4.0, 0.0, 0x7FF0_0000_0000_0000),
        (f64::MAX, -0.0, 0xFFF0_0000_0000_0000),
    ];
    for (a, b, expected) in cases {
        match Expr::apply_binary(&slash, &num(a), &num(b)) {
            Ok(Value::Number(bits)) => assert_eq!(bits, expected),
            other => panic!("not a number: {:?}", other),
        }
    }
    assert_eq!(number("1 / 0").to_bits(), 0x7FF0_0000_0000_0000);
}

#[test]
fn arithmetic_agrees_with_the_machine() {
    let values = [0.0f64, -0.0, 1.0, -1.0, 0.1, 0.2, 3.5, 1e308, -1e308, 5e-324, 1e-310, 123456.789, f64::INFINITY, f64::NEG_INFINITY, f64::MAX, f64::MIN_POSITIVE, 2.0f64.powi(53) + 2.0];
    for a in values {
        for b in values {
            let cases = [
                (operator(TokenKind::Plus, "+"), a + b),
                (operator(TokenKind::Minus, "-"), a - b),
                (operator(TokenKind::Star, "*"), a * b),
                (operator(TokenKind::Slash, "/"), a / b),
            ];
            for (op, expected) in cases {
                match Expr::apply_binary(&op, &num(a), &num(b)) {
                    Ok(Value::Number(bits)) => {
                        let got = f64::from_bits(bits);
                        if expected.is_nan() {
                            assert!(got.is_nan(), "{} {} {}", a, op.lexeme, b);
                        } else {
                            assert_eq!(got.to_bits(), expected.to_bits(), "{} {} {}", a, op.lexeme, b);
                        }
                    }
                    other => panic!("not a number: {:?}", other),
                }
            }
        }
    }
}

#[test]
fn arithmetic_is_that_of_doubles() {
    assert_eq!(number("1 + 2"), 3.0);
    assert_eq!(number("7 - 2"), 5.0);
    assert_eq!(number("2 - 7"), -5.0);
    assert_eq!(number("2 * 3"), 6.0);
    assert_eq!(number("3 * 3"), 9.0);
    assert_eq!(number("8 / 2"), 4.0);
    assert_eq!(number("2 / 8"), 0.25);
    assert_eq!(number("0.1 + 0.2"), 0.1 + 0.2);
    assert_eq!(number("0.1 + 0.2").to_bits(), 0x3FD3333333333334);
    assert_eq!(number("1 / 3"), 1.0 / 3.0);
    assert_eq!(number("1.5 * 1.5"), 2.25);
    assert_eq!(number("123456789.125 - 0.125"), 123456789.0);
    assert_eq!(number("179769313486231570000000000000000000000 * 10"), 1.7976931348623157e38 * 10.0);
    assert_eq!(number("1.25 * 3 - 10 / 4"), 1.25);
    assert_eq!(number("9007199254740993"), 9007199254740992.0);
    assert_eq!(number("9007199254740993 + 1"), 9007199254740992.0);
}

#[test]
fn number_literals_are_read_as_doubles() {
    assert_eq!(number("1.5"), 1.5);
    assert_eq!(number("0"), 0.0);
    assert_eq!(number("007"), 7.0);
    assert_eq!(number("12.50"), 12.5);
    assert_eq!(number("0.1").to_bits(), 0.1f64.to_bits());
    assert_eq!(number("3.141592653589793"), std::f64::consts::PI);
}

#[test]
fn minus_turns_the_sign() {
    assert_eq!(number("-3"), -3.0);
    assert_eq!(number("--3"), 3.0);
    assert_eq!(number("-0").to_bits(), (-0.0f64).to_bits());
    assert_eq!(number("2 - -3"), 5.0);
    assert_eq!(negate_double(1.5f64.to_bits()), (-1.5f64).to_bits());
    assert_eq!(negate_double(f64::NAN.to_bits()), (-f64::NAN).to_bits());
    assert_eq!(negate_double((-0.0f64).to_bits()), 0);
}

#[test]
fn infix_operators_group_to_the_left() {
    assert_eq!(number("1 - 2 - 3"), -4.0);
    assert_eq!(number("8 / 4 / 2"), 1.0);
    assert_eq!(number("2 * 3 / 4"), 1.5);
    assert_eq!(lisp("1 - 2 - 3"), "(- (- 1 2) 3)");
    assert_eq!(lisp("1 < 2 <= 3 > 4 >= 5"), "(>= (> (<= (< 1 2) 3) 4) 5)");
    assert_eq!(lisp("1 == 2 != 3"), "(!= (== 1 2) 3)");
    assert_eq!(lisp("1, 2, 3"), "(, (, 1 2) 3)");
}

#[test]
fn bang_negates_truthiness() {
    assert_eq!(truth("!true"), false);
    assert_eq!(truth("!false"), true);
    assert_eq!(truth("!nil"), false);
    assert_eq!(truth("!0"), false);
    assert_eq!(truth("!\"\""), false);
    assert_eq!(truth("!!false"), false);
}

#[test]
fn only_false_is_falsy() {
    assert!(Value::Nil.is_truthy());
    assert!(Value::Bool(true).is_truthy());
    assert!(!Value::Bool(false).is_truthy());
    assert!(num(0.0).is_truthy());
    assert!(Value::String(String::new()).is_truthy());
    assert_eq!(number("nil ? 1 : 2"), 1.0);
    assert_eq!(number("0 ? 1 : 2"), 1.0);
    assert_eq!(number("!true ? 1 : 2"), 2.0);
}

#[test]
fn sum_wants_two_numbers_or_two_strings() {
    for source in ["1 + \"a\"", "\"a\" + 1", "true + 1", "nil + nil", "true + false"] {
        let e = failure(source);
        assert_eq!(e.kind, ErrorKind::Runtime);
        assert_eq!(e.message, "operands must be two numbers or two strings");
    }
    assert_eq!(failure("1 + \"a\"").position, Position::new(1, 3, 2));
}

#[test]
fn other_arithmetic_wants_numbers() {
    for source in ["1 - \"a\"", "\"a\" * \"b\"", "true / 2", "nil - 1", "\"a\" - \"b\""] {
        let e = failure(source);
        assert_eq!(e.kind, ErrorKind::Runtime);
        assert_eq!(e.message, "operands must be numbers");
    }
    assert_eq!(failure("10 * \"a\"").position, Position::new(1, 4, 3));
}

#[test]
fn operands_are_evaluated_from_left_to_right() {
    assert_eq!(failure("-true + (1 - \"a\")").message, "operand must be a number");
    assert_eq!(failure("(1 - \"a\") + -true").message, "operands must be numbers");
    assert_eq!(failure("(1 - \"a\") < -true").message, "operands must be numbers");
}

#[test]
fn other_infix_operators_are_not_evaluated() {
    for source in ["1 < 2", "1 == 1", "1 != 2", "1 >= 2", "1, 2"] {
        let e = failure(source);
        assert_eq!(e.kind, ErrorKind::Runtime);
        assert_eq!(e.message, "invalid binary operator");
    }
}

#[test]
fn literals_evaluate_to_themselves() {
    assert!(matches!(run("nil"), Ok(Value::Nil)));
    assert!(matches!(run("true"), Ok(Value::Bool(true))));
    assert!(matches!(run("false"), Ok(Value::Bool(false))));
    assert_eq!(text("\"hi\""), "hi");
    assert_eq!(number("((2))"), 2.0);
}

#[test]
fn apply_unary_on_values() {
    let minus = operator(TokenKind::Minus, "-");
    let bang = operator(TokenKind::Bang, "!");
    let plus = operator(TokenKind::Plus, "+");
    assert!(matches!(Expr::apply_unary(&minus, &num(2.0)), Ok(Value::Number(b)) if f64::from_bits(b) == -2.0));
    assert!(matches!(Expr::apply_unary(&bang, &Value::Nil), Ok(Value::Bool(false))));
    let e = Expr::apply_unary(&plus, &num(2.0)).unwrap_err();
    assert_eq!(e.kind, ErrorKind::Runtime);
    assert_eq!(e.message, "invalid unary operator");
    assert_eq!(e.position, Position::new(1, 7, 6));
    let e = Expr::apply_unary(&minus, &Value::String("2".to_string())).unwrap_err();
    assert_eq!(e.message, "operand must be a number");
}

#[test]
fn apply_binary_on_values() {
    let star = operator(TokenKind::Star, "*");
    let slash = operator(TokenKind::Slash, "/");
    let minus = operator(TokenKind::Minus, "-");
    let plus = operator(TokenKind::Plus, "+");
    assert!(matches!(Expr::apply_binary(&star, &num(4.0), &num(2.5)), Ok(Value::Number(b)) if f64::from_bits(b) == 10.0));
    assert!(matches!(Expr::apply_binary(&slash, &num(4.0), &num(2.5)), Ok(Value::Number(b)) if f64::from_bits(b) == 1.6));
    assert!(matches!(Expr::apply_binary(&minus, &num(4.0), &num(2.5)), Ok(Value::Number(b)) if f64::from_bits(b) == 1.5));
    assert!(matches!(Expr::apply_binary(&plus, &num(4.0), &num(2.5)), Ok(Value::Number(b)) if f64::from_bits(b) == 6.5));
    let e = Expr::apply_binary(&operator(TokenKind::Bang, "!"), &num(1.0), &num(2.0)).unwrap_err();
    assert_eq!(e.message, "invalid binary operator");
    assert_eq!(e.position, Position::new(1, 7, 6));
}

#[test]
fn binary_number_operation_applies_the_operation_to_numbers_only() {
    let p = Position::new(2, 3, 4);
    let r = Value::binary_number_operation(&num(6.0), &num(3.0), |a, b| a ^ b, p);
    assert!(matches!(r, Ok(Value::Number(b)) if b == 6.0f64.to_bits() ^ 3.0f64.to_bits()));
    let e = Value::binary_number_operation(&num(6.0), &Value::Nil, |a, _| a, p).unwrap_err();
    assert_eq!(e.kind, ErrorKind::Runtime);
    assert_eq!(e.message, "operands must be numbers");
    assert_eq!(e.position, p);
    assert!(e.help.is_none());
    let e = Value::binary_number_operation(&Value::Bool(true), &num(1.0), |a, _| a, p).unwrap_err();
    assert_eq!(e.message, "operands must be numbers");
}

#[test]
fn kind_names() {
    assert_eq!(num(1.0).kind_name(), "number");
    assert_eq!(Value::String("s".to_string()).kind_name(), "string");
    assert_eq!(Value::Bool(false).kind_name(), "boolean");
    assert_eq!(Value::Nil.kind_name(), "nil");
}

#[test]
fn value_clone_keeps_the_value() {
    assert!(matches!(num(1.5).clone(), Value::Number(b) if f64::from_bits(b) == 1.5));
    assert!(matches!(Value::String("s".to_string()).clone(), Value::String(s) if s == "s"));
    assert!(matches!(Value::Bool(true).clone(), Value::Bool(true)));
    assert!(matches!(Value::Nil.clone(), Value::Nil));
}

#[test]
fn conditionals_chain_to_the_right() {
    assert_eq!(number("false ? 1 : false ? 2 : 3"), 3.0);
    assert_eq!(number("false ? 1 : true ? 2 : 3"), 2.0);
    assert_eq!(number("true ? 1 : true ? 2 : 3"), 1.0);
    assert_eq!(lisp("1 ? 2 : 3 ? 4 : 5"), "(?: 1 2 (?: 3 4 5))");
    assert_eq!(lisp("1 ? 2 ? 3 : 4 : 5"), "(?: 1 (?: 2 3 4) 5)");
    assert_eq!(lisp("1 == 2 ? 3, 4 : 5"), "(?: (== 1 2) (, 3 4) 5)");
    assert_eq!(lisp("1 ? 2 : 3, 4"), "(, (?: 1 2 3) 4)");
}

#[test]
fn prefix_operators_nest() {
    assert_eq!(lisp("!-1"), "(! (- 1))");
    assert_eq!(lisp("-1 * -2"), "(* (- 1) (- 2))");
    assert_eq!(lisp("!(1 + 2)"), "(! (group (+ 1 2)))");
}

#[test]
fn parse_errors() {
    let e = parse_failure("(1 + 2");
    assert_eq!(e.kind, ErrorKind::Parse);
    assert_eq!(e.message, "expected ')' after expression");
    assert_eq!(e.position, Position::new(1, 7, 6));
    let e = parse_failure("1 ? 2");
    assert_eq!(e.kind, ErrorKind::Parse);
    assert_eq!(e.message, "expected ':' after then-branch");
    assert_eq!(e.position, Position::new(1, 6, 5));
    let e = parse_failure("1 ? 2 ; 3");
    assert_eq!(e.message, "expected ':' after then-branch");
    assert_eq!(e.position, Position::new(1, 7, 6));
    for source in ["", ")", "+ 1", "1 +", "1 + * 2", "x", "print 1", "(", "1 ? : 2", "1 ? 2 :"] {
        let e = parse_failure(source);
        assert_eq!(e.kind, ErrorKind::Parse);
        assert_eq!(e.message, "unexpected token");
        assert!(e.help.is_none());
    }
    assert_eq!(parse_failure("1 + * 2").position, Position::new(1, 5, 4));
    assert_eq!(parse_failure("1 +").position, Position::new(1, 4, 3));
    assert_eq!(parse_failure("").position, Position::new(1, 1, 0));
}

#[test]
fn parser_leaves_the_tokens_after_the_expression() {
    assert_eq!(lisp("1 2 3"), "1");
    assert_eq!(lisp("1 + 2 )"), "(+ 1 2)");
    assert_eq!(lisp("\"a\" \"b\""), "\"a\"");
    let tokens = Scanner::new("1 + 2 ) 3".to_string(), Vec::new(), 1).get_tokens().unwrap();
    let mut parser = Parser::new(tokens);
    assert!(!parser.is_at_end());
    assert_eq!(parser.parse().unwrap().print(Notation::Rpn), "1 2 +");
    assert!(!parser.is_at_end());
    assert_eq!(parser.place(), Position::new(1, 7, 6));
    let tokens = Scanner::new("1 + 2".to_string(), Vec::new(), 1).get_tokens().unwrap();
    let mut parser = Parser::new(tokens);
    assert!(parser.parse().is_ok());
    assert!(parser.is_at_end());
    assert_eq!(parser.place(), Position::new(1, 6, 5));
}

#[test]
fn run_wants_the_expression_to_take_every_token() {
    for source in ["1 2", "1 + 2 )", "\"a\" \"b\"", "true ? 1 : 2 : 3", "nil nil"] {
        let e = failure(source);
        assert_eq!(e.kind, ErrorKind::Parse);
        assert_eq!(e.message, "expected end of input");
        assert!(e.help.is_none());
    }
    assert_eq!(failure("1 + 2 )").position, Position::new(1, 7, 6));
    assert_eq!(failure("-true 2").message, "expected end of input");
    assert_eq!(number("1 + 2 // three"), 3.0);
    assert_eq!(number("1 +\n 2\n"), 3.0);
}

#[test]
fn trees_can_be_copied() {
    for source in ["1 + 2 * 3", "-(\"a\" + \"b\")", "true ? nil : !false, 2"] {
        let e = tree(source);
        let c = e.clone();
        assert_eq!(format!("{:?}", c), format!("{:?}", e));
        assert_eq!(format!("{:?}", c.evaluate()), format!("{:?}", e.evaluate()));
    }
    assert!(matches!(Literal::String("s".to_string()).clone(), Literal::String(s) if s == "s"));
    assert!(matches!(Literal::Number(9).clone(), Literal::Number(9)));
    assert!(matches!(Literal::Bool(true).clone(), Literal::Bool(true)));
    assert!(matches!(Literal::Nil.clone(), Literal::Nil));
}

#[test]
fn failed_parse_puts_the_cursor_back() {
    let tokens = Scanner::new("(1 + 2 3".to_string(), Vec::new(), 1).get_tokens().unwrap();
    let mut parser = Parser::new(tokens);
    assert_eq!(parser.place(), Position::new(1, 1, 0));
    for _ in 0..2 {
        let e = parser.parse().unwrap_err();
        assert_eq!(e.message, "expected ')' after expression");
        assert_eq!(e.position, Position::new(1, 8, 7));
        assert_eq!(parser.place(), Position::new(1, 1, 0));
        assert!(!parser.is_at_end());
    }
}

#[test]
fn parser_without_tokens_reports_the_start() {
    let e = Parser::new(Vec::new()).parse().unwrap_err();
    assert_eq!(e.kind, ErrorKind::Parse);
    assert_eq!(e.message, "unexpected token");
    assert_eq!(e.position, Position::new(1, 1, 0));
    let open = vec![Token::new("(".to_string(), TokenKind::LeftParen, 1, 1, 0), Token::new("nil".to_string(), TokenKind::Nil, 1, 2, 1)];
    let e = Parser::new(open).parse().unwrap_err();
    assert_eq!(e.message, "expected ')' after expression");
    assert_eq!(e.position, Position::new(1, 1, 0));
}

#[test]
fn parser_takes_tokens_without_an_end_token() {
    let tokens = vec![
        Token::new("1".to_string(), TokenKind::Number, 1, 1, 0),
        Token::new("+".to_string(), TokenKind::Plus, 1, 2, 1),
        Token::new("2".to_string(), TokenKind::Number, 1, 3, 2),
    ];
    let e = Parser::new(tokens).parse().unwrap();
    assert_eq!(e.print(Notation::Lisp), "(+ 1 2)");
}

#[test]
fn parser_stops_at_an_end_token_in_the_middle() {
    let tokens = vec![
        Token::new("1".to_string(), TokenKind::Number, 1, 1, 0),
        Token::new("".to_string(), TokenKind::Eof, 1, 2, 1),
        Token::new("+".to_string(), TokenKind::Plus, 1, 2, 1),
        Token::new("2".to_string(), TokenKind::Number, 1, 3, 2),
    ];
    let e = Parser::new(tokens).parse().unwrap();
    assert_eq!(e.print(Notation::Lisp), "1");
}

#[test]
fn number_token_with_a_text_that_is_no_number() {
    for lexeme in ["abc", "", "1e5", "1.", ".5", "1.2.3", "-1", "+1", "inf", "NaN", "0x10", "1 ", "\u{662}"] {
        let tokens = vec![Token::new(lexeme.to_string(), TokenKind::Number, 3, 4, 5)];
        let e = Parser::new(tokens).parse().unwrap_err();
        assert_eq!(e.kind, ErrorKind::Parse);
        assert_eq!(e.message, "invalid number literal");
        assert_eq!(e.position, Position::new(3, 4, 5));
    }
    for (lexeme, value) in [("12.50", 12.5f64), ("0", 0.0), ("000.125", 0.125), ("18446744073709551616", 18446744073709551616.0)] {
        let tokens = vec![Token::new(lexeme.to_string(), TokenKind::Number, 1, 1, 0)];
        match Parser::new(tokens).parse() {
            Ok(Expr::Literal(Literal::Number(bits))) => assert_eq!(bits, value.to_bits()),
            other => panic!("not a number: {:?}", other),
        }
    }
}

#[test]
fn decimal_texts() {
    for text in ["0", "7", "007", "1.5", "12.50", "0.0", "123456789012345678901234567890.5"] {
        assert!(is_decimal_text(text), "{}", text);
    }
    for text in ["", ".", "1.", ".5", "1..5", "1.2.3", "1e5", "-1", " 1", "1 ", "a", "1a", "1.a", "\u{662}"] {
        assert!(!is_decimal_text(text), "{}", text);
    }
}

#[test]
fn every_number_token_of_a_scan_is_a_decimal_text() {
    for source in ["1", "1.5 + 2", "12.50.3", "1.", "9.x", "007 8.0.0"] {
        let tokens = Scanner::new(source.to_string(), Vec::new(), 1).get_tokens().unwrap();
        for t in tokens.iter().filter(|t| t.kind == TokenKind::Number) {
            assert!(is_decimal_text(&t.lexeme), "{}", t.lexeme);
        }
    }
}

#[test]
fn number_literal_from_what_was_read() {
    let p = Position::new(1, 2, 3);
    assert!(matches!(number_literal(Some(7), p), Ok(Expr::Literal(Literal::Number(7)))));
    let e = number_literal(None, p).unwrap_err();
    assert_eq!((e.kind, e.message.as_str(), e.position), (ErrorKind::Parse, "invalid number literal", p));
}

#[test]
fn scan_errors_come_before_parse_errors() {
    let e = failure("(1 + @");
    assert_eq!(e.kind, ErrorKind::Syntax);
    assert_eq!(e.message, "unexpected character");
    let e = failure("1 + \"abc");
    assert_eq!(e.kind, ErrorKind::Syntax);
    assert_eq!(e.message, "unterminated string literal");
    assert_eq!(e.position, Position::new(1, 5, 4));
    let e = failure("(1 + ");
    assert_eq!(e.kind, ErrorKind::Parse);
}

#[test]
fn prints_in_three_notations() {
    let e = tree("(1 + 2) * -3");
    assert_eq!(e.print(Notation::Lisp), "(* (group (+ 1 2)) (- 3))");
    assert_eq!(e.print(Notation::Polish), "* + 1 2 - 3");
    assert_eq!(e.print(Notation::Rpn), "1 2 + 3 - *");
    let e = tree("true ? \"a\" : nil");
    assert_eq!(e.print(Notation::Lisp), "(?: true \"a\" nil)");
    assert_eq!(e.print(Notation::Polish), "?: true \"a\" nil");
    assert_eq!(e.print(Notation::Rpn), "true \"a\" nil ?:");
    let e = tree("false");
    assert_eq!(e.print(Notation::Rpn), "false");
}

#[test]
fn prints_numbers_as_decimal_text() {
    assert_eq!(lisp("1"), "1");
    assert_eq!(lisp("1.5"), "1.5");
    assert_eq!(lisp("12.50"), "12.5");
    assert_eq!(lisp("007"), "7");
    assert_eq!(lisp("0"), "0");
    assert_eq!(Expr::Literal(Literal::Number(2.25f64.to_bits())).print(Notation::Rpn), "2.25");
}

#[test]
fn printed_numbers_read_back_as_the_same_number() {
    assert_eq!(lisp("0.1"), "0.10000000000000001");
    assert_eq!(number("0.10000000000000001").to_bits(), 0.1f64.to_bits());
    assert_eq!(lisp("3.141592653589793"), "3.1415926535897931");
    assert_eq!(number("3.1415926535897931"), std::f64::consts::PI);
    assert_eq!(lisp("1000"), "1000");
    assert_eq!(lisp("10000"), "1.0E+4");
    assert_eq!(lisp("0.001"), "0.001");
    assert_eq!(lisp("0.0001"), "1.0E-4");
}

#[test]
fn polish_notation_writes_no_parenthesis() {
    let product = Expr::Binary {
        left: Box::new(Expr::Unary {
            operator: Token::new("-".to_string(), TokenKind::Minus, 1, 1, 0),
            right: Box::new(Expr::Literal(Literal::Number(1.0f64.to_bits()))),
        }),
        operator: Token::new("*".to_string(), TokenKind::Star, 1, 4, 3),
        right: Box::new(Expr::Literal(Literal::Number(2.0f64.to_bits()))),
    };
    assert_eq!(product.print(Notation::Polish), "* - 1 2");
    assert_eq!(product.print(Notation::Lisp), "(* (- 1) 2)");
    assert_eq!(product.print(Notation::Rpn), "1 - 2 *");
    assert_eq!(tree("!-(1 + 2)").print(Notation::Polish), "! - + 1 2");
    assert_eq!(tree("!-(1 + 2)").print(Notation::Lisp), "(! (- (group (+ 1 2))))");
    assert_eq!(tree("!-(1 + 2)").print(Notation::Rpn), "1 2 + - !");
    for source in ["-1 * 2", "(1 + 2) * -3", "!(true ? -1 : 2), 3", "-(-(1))"] {
        let text = tree(source).print(Notation::Polish);
        assert!(!text.contains('(') && !text.contains(')'), "{}", text);
        let text = tree(source).print(Notation::Rpn);
        assert!(!text.contains('(') && !text.contains(')'), "{}", text);
    }
}

#[test]
fn values_are_shown_as_trees_print_them() {
    assert_eq!(run("0.1").unwrap().text(), "0.10000000000000001");
    assert_eq!(run("0.1").unwrap().text(), lisp("0.1"));
    assert_eq!(run("1 + 2 * 3").unwrap().text(), "7");
    assert_eq!(run("100 * 100").unwrap().text(), "1.0E+4");
    assert_eq!(run("100 * 100").unwrap().text(), lisp("10000"));
    assert_eq!(run("1 / 0").unwrap().text(), "+Inf");
    assert_eq!(run("-1 / 0").unwrap().text(), "-Inf");
    assert_eq!(run("0 / 0").unwrap().text(), "NaN");
    assert_eq!(run("-0").unwrap().text(), "-0");
    assert_eq!(run("\"a b\"").unwrap().text(), "a b");
    assert_eq!(run("!nil").unwrap().text(), "false");
    assert_eq!(run("!!nil").unwrap().text(), "true");
    assert_eq!(run("nil").unwrap().text(), "nil");
}

#[test]
fn printing_does_not_evaluate() {
    assert_eq!(lisp("-true + nil"), "(+ (- true) nil)");
    assert_eq!(lisp("1 / 0"), "(/ 1 0)");
}

#[test]
fn run_keeps_nothing_between_texts() {
    let mut lox = Lox::new();
    assert!(matches!(lox.run("1 +"), Err(_)));
    assert!(matches!(lox.run("1 + 1"), Ok(Value::Number(b)) if f64::from_bits(b) == 2.0));
    assert!(matches!(lox.run("1 + 1"), Ok(Value::Number(b)) if f64::from_bits(b) == 2.0));
}
