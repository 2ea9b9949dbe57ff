//! The required behavior of the expression engine, end to end.

use evaluatorrs::formulas::FormulaArgument;
use evaluatorrs::function_stores::EmptyFunctionStore;
use evaluatorrs::lexer::{
    collect_arguments, lex_expression, lex_number, lex_parenthesis, remove_spaces,
};
use evaluatorrs::parser::{build_rpn, compress_rpn, BaseToken, NumberLike};
use evaluatorrs::tokens::{Bracket, Operator, Side};

fn bits(x: f64) -> u64 {
    x.to_bits()
}

#[test]
fn test_lex_open_bracket() {
    let expression = "(a";
    let mut pos = 0;
    let res = lex_parenthesis(expression, &mut pos);
    assert!(res.is_some());
    let res = res.unwrap();
    assert!(matches!(res, Bracket::OpenBracket(_)));
    assert_eq!(pos, 1, "{expression}");
}

#[test]
fn test_lex_close_bracket() {
    let expression = ")a";
    let mut pos = 0;
    let res = lex_parenthesis(expression, &mut pos);
    assert!(res.is_some());
    let res = res.unwrap();
    assert!(matches!(res, Bracket::CloseBracket(_)));
    assert_eq!(pos, 1, "{expression}");
}

#[test]
fn test_remove_all_spaces() {
    let expression = "     ";
    let mut pos = 0;
    remove_spaces(expression, &mut pos);
    assert_eq!(&expression[pos..], "", "{expression}");
}

#[test]
fn test_remove_spaces_with_text() {
    let expression = "     asd";
    let mut pos = 0;
    remove_spaces(expression, &mut pos);
    assert_eq!(&expression[pos..], "asd", "{expression}");
}

#[test]
fn test_remove_spaces() {
    let expression = "     asd   ";
    let mut pos = 0;
    remove_spaces(expression, &mut pos);
    assert_eq!(&expression[pos..], "asd   ", "{expression}");
}

#[test]
fn test_collect_arguments() {
    let expression = "1, 2, (3, 4))";
    let mut pos = 0;
    let arguments = collect_arguments(expression, &mut pos);
    assert_eq!(arguments.len(), 3, "{arguments:?}");
    assert_eq!(arguments.as_slice(), ["1", " 2", " (3, 4)"]);
    assert_eq!(&expression[pos..], "", "{expression}");
}

#[test]
fn parse_open_bracket() {
    let res = Bracket::parse('(');
    assert!(res.is_some());
    let res = res.unwrap();
    assert!(matches!(res, Bracket::OpenBracket(_)));
}

#[test]
fn parse_close_bracket() {
    let res = Bracket::parse(')');
    assert!(res.is_some());
    let res = res.unwrap();
    assert!(matches!(res, Bracket::CloseBracket(_)));
}

#[test]
fn fail_parse() {
    let res = Bracket::parse('3');
    assert!(res.is_none());
}

#[test]
fn test_parse() {
    assert_eq!(Operator::parse('+').unwrap(), Operator::Plus);
    assert_eq!(Operator::parse('-').unwrap(), Operator::Minus);
    assert_eq!(Operator::parse('*').unwrap(), Operator::Multiply);
    assert_eq!(Operator::parse('/').unwrap(), Operator::Divide);
    assert_eq!(Operator::parse('^').unwrap(), Operator::Exponent);
}

#[test]
fn test_side() {
    assert_eq!(Operator::Plus.side(), Side::Left);
    assert_eq!(Operator::Minus.side(), Side::Left);
    assert_eq!(Operator::Multiply.side(), Side::Left);
    assert_eq!(Operator::Divide.side(), Side::Left);
    assert_eq!(Operator::Exponent.side(), Side::Right);
}

#[test]
fn test_priority() {
    assert_eq!(Operator::Plus.priority(), Operator::Minus.priority());
    assert_eq!(Operator::Multiply.priority(), Operator::Divide.priority());
    assert_eq!(Operator::Exponent.priority(), Operator::Multiply.priority());
    assert!(Operator::Plus.priority() > Operator::Multiply.priority());
}

#[test]
fn number_parser() {
    let lex = |s: &str| {
        let mut pos = 0;
        lex_number(s, &mut pos)
    };
    assert_eq!(lex("1"), Some(bits(1.0)));
    assert_eq!(lex("-1"), Some(bits(-1.0)));
    assert_eq!(lex("1.0"), Some(bits(1.0)));
    assert_eq!(lex("1.1"), Some(bits(1.1)));
    assert_eq!(lex("0.1"), Some(bits(0.1)));
    assert_eq!(lex("0.0"), Some(bits(0.0)));
    assert_eq!(lex("+"), None);
    assert_eq!(lex("1.0001"), Some(bits(1.0001)));
    assert_eq!(lex("-1.03456"), Some(bits(-1.03456)));
}

#[test]
fn basic_test_lex() {
    let expression = "1+2";
    let result = lex_expression(expression, &EmptyFunctionStore);
    assert!(result.is_ok());
    let mut result = result.unwrap();
    assert_eq!(result.len(), 3);
    assert!(matches!(
        result.remove(0),
        BaseToken::NumberLike(NumberLike::Number(v)) if v == bits(1.0)
    ));
    assert!(matches!(result.remove(0), BaseToken::Operator(Operator::Plus)));
    assert!(matches!(
        result.remove(0),
        BaseToken::NumberLike(NumberLike::Number(v)) if v == bits(2.0)
    ));
}

#[test]
fn space_test_lex() {
    let expression = "  1 +   2 ";
    let result = lex_expression(expression, &EmptyFunctionStore);
    assert!(result.is_ok());
    let mut result = result.unwrap();
    assert_eq!(result.len(), 3);
    assert!(matches!(
        result.remove(0),
        BaseToken::NumberLike(NumberLike::Number(v)) if v == bits(1.0)
    ));
    assert!(matches!(result.remove(0), BaseToken::Operator(Operator::Plus)));
    assert!(matches!(
        result.remove(0),
        BaseToken::NumberLike(NumberLike::Number(v)) if v == bits(2.0)
    ));
}

#[test]
fn easy_rpn_test() {
    let initial = vec![
        BaseToken::NumberLike(NumberLike::Number(bits(1.0))),
        BaseToken::Operator(Operator::Plus),
        BaseToken::NumberLike(NumberLike::Number(bits(2.0))),
    ];
    let result = build_rpn(initial);
    assert!(result.is_ok());
    let mut result = result.unwrap();
    assert_eq!(result.len(), 3, "{result:?}");
    assert!(matches!(
        result.remove(0),
        BaseToken::NumberLike(NumberLike::Number(v)) if v == bits(1.0)
    ));
    assert!(matches!(
        result.remove(0),
        BaseToken::NumberLike(NumberLike::Number(v)) if v == bits(2.0)
    ));
    assert!(matches!(result.remove(0), BaseToken::Operator(Operator::Plus)));
}

#[test]
fn bracket_test() {
    let initial = vec![
        BaseToken::Bracket(Bracket::parse('(').unwrap()),
        BaseToken::NumberLike(NumberLike::Number(bits(1.0))),
        BaseToken::Operator(Operator::Plus),
        BaseToken::NumberLike(NumberLike::Number(bits(2.0))),
        BaseToken::Bracket(Bracket::parse(')').unwrap()),
        BaseToken::Operator(Operator::Multiply),
        BaseToken::NumberLike(NumberLike::Number(bits(5.0))),
    ];
    let result = build_rpn(initial);
    assert!(result.is_ok(), "{result:?}");
    let mut result = result.unwrap();
    assert_eq!(result.len(), 5, "{result:?}");
    assert!(matches!(
        result.remove(0),
        BaseToken::NumberLike(NumberLike::Number(v)) if v == bits(1.0)
    ));
    assert!(matches!(
        result.remove(0),
        BaseToken::NumberLike(NumberLike::Number(v)) if v == bits(2.0)
    ));
    assert!(matches!(result.remove(0), BaseToken::Operator(Operator::Plus)));
    assert!(matches!(
        result.remove(0),
        BaseToken::NumberLike(NumberLike::Number(v)) if v == bits(5.0)
    ));
    assert!(matches!(result.remove(0), BaseToken::Operator(Operator::Multiply)));
}

#[test]
fn priority_test() {
    let initial = vec![
        BaseToken::NumberLike(NumberLike::Number(bits(1.0))),
        BaseToken::Operator(Operator::Multiply),
        BaseToken::NumberLike(NumberLike::Number(bits(2.0))),
        BaseToken::Operator(Operator::Plus),
        BaseToken::NumberLike(NumberLike::Number(bits(5.0))),
        BaseToken::Operator(Operator::Multiply),
        BaseToken::NumberLike(NumberLike::Number(bits(6.0))),
    ];
    let result = build_rpn(initial);
    assert!(result.is_ok(), "{result:?}");
    let mut result = result.unwrap();
    assert_eq!(result.len(), 7, "{result:?}");
    assert!(matches!(
        result.remove(0),
        BaseToken::NumberLike(NumberLike::Number(v)) if v == bits(1.0)
    ));
    assert!(matches!(
        result.remove(0),
        BaseToken::NumberLike(NumberLike::Number(v)) if v == bits(2.0)
    ));
    assert!(matches!(result.remove(0), BaseToken::Operator(Operator::Multiply)));
    assert!(matches!(
        result.remove(0),
        BaseToken::NumberLike(NumberLike::Number(v)) if v == bits(5.0)
    ));
    assert!(matches!(
        result.remove(0),
        BaseToken::NumberLike(NumberLike::Number(v)) if v == bits(6.0)
    ));
    assert!(matches!(result.remove(0), BaseToken::Operator(Operator::Multiply)));
    assert!(matches!(result.remove(0), BaseToken::Operator(Operator::Plus)));
}

#[test]
fn power_test() {
    let initial = vec![
        BaseToken::NumberLike(NumberLike::Number(bits(5.0))),
        BaseToken::Operator(Operator::Exponent),
        BaseToken::NumberLike(NumberLike::Number(bits(6.0))),
        BaseToken::Operator(Operator::Exponent),
        BaseToken::NumberLike(NumberLike::Number(bits(7.0))),
    ];
    let result = build_rpn(initial);
    assert!(result.is_ok(), "{result:?}");
    let mut result = result.unwrap();
    assert_eq!(result.len(), 5, "{result:?}");
    assert!(matches!(
        result.remove(0),
        BaseToken::NumberLike(NumberLike::Number(v)) if v == bits(5.0)
    ));
    assert!(matches!(
        result.remove(0),
        BaseToken::NumberLike(NumberLike::Number(v)) if v == bits(6.0)
    ));
    assert!(matches!(
        result.remove(0),
        BaseToken::NumberLike(NumberLike::Number(v)) if v == bits(7.0)
    ));
    assert!(matches!(result.remove(0), BaseToken::Operator(Operator::Exponent)));
    assert!(matches!(result.remove(0), BaseToken::Operator(Operator::Exponent)));
}

#[test]
fn double_wrong_bracket_test() {
    let initial = vec![
        BaseToken::Bracket(Bracket::parse('(').unwrap()),
        BaseToken::Bracket(Bracket::parse('(').unwrap()),
        BaseToken::NumberLike(NumberLike::Number(bits(1.0))),
        BaseToken::Operator(Operator::Plus),
        BaseToken::NumberLike(NumberLike::Number(bits(2.0))),
        BaseToken::Bracket(Bracket::parse(')').unwrap()),
    ];
    let result = build_rpn(initial);
    assert!(result.is_err(), "{result:?}");
}

#[test]
fn double_bracket_test() {
    let initial = vec![
        BaseToken::Bracket(Bracket::parse('(').unwrap()),
        BaseToken::Bracket(Bracket::parse('(').unwrap()),
        BaseToken::NumberLike(NumberLike::Number(bits(1.0))),
        BaseToken::Operator(Operator::Plus),
        BaseToken::NumberLike(NumberLike::Number(bits(2.0))),
        BaseToken::Bracket(Bracket::parse(')').unwrap()),
        BaseToken::Bracket(Bracket::parse(')').unwrap()),
    ];
    let result = build_rpn(initial);
    assert!(result.is_ok());
    let mut result = result.unwrap();
    assert_eq!(result.len(), 3, "{result:?}");
    assert!(matches!(
        result.remove(0),
        BaseToken::NumberLike(NumberLike::Number(v)) if v == bits(1.0)
    ));
    assert!(matches!(
        result.remove(0),
        BaseToken::NumberLike(NumberLike::Number(v)) if v == bits(2.0)
    ));
    assert!(matches!(result.remove(0), BaseToken::Operator(Operator::Plus)));
}

#[test]
fn easy_test() {
    let initial = vec![
        BaseToken::NumberLike(NumberLike::Number(bits(1.0))),
        BaseToken::NumberLike(NumberLike::Number(bits(2.0))),
        BaseToken::Operator(Operator::Plus),
    ];
    let result = compress_rpn(initial);
    assert!(result.is_ok(), "{result:?}");
    let result = result.unwrap();
    assert!(
        matches!(result, FormulaArgument::Number(v) if (f64::from_bits(v) - 3.0).abs() <= f64::EPSILON),
        "{result:?}"
    );
}
