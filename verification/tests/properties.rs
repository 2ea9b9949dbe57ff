//! The behavior spec'd over whole scenarios: operator semantics,
//! precedence, associativity, folding, errors and variable binding.

use std::sync::Arc;

use evaluatorrs::eval;
use evaluatorrs::formulas::{
    Evaluate, EvaluationError, FormulaArgument, FunctionNode, IsConst, OperatorFormula,
    ParserError, RootFormula,
};
use evaluatorrs::function_stores::UnaryKind;
use evaluatorrs::tokens::Operator;
use evaluatorrs::function_stores::{
    EmptyFunctionStore, FunctionKind, RegisterParser, VectorFunctionStore,
};
use evaluatorrs::context::Context;
use evaluatorrs::variable_stores::{
    EmptyVariableStore, GetVariable, HashMapVariableStore, PopVariable, SetVariable, Variable,
    VectorVariableStore,
};

fn bits(x: f64) -> u64 {
    x.to_bits()
}

fn eval_f(expression: &str) -> f64 {
    f64::from_bits(eval(expression).unwrap())
}

#[test]
fn binary_operators_bit_for_bit() {
    assert_eq!(eval_f("1+2"), 3.0);
    assert_eq!(eval_f("7-2.5"), 4.5);
    assert_eq!(eval_f("3*4"), 12.0);
    assert_eq!(eval_f("1/8"), 0.125);
    assert_eq!(eval_f("2^10"), libm::pow(2.0, 10.0));
    assert_eq!(eval_f("0.1+0.2"), 0.1 + 0.2);
    assert_eq!(eval_f("-1.5*3"), -1.5 * 3.0);
}

#[test]
fn division_by_zero_is_ieee() {
    assert_eq!(eval_f("5/0"), f64::INFINITY);
    assert!(eval_f("0/0").is_nan());
}

#[test]
fn precedence() {
    assert_eq!(eval_f("1+2*3"), 7.0);
    assert_eq!(eval_f("(1+2)*3"), 9.0);
}

#[test]
fn right_associativity() {
    assert_eq!(eval_f("2^3^2"), 512.0);
}

#[test]
fn constant_folding_idempotence() {
    let formula = RootFormula::parse("1+2*3", &EmptyFunctionStore).unwrap();
    assert!(formula.is_const());
    assert!(matches!(formula.tree(), FormulaArgument::Number(_)));
    let mut folded = formula;
    assert!(folded.collapse_inner().is_ok());
    assert!(matches!(folded.tree(), FormulaArgument::Number(v) if *v == bits(7.0)));
}

#[test]
fn whitespace_round_trip() {
    let spaced = eval(" 1   +    2 ").unwrap();
    let tight = eval("1+2").unwrap();
    assert_eq!(spaced, tight);
    assert_eq!(f64::from_bits(tight), 3.0);
}

#[test]
fn unbalanced_brackets_fail() {
    assert!(matches!(eval("(1+2"), Err(ParserError::ParenthesisError(_))));
    assert!(matches!(eval("1+2)"), Err(ParserError::ParenthesisError(_))));
    assert_eq!(f64::from_bits(eval("((1+2))").unwrap()), 3.0);
}

#[test]
fn unknown_variable_then_bound() {
    let formula = RootFormula::parse("a+1", &EmptyFunctionStore).unwrap();
    let res = formula.eval(&EmptyVariableStore);
    match res {
        Err(EvaluationError::NoVariableError(e)) => {
            assert_eq!(e.name.as_str(), "a");
        },
        other => panic!("expected a missing-variable error, got {other:?}"),
    }
    let mut store = HashMapVariableStore::new();
    store.set(
        Variable::new("a"),
        RootFormula::new(FormulaArgument::Number(bits(5.0))),
    );
    assert_eq!(formula.eval(&store).unwrap(), bits(6.0));
}

#[test]
fn function_argument_count_is_validated() {
    let mut store = VectorFunctionStore::new();
    store.register(FunctionKind::Sin);
    assert!(matches!(
        RootFormula::parse("sin()", &store),
        Err(ParserError::ArgumentsError(_))
    ));
    assert!(matches!(
        RootFormula::parse("sin(1,2)", &store),
        Err(ParserError::ArgumentsError(_))
    ));
    assert!(RootFormula::parse("sin(1)", &store).is_ok());
}

#[test]
fn min_needs_two_arguments() {
    let mut store = VectorFunctionStore::new();
    store.register(FunctionKind::Min);
    assert!(matches!(
        RootFormula::parse("min(1)", &store),
        Err(ParserError::ArgumentsError(_))
    ));
    let v = RootFormula::parse("min(3, 1, 2)", &store)
        .unwrap()
        .eval(&EmptyVariableStore)
        .unwrap();
    assert_eq!(f64::from_bits(v), 1.0);
}

#[test]
fn shared_and_owned_binding() {
    let stored = Arc::new(RootFormula::parse("b+1", &EmptyFunctionStore).unwrap());
    let name = Variable::new("a");

    let mut shared_tree = RootFormula::parse("a*2", &EmptyFunctionStore).unwrap();
    shared_tree.set_variable_shared(&name, &stored);
    let mut owned_tree = RootFormula::parse("a*2", &EmptyFunctionStore).unwrap();
    owned_tree.set_variable_owned(&name, &stored);

    let mut store = VectorVariableStore::new();
    store.set(
        Variable::new("b"),
        RootFormula::new(FormulaArgument::Number(bits(4.0))),
    );
    // both bindings splice the same definition in
    assert_eq!(shared_tree.eval(&store).unwrap(), bits(10.0));
    assert_eq!(owned_tree.eval(&store).unwrap(), bits(10.0));

    // folding the owned copy cannot touch the aliased original, which
    // other holders (the Arc here) still own
    assert!(owned_tree.collapse_inner().is_ok());
    assert!(shared_tree.collapse_inner().is_ok());
    assert_eq!(stored.eval(&store).unwrap(), bits(5.0));
}

#[test]
fn collapse_shared_to_owned() {
    let stored = Arc::new(RootFormula::parse("b+c", &EmptyFunctionStore).unwrap());
    let name = Variable::new("a");
    let mut tree = RootFormula::parse("a", &EmptyFunctionStore).unwrap();
    tree.set_variable_shared(&name, &stored);
    drop(stored);
    assert!(tree.collapse_inner().is_ok());
    assert!(matches!(tree.tree(), FormulaArgument::OwnedFunction(_)));
}

#[test]
fn sin_scenario() {
    let mut store = VectorFunctionStore::new();
    store.register(FunctionKind::Sin);
    let v = RootFormula::parse("5*(45+6/sin(1))", &store)
        .unwrap()
        .eval(&EmptyVariableStore)
        .unwrap();
    let expected = 5.0 * (45.0 + 6.0 / libm::sin(1.0));
    assert_eq!(f64::from_bits(v), expected);
}

#[test]
fn variables_resolve_through_the_store() {
    let formula = RootFormula::parse("a + b", &EmptyFunctionStore).unwrap();
    let mut store = HashMapVariableStore::new();
    store.set(
        Variable::new("a"),
        RootFormula::parse("1", &EmptyFunctionStore).unwrap(),
    );
    store.set(
        Variable::new("b"),
        RootFormula::parse("10", &EmptyFunctionStore).unwrap(),
    );
    assert_eq!(f64::from_bits(formula.eval(&store).unwrap()), 11.0);
}

#[test]
fn unknown_token_is_reported() {
    match eval("1 + $") {
        Err(ParserError::UnknownTokenError(e)) => {
            assert_eq!(e.message(), "Got unknown token $");
        },
        other => panic!("expected an unknown-token error, got {other:?}"),
    }
}

#[test]
fn empty_store_keeps_nothing() {
    let var = Variable::new("a");
    let mut store = EmptyVariableStore;
    store.set(var.clone(), RootFormula::new(FormulaArgument::Number(bits(1.0))));
    assert!(store.get(&var).is_none());
}

#[test]
fn test_set_and_pop() {
    let var = Variable::new("a");
    let mut store = EmptyVariableStore;
    store.set(var.clone(), RootFormula::new(FormulaArgument::Number(bits(1.0))));
    assert!(store.pop(&var).is_none());
}

#[test]
fn vector_store_set_get_pop() {
    let mut store = VectorVariableStore::new();
    store.set(Variable::new("x"), RootFormula::new(FormulaArgument::Number(bits(2.0))));
    store.set(Variable::new("x"), RootFormula::new(FormulaArgument::Number(bits(3.0))));
    let got = store.get(&Variable::new("x")).unwrap();
    assert_eq!(got.eval(&EmptyVariableStore).unwrap(), bits(3.0));
    let popped = store.pop(&Variable::new("x")).unwrap();
    assert_eq!(popped.eval(&EmptyVariableStore).unwrap(), bits(3.0));
    assert!(store.get(&Variable::new("x")).is_none());
}

#[test]
fn number_literal_is_exact() {
    assert_eq!(eval("1.0001").unwrap(), bits(1.0001));
    assert_eq!(eval("-1.03456").unwrap(), bits(-1.03456));
}

#[test]
fn sin_differs_from_identity() {
    let mut store = VectorFunctionStore::new();
    store.register(FunctionKind::Sin);
    let v = RootFormula::parse("sin(1)", &store)
        .unwrap()
        .eval(&EmptyVariableStore)
        .unwrap();
    assert_eq!(f64::from_bits(v), libm::sin(1.0));
    assert_ne!(f64::from_bits(v), 1.0);
}

#[test]
fn pow_differs_from_operands() {
    assert_eq!(eval_f("3^4"), 81.0);
    assert_eq!(eval_f("2^0.5"), libm::pow(2.0, 0.5));
}

#[test]
fn min_matches_fmin() {
    let mut store = VectorFunctionStore::new();
    store.register(FunctionKind::Min);
    let v = RootFormula::parse("min(2, -3)", &store)
        .unwrap()
        .eval(&EmptyVariableStore)
        .unwrap();
    assert_eq!(f64::from_bits(v), libm::fmin(2.0, -3.0));
}

#[test]
fn context_pairs_the_stores() {
    let mut ctx = Context::new(HashMapVariableStore::new(), VectorFunctionStore::new());
    ctx.register(FunctionKind::Sin);
    ctx.set(
        Variable::new("x"),
        RootFormula::new(FormulaArgument::Number(bits(0.5))),
    );
    let formula = RootFormula::parse("sin(1) + x", &ctx).unwrap();
    let v = formula.eval(&ctx).unwrap();
    assert_eq!(f64::from_bits(v), libm::sin(1.0) + 0.5);
}

#[test]
fn empty_expression_fails_with_arguments_error() {
    assert!(matches!(eval(""), Err(ParserError::ArgumentsError(_))));
}

#[test]
fn error_messages() {
    match eval("(1") {
        Err(ParserError::ParenthesisError(e)) => {
            assert_eq!(e.message(), "Wrong number of parenthesis");
        },
        other => panic!("expected a parenthesis error, got {other:?}"),
    }
}

#[test]
fn unicode_variable_names() {
    let formula = RootFormula::parse("\u{3b1}+1", &EmptyFunctionStore).unwrap();
    match formula.eval(&EmptyVariableStore) {
        Err(EvaluationError::NoVariableError(e)) => {
            assert_eq!(e.name.as_str(), "\u{3b1}");
        },
        other => panic!("expected a missing-variable error, got {other:?}"),
    }
    let mut store = HashMapVariableStore::new();
    store.set(
        Variable::new("\u{3b1}"),
        RootFormula::new(FormulaArgument::Number(bits(5.0))),
    );
    assert_eq!(formula.eval(&store).unwrap(), bits(6.0));
}

#[test]
fn unary_function_library() {
    let mut store = VectorFunctionStore::new();
    store.register(FunctionKind::Unary(UnaryKind::Cos));
    store.register(FunctionKind::Unary(UnaryKind::Sqrt));
    store.register(FunctionKind::Unary(UnaryKind::Log));
    store.register(FunctionKind::Unary(UnaryKind::Floor));
    store.register(FunctionKind::Unary(UnaryKind::Erf));
    let run = |expr: &str| {
        f64::from_bits(
            RootFormula::parse(expr, &store).unwrap().eval(&EmptyVariableStore).unwrap(),
        )
    };
    assert_eq!(run("cos(1)"), libm::cos(1.0));
    assert_eq!(run("sqrt(2)"), libm::sqrt(2.0));
    assert_eq!(run("log(2)"), libm::log(2.0));
    assert_eq!(run("floor(2.7)"), 2.0);
    assert_eq!(run("erf(0.5)"), libm::erf(0.5));
    assert_ne!(run("cos(1)"), 1.0);
    assert!(matches!(
        RootFormula::parse("cos(1,2)", &store),
        Err(ParserError::ArgumentsError(_))
    ));
}

#[test]
fn test_collapse() {
    let mut formula = RootFormula::new(FormulaArgument::OwnedFunction(Box::new(
        FunctionNode::Operator(OperatorFormula::new(
            RootFormula::new(FormulaArgument::Number(bits(1.0))),
            RootFormula::new(FormulaArgument::Number(bits(2.0))),
            Operator::Plus,
        )),
    )));
    assert!(formula.collapse_inner().is_ok());
    assert!(
        matches!(formula.tree(), FormulaArgument::Number(v) if (f64::from_bits(*v) - 3.0).abs() <= f64::EPSILON)
    );
}

#[test]
fn operator_methods_combine_and_fold() {
    let one = RootFormula::new(FormulaArgument::Number(bits(1.0)));
    let two = RootFormula::new(FormulaArgument::Number(bits(2.0)));
    let sum = one.add(two);
    assert!(matches!(sum.tree(), FormulaArgument::Number(v) if *v == bits(3.0)));

    let six = RootFormula::new(FormulaArgument::Number(bits(6.0)));
    let quotient = six.div(RootFormula::new(FormulaArgument::Number(bits(4.0))));
    assert!(matches!(quotient.tree(), FormulaArgument::Number(v) if *v == bits(1.5)));

    let x = RootFormula::parse("x", &EmptyFunctionStore).unwrap();
    let open = x.mul(RootFormula::new(FormulaArgument::Number(bits(2.0))));
    assert!(!open.is_const());
    let mut store = HashMapVariableStore::new();
    store.set(
        Variable::new("x"),
        RootFormula::new(FormulaArgument::Number(bits(7.0))),
    );
    assert_eq!(open.eval(&store).unwrap(), bits(14.0));
    let diff = RootFormula::new(FormulaArgument::Number(bits(5.0)))
        .sub(RootFormula::new(FormulaArgument::Number(bits(2.0))));
    assert!(matches!(diff.tree(), FormulaArgument::Number(v) if *v == bits(3.0)));
}
