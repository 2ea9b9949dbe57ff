//! An embeddable arithmetic-expression evaluator.
//!
//! A textual formula such as `5*(45+6/sin(1))` is lexed into tokens,
//! rearranged into reverse Polish notation by a shunting-yard pass,
//! reduced into an executable tree with eager constant folding, and
//! evaluated against pluggable variable and function registries.
//!
//! Numbers are IEEE-754 binary64 values, carried everywhere as their
//! bit patterns (`u64`); the arithmetic itself is done by `rustc_apfloat`
//! and `libm` behind a small set of trusted wrappers.
//!
//! The set of registrable functions is closed: a registry entry is a
//! [`function_stores::FunctionKind`], which covers the built-in
//! one-argument math functions and the n-ary minimum.  There is no open
//! interface for function types of the caller's own, since the
//! verifier does not support trait objects; extending the set means
//! adding a variant.

use vstd::prelude::*;

use crate::expr::{eval_expr, ExprV};
use crate::formulas::{EvalErrV, Evaluate, ParseErrV, ParserError};
use crate::function_stores::EmptyFunctionStore;
use crate::lexer::spec_parse;
use crate::variable_stores::EmptyVariableStore;

pub mod context;
pub mod expr;
pub mod formulas;
pub mod function_stores;
pub mod laws;
pub mod lexer;
pub mod numeric;
pub mod parser;
pub mod tokens;
pub mod variable_stores;

verus! {

/// What a whole text evaluates to, with no functions registered and no
/// variables set: its parse, evaluated under the empty variable map.
/// A variable in the text surfaces as a missing-variable error.
pub open spec fn spec_eval_text(s: Seq<char>) -> Result<u64, ParseErrV> {
    match spec_parse(s, Seq::empty()) {
        Err(e) => Err(e),
        Ok(tree) => match eval_expr(tree, Map::empty()) {
            Ok(b) => Ok(b),
            Err(n) => Err(ParseErrV::Eval(EvalErrV::NoVar(n))),
        },
    }
}

/// Parses and evaluates an expression into the bits of its binary64
/// value, using the empty function and variable registries.
pub fn eval(expression: &str) -> (r: Result<u64, ParserError>)
    ensures
        match r {
            Ok(v) => spec_eval_text(expression@) == Ok::<u64, ParseErrV>(v),
            Err(e) => spec_eval_text(expression@) == Err::<u64, ParseErrV>(e@),
        },
{
    let formula = match crate::formulas::RootFormula::parse(expression, &EmptyFunctionStore) {
        Ok(f) => f,
        Err(e) => {
            return Err(e);
        },
    };
    proof {
        crate::expr::lemma_resolvable_empty(formula@, 0);
    }
    match formula.eval(&EmptyVariableStore) {
        Ok(v) => Ok(v),
        Err(e) => Err(ParserError::EvaluationError(e)),
    }
}

} // verus!
