//! A pairing of a variable store with a function store, usable as either.

use vstd::prelude::*;

use std::sync::Arc;

use crate::expr::VarsV;
use crate::formulas::RootFormula;
use crate::function_stores::{ArgumentBounds, FunctionKind, GetFunction, RegisterParser};
use crate::variable_stores::{GetVariable, PopVariable, SetVariable, Variable};

verus! {

/// A variable store and a function store, carried together so one value
/// can serve the lexer, the parser and the evaluator.
#[derive(Debug)]
pub struct Context<T, U> {
    /// The variable store half.
    pub variable_store: T,
    /// The function store half.
    pub function_store: U,
}

impl<T, U> Context<T, U> {
    /// Creates a new `Context` around the two stores.
    pub fn new(variable_store: T, function_store: U) -> (r: Self)
        ensures
            r.variable_store == variable_store,
            r.function_store == function_store,
    {
        Self { variable_store, function_store }
    }
}

impl<T: GetVariable, U> GetVariable for Context<T, U> {
    open spec fn variables(&self) -> VarsV {
        self.variable_store.variables()
    }

    fn get(&self, name: &Variable) -> (r: Option<&Arc<RootFormula>>) {
        self.variable_store.get(name)
    }
}

impl<T: SetVariable, U> SetVariable for Context<T, U> {
    fn set(&mut self, name: Variable, value: RootFormula) {
        self.variable_store.set(name, value)
    }
}

impl<T: PopVariable, U> PopVariable for Context<T, U> {
    fn pop(&mut self, variable: &Variable) -> (r: Option<Arc<RootFormula>>) {
        self.variable_store.pop(variable)
    }
}

impl<T, U: GetFunction> GetFunction for Context<T, U> {
    open spec fn functions(&self) -> Seq<FunctionKind> {
        self.function_store.functions()
    }

    fn count(&self) -> (n: usize) {
        self.function_store.count()
    }

    fn kind_at(&self, i: usize) -> (r: FunctionKind) {
        self.function_store.kind_at(i)
    }

    fn function_parser(&self, formula_name: &str) -> (r: Option<(FunctionKind, ArgumentBounds)>) {
        self.function_store.function_parser(formula_name)
    }
}

impl<T, U: RegisterParser> RegisterParser for Context<T, U> {
    fn register(&mut self, kind: FunctionKind) {
        self.function_store.register(kind)
    }
}

} // verus!
