//! The formula tree, its evaluation protocol, and the error taxonomy.

use vstd::prelude::*;

use std::sync::Arc;

use vstd::string::StringExecFns;

use crate::expr::{
    collapse_expr, collapse_list, combine_op, eval_expr, eval_fuel, eval_min_fuel, expr_height,
    grounded, is_const_expr, is_const_list, lemma_collapse_list_index, lemma_collapse_list_len,
    lemma_const_eval, lemma_eval_fuel_is_eval_expr, lemma_expr_heights_ge,
    lemma_subst_list_index, lemma_subst_list_len, resolvable, resolvable_list, subst_list,
    subst_vars, ExprV, VarsV,
};
use crate::numeric::{compute_min, compute_sin, MAX_FINITE_BITS, NAN_BITS};
use crate::tokens::Operator;
use crate::function_stores::UnaryKind;
use crate::variable_stores::{EmptyVariableStore, GetVariable, Variable};

verus! {

// ---------------------------------------------------------------------
// Errors
// ---------------------------------------------------------------------

/// Returned when the lexer stopped making progress before the end of
/// the expression; carries the unconsumed suffix.
#[derive(Debug)]
pub struct UnknownTokenError(pub String);

impl View for UnknownTokenError {
    type V = Seq<char>;

    open spec fn view(&self) -> Seq<char> {
        self.0@
    }
}

impl UnknownTokenError {
    /// What the error says, as text.
    pub fn message(&self) -> (r: String)
        ensures
            r@ == "Got unknown token "@ + self@,
    {
        let mut r = String::from_str("Got unknown token ");
        r.append(self.0.as_str());
        r
    }
}

/// Returned when an expression closes a parenthesis that was never
/// opened, or leaves one open at the end of its input.
#[derive(Debug)]
pub struct ParenthesisError;

impl ParenthesisError {
    /// What the error says, as text.
    pub fn message(&self) -> (r: String)
        ensures
            r@ == "Wrong number of parenthesis"@,
    {
        String::from_str("Wrong number of parenthesis")
    }
}

/// Returned when a function call has a number of arguments outside the
/// function's declared bounds, or an operator is short of an operand;
/// carries the function or operator name.
#[derive(Debug)]
pub struct ArgumentsError(pub String);

impl View for ArgumentsError {
    type V = Seq<char>;

    open spec fn view(&self) -> Seq<char> {
        self.0@
    }
}

impl ArgumentsError {
    /// What the error says, as text.
    pub fn message(&self) -> (r: String)
        ensures
            r@ == "wrong number of arguments for "@ + self@,
    {
        let mut r = String::from_str("wrong number of arguments for ");
        r.append(self.0.as_str());
        r
    }
}

/// Returned when an evaluation fails for a reason other than a missing
/// variable.  No built-in of this library produces it, but the channel
/// is part of the protocol for functions that may.
#[derive(Debug)]
pub struct MathError(pub String);

impl View for MathError {
    type V = Seq<char>;

    open spec fn view(&self) -> Seq<char> {
        self.0@
    }
}

impl MathError {
    /// What the error says, as text.
    pub fn message(&self) -> (r: String)
        ensures
            r@ == "Failed to evaluate "@ + self@,
    {
        let mut r = String::from_str("Failed to evaluate ");
        r.append(self.0.as_str());
        r
    }
}

/// Returned when a variable of the formula is absent from the variable
/// store it is evaluated against; carries the variable's name.
#[derive(Debug)]
pub struct NoVariableError {
    /// The name of the missing variable.
    pub name: Variable,
}

impl View for NoVariableError {
    type V = Seq<char>;

    open spec fn view(&self) -> Seq<char> {
        self.name@
    }
}

impl NoVariableError {
    /// Creates a new `NoVariableError` for the named variable.
    pub fn new(name: Variable) -> (r: Self)
        ensures
            r@ == name@,
    {
        Self { name }
    }

    /// What the error says, as text.
    pub fn message(&self) -> (r: String)
        ensures
            r@ == "No variable with name "@ + self@ + " in variable store"@,
    {
        let mut r = String::from_str("No variable with name ");
        r.append(self.name.as_str());
        r.append(" in variable store");
        r
    }
}

/// Why an evaluation failed.
#[derive(Debug)]
#[non_exhaustive]
pub enum EvaluationError {
    /// Something is wrong with the arithmetic itself.
    MathError(MathError),
    /// A variable's value is not in the store.
    NoVariableError(NoVariableError),
}

/// Whether an executable evaluation outcome carries the value the model
/// assigns: equal bits on success, and on failure the name of the
/// variable the model blames, as a `NoVariableError`.
pub open spec fn spec_eval_outcome(
    r: Result<u64, EvaluationError>,
    s: Result<u64, Seq<char>>,
) -> bool {
    match r {
        Ok(v) => s == Ok::<u64, Seq<char>>(v),
        Err(e) => e matches EvaluationError::NoVariableError(nv) && s == Err::<u64, Seq<char>>(
            nv@,
        ),
    }
}

/// The shape of an evaluation failure, as contracts see it.
pub enum EvalErrV {
    /// An arithmetic failure, with its description.
    Math(Seq<char>),
    /// A missing variable, with its name.
    NoVar(Seq<char>),
}

impl View for EvaluationError {
    type V = EvalErrV;

    open spec fn view(&self) -> EvalErrV {
        match self {
            EvaluationError::MathError(e) => EvalErrV::Math(e@),
            EvaluationError::NoVariableError(e) => EvalErrV::NoVar(e@),
        }
    }
}

/// Why a parse failed.
#[derive(Debug)]
#[non_exhaustive]
pub enum ParserError {
    /// The lexer stopped on text it does not know.
    UnknownTokenError(UnknownTokenError),
    /// The expression has unmatched parenthesis.
    ParenthesisError(ParenthesisError),
    /// A function or operator has the wrong number of arguments.
    ArgumentsError(ArgumentsError),
    /// Folding a constant subtree failed to evaluate.
    EvaluationError(EvaluationError),
}

/// The shape of a parse failure, as contracts see it.
pub enum ParseErrV {
    /// An unknown-token failure, with the unconsumed suffix.
    Unknown(Seq<char>),
    /// An unmatched parenthesis.
    Paren,
    /// A wrong number of arguments, with the function or operator name.
    Args(Seq<char>),
    /// A failed evaluation during constant folding.
    Eval(EvalErrV),
}

impl View for ParserError {
    type V = ParseErrV;

    open spec fn view(&self) -> ParseErrV {
        match self {
            ParserError::UnknownTokenError(e) => ParseErrV::Unknown(e@),
            ParserError::ParenthesisError(_) => ParseErrV::Paren,
            ParserError::ArgumentsError(e) => ParseErrV::Args(e@),
            ParserError::EvaluationError(e) => ParseErrV::Eval(e@),
        }
    }
}

// ---------------------------------------------------------------------
// The tree
// ---------------------------------------------------------------------

/// One node of a formula tree: a number leaf (binary64 bits), a
/// variable leaf, an exclusively owned function node, or a subtree
/// shared by reference counting with other holders.
#[derive(Debug)]
pub enum FormulaArgument {
    /// A constant number, as binary64 bits.
    Number(u64),
    /// A variable, resolved by name at evaluation time.
    Variable(Variable),
    /// An exclusively owned function node.
    OwnedFunction(Box<FunctionNode>),
    /// A subtree aliased with other holders; it lives as long as its
    /// longest holder.
    SharedFunction(Arc<RootFormula>),
}

/// The executable unit: a formula tree ready to evaluate.
#[derive(Debug)]
pub struct RootFormula {
    /// The tree node at the root.
    pub tree: FormulaArgument,
}

/// A function-like tree node: a binary operator application or one of
/// the built-in functions.
#[derive(Debug)]
pub enum FunctionNode {
    /// A binary operator over two subtrees.
    Operator(OperatorFormula),
    /// The sine of one subtree.
    Sin(Sin),
    /// One of the other one-argument math functions.
    Unary(UnaryFunction),
    /// The minimum of a list of subtrees.
    Min(Min),
}

/// A binary operator applied to two subtrees.
#[derive(Debug)]
pub struct OperatorFormula {
    /// The left operand.
    pub first: RootFormula,
    /// The right operand.
    pub second: RootFormula,
    /// The operator combining the two.
    pub operator: Operator,
}

/// The sine of its argument.
#[derive(Debug)]
pub struct Sin {
    /// The subtree the sine is taken of.
    pub argument: RootFormula,
}

/// One of the one-argument math functions, applied to its argument.
#[derive(Debug)]
pub struct UnaryFunction {
    /// Which function is applied.
    pub kind: UnaryKind,
    /// The subtree the function is applied to.
    pub argument: RootFormula,
}

/// The minimum of its arguments.
#[derive(Debug)]
pub struct Min {
    /// The subtrees the minimum is taken over.
    pub arguments: Vec<RootFormula>,
}

// ---------------------------------------------------------------------
// Views
// ---------------------------------------------------------------------

/// The tree a `RootFormula` stands for.
pub open spec fn rf_view(f: RootFormula) -> ExprV
    decreases f, 1int,
{
    fa_view(f.tree)
}

/// The tree a `FormulaArgument` stands for.
pub open spec fn fa_view(a: FormulaArgument) -> ExprV
    decreases a, 0int,
{
    match a {
        FormulaArgument::Number(b) => ExprV::Num(b),
        FormulaArgument::Variable(v) => ExprV::Var(v@),
        FormulaArgument::OwnedFunction(n) => fn_view(*n),
        FormulaArgument::SharedFunction(f) => ExprV::Shared(Box::new(rf_view(*f))),
    }
}

/// The tree a `FunctionNode` stands for.
pub open spec fn fn_view(n: FunctionNode) -> ExprV
    decreases n, 1int,
{
    match n {
        FunctionNode::Operator(of) => ExprV::Op(
            of.operator,
            Box::new(rf_view(of.first)),
            Box::new(rf_view(of.second)),
        ),
        FunctionNode::Sin(s) => ExprV::Sin(Box::new(rf_view(s.argument))),
        FunctionNode::Unary(u) => ExprV::Unary(u.kind, Box::new(rf_view(u.argument))),
        FunctionNode::Min(m) => ExprV::Min(rf_views(m.arguments@)),
    }
}

/// The trees a list of formulas stands for, in order.
pub open spec fn rf_views(fs: Seq<RootFormula>) -> Seq<ExprV>
    decreases fs, 0int,
{
    if fs.len() == 0 {
        Seq::empty()
    } else {
        seq![rf_view(fs.first())] + rf_views(fs.drop_first())
    }
}

/// A list of formulas views into as many trees.
pub proof fn lemma_rf_views_len(fs: Seq<RootFormula>)
    ensures
        rf_views(fs).len() == fs.len(),
    decreases fs.len(),
{
    if fs.len() > 0 {
        lemma_rf_views_len(fs.drop_first());
    }
}

/// The view of a list of formulas is the list of their views.
pub proof fn rf_views_index(fs: Seq<RootFormula>, i: int)
    requires
        0 <= i < fs.len(),
    ensures
        rf_views(fs).len() == fs.len(),
        rf_views(fs)[i] == rf_view(fs[i]),
    decreases fs.len(),
{
    lemma_rf_views_len(fs);
    if i > 0 {
        rf_views_index(fs.drop_first(), i - 1);
        assert(fs.drop_first()[i - 1] == fs[i]);
    }
}

/// Appending a formula appends its view.
pub proof fn lemma_rf_views_push(fs: Seq<RootFormula>, f: RootFormula)
    ensures
        rf_views(fs.push(f)) == rf_views(fs).push(rf_view(f)),
    decreases fs.len(),
{
    if fs.len() == 0 {
        assert(fs.push(f).first() == f);
        assert(fs.push(f).drop_first() =~= Seq::<RootFormula>::empty());
        assert(rf_views(Seq::<RootFormula>::empty()) =~= Seq::<ExprV>::empty());
        assert(rf_views(fs.push(f)) =~= rf_views(fs).push(rf_view(f)));
    } else {
        assert(fs.push(f).drop_first() =~= fs.drop_first().push(f));
        assert(fs.push(f).first() == fs.first());
        lemma_rf_views_push(fs.drop_first(), f);
        assert(rf_views(fs.push(f)) =~= rf_views(fs).push(rf_view(f)));
    }
}

/// Dropping the last formula drops the last view.
pub proof fn lemma_rf_views_drop_last(fs: Seq<RootFormula>)
    requires
        fs.len() > 0,
    ensures
        rf_views(fs.drop_last()) == rf_views(fs).drop_last(),
{
    lemma_rf_views_len(fs);
    lemma_rf_views_len(fs.drop_last());
    assert forall|i: int| 0 <= i < fs.len() - 1 implies rf_views(fs.drop_last())[i] == rf_views(
        fs,
    ).drop_last()[i] by {
        rf_views_index(fs.drop_last(), i);
        rf_views_index(fs, i);
        assert(fs.drop_last()[i] == fs[i]);
    }
    assert(rf_views(fs.drop_last()) =~= rf_views(fs).drop_last());
}

impl View for RootFormula {
    type V = ExprV;

    open spec fn view(&self) -> ExprV {
        rf_view(*self)
    }
}

impl View for FormulaArgument {
    type V = ExprV;

    open spec fn view(&self) -> ExprV {
        fa_view(*self)
    }
}

impl View for FunctionNode {
    type V = ExprV;

    open spec fn view(&self) -> ExprV {
        fn_view(*self)
    }
}

impl View for OperatorFormula {
    type V = ExprV;

    open spec fn view(&self) -> ExprV {
        ExprV::Op(self.operator, Box::new(self.first@), Box::new(self.second@))
    }
}

impl View for Sin {
    type V = ExprV;

    open spec fn view(&self) -> ExprV {
        ExprV::Sin(Box::new(self.argument@))
    }
}

impl View for UnaryFunction {
    type V = ExprV;

    open spec fn view(&self) -> ExprV {
        ExprV::Unary(self.kind, Box::new(self.argument@))
    }
}

impl View for Min {
    type V = ExprV;

    open spec fn view(&self) -> ExprV {
        ExprV::Min(rf_views(self.arguments@))
    }
}

// ---------------------------------------------------------------------
// The protocol traits
// ---------------------------------------------------------------------

/// Tells whether a formula returns the same value on every evaluation.
pub trait IsConst {
    /// The tree the value stands for.
    spec fn expr_of(&self) -> ExprV;

    /// Returns `true` if the formula returns the same value for every
    /// `eval` call, `false` otherwise.
    fn is_const(&self) -> (r: bool)
        ensures
            r == is_const_expr(self.expr_of()),
    ;
}

// ---------------------------------------------------------------------
// Constancy
// ---------------------------------------------------------------------

impl RootFormula {
    /// Creates a new `RootFormula` around a tree node.
    pub fn new(value: FormulaArgument) -> (r: Self)
        ensures
            r@ == value@,
    {
        Self { tree: value }
    }

    /// The tree node at the root of the formula.
    pub fn tree(&self) -> (r: &FormulaArgument)
        ensures
            r@ == self@,
    {
        &self.tree
    }

    pub(crate) fn is_const_rec(&self) -> (r: bool)
        ensures
            r == is_const_expr(self@),
        decreases expr_height(self@), 2int,
    {
        match &self.tree {
            FormulaArgument::Number(_) => true,
            FormulaArgument::Variable(_) => false,
            FormulaArgument::OwnedFunction(n) => n.is_const_rec(),
            FormulaArgument::SharedFunction(f) => {
                let inner: &RootFormula = &**f;
                inner.is_const_rec()
            },
        }
    }
}

impl FunctionNode {
    pub(crate) fn is_const_rec(&self) -> (r: bool)
        ensures
            r == is_const_expr(self@),
        decreases expr_height(self@), 1int,
    {
        match self {
            FunctionNode::Operator(of) => {
                proof {
                    assert(expr_height(of.first@) < expr_height(self@));
                    assert(expr_height(of.second@) < expr_height(self@));
                }
                of.first.is_const_rec() && of.second.is_const_rec()
            },
            FunctionNode::Sin(s) => s.argument.is_const_rec(),
            FunctionNode::Unary(u) => u.argument.is_const_rec(),
            FunctionNode::Min(m) => m.is_const_rec(),
        }
    }
}

impl Min {
    pub(crate) fn is_const_rec(&self) -> (r: bool)
        ensures
            r == is_const_expr(self@),
        decreases expr_height(self@), 0int,
    {
        let ghost views = rf_views(self.arguments@);
        proof {
            lemma_rf_views_len(self.arguments@);
        }
        let n = self.arguments.len();
        for i in 0..n
            invariant
                n == self.arguments.len(),
                views == rf_views(self.arguments@),
                forall|j: int| 0 <= j < i ==> is_const_expr(#[trigger] views[j]),
        {
            proof {
                rf_views_index(self.arguments@, i as int);
                lemma_expr_heights_ge(views, i as int);
            }
            let c = self.arguments[i].is_const_rec();
            if !c {
                proof {
                    rf_views_index(self.arguments@, i as int);
                    assert(!is_const_list(views));
                }
                return false;
            }
        }
        proof {
            assert(is_const_list(views));
        }
        true
    }
}

impl IsConst for RootFormula {
    open spec fn expr_of(&self) -> ExprV {
        self@
    }

    fn is_const(&self) -> (r: bool) {
        self.is_const_rec()
    }
}

impl IsConst for FunctionNode {
    open spec fn expr_of(&self) -> ExprV {
        self@
    }

    fn is_const(&self) -> (r: bool) {
        self.is_const_rec()
    }
}

impl IsConst for OperatorFormula {
    open spec fn expr_of(&self) -> ExprV {
        self@
    }

    fn is_const(&self) -> (r: bool) {
        self.first.is_const_rec() && self.second.is_const_rec()
    }
}

impl IsConst for Sin {
    open spec fn expr_of(&self) -> ExprV {
        self@
    }

    fn is_const(&self) -> (r: bool) {
        self.argument.is_const_rec()
    }
}

impl IsConst for UnaryFunction {
    open spec fn expr_of(&self) -> ExprV {
        self@
    }

    fn is_const(&self) -> (r: bool) {
        self.argument.is_const_rec()
    }
}

impl IsConst for Min {
    open spec fn expr_of(&self) -> ExprV {
        self@
    }

    fn is_const(&self) -> (r: bool) {
        self.is_const_rec()
    }
}

impl IsConst for Variable {
    open spec fn expr_of(&self) -> ExprV {
        ExprV::Var(self@)
    }

    fn is_const(&self) -> (r: bool) {
        false
    }
}

// ---------------------------------------------------------------------
// Clone and Default
// ---------------------------------------------------------------------

/// Relies on alloc's `Arc::clone`: the returned handle refers to the
/// same shared value.
#[verifier::external_body]
fn clone_arc(f: &Arc<RootFormula>) -> (r: Arc<RootFormula>)
    ensures
        *r == **f,
{
    Arc::clone(f)
}

impl RootFormula {
    pub(crate) fn clone_rec(&self) -> (r: Self)
        ensures
            r@ == self@,
        decreases expr_height(self@), 2int,
    {
        match &self.tree {
            FormulaArgument::Number(b) => Self { tree: FormulaArgument::Number(*b) },
            FormulaArgument::Variable(v) => Self { tree: FormulaArgument::Variable(v.clone()) },
            FormulaArgument::OwnedFunction(n) => Self {
                tree: FormulaArgument::OwnedFunction(Box::new(n.clone_rec())),
            },
            FormulaArgument::SharedFunction(f) => Self {
                tree: FormulaArgument::SharedFunction(clone_arc(f)),
            },
        }
    }

    /// An independent deep copy of the formula, usable in a box; an
    /// aliased subtree stays aliased in the copy.
    pub fn clone_into_box(&self) -> (r: Box<RootFormula>)
        ensures
            (*r)@ == self@,
    {
        Box::new(self.clone_rec())
    }
}

impl Clone for RootFormula {
    /// The clone stands for the same tree.
    fn clone(&self) -> (r: Self)
        ensures
            r@ == self@,
    {
        self.clone_rec()
    }
}

impl FunctionNode {
    pub(crate) fn clone_rec(&self) -> (r: Self)
        ensures
            r@ == self@,
        decreases expr_height(self@), 1int,
    {
        match self {
            FunctionNode::Operator(of) => {
                proof {
                    assert(expr_height(of.first@) < expr_height(self@));
                    assert(expr_height(of.second@) < expr_height(self@));
                }
                FunctionNode::Operator(OperatorFormula {
                    first: of.first.clone_rec(),
                    second: of.second.clone_rec(),
                    operator: of.operator,
                })
            },
            FunctionNode::Sin(s) => FunctionNode::Sin(Sin { argument: s.argument.clone_rec() }),
            FunctionNode::Unary(u) => FunctionNode::Unary(UnaryFunction {
                kind: u.kind,
                argument: u.argument.clone_rec(),
            }),
            FunctionNode::Min(m) => FunctionNode::Min(m.clone_rec()),
        }
    }
}

impl Min {
    pub(crate) fn clone_rec(&self) -> (r: Self)
        ensures
            r@ == self@,
        decreases expr_height(self@), 0int,
    {
        let ghost views = rf_views(self.arguments@);
        proof {
            lemma_rf_views_len(self.arguments@);
        }
        let n = self.arguments.len();
        let mut out: Vec<RootFormula> = Vec::new();
        for i in 0..n
            invariant
                n == self.arguments.len(),
                views == rf_views(self.arguments@),
                out@.len() == i,
                forall|j: int| 0 <= j < i ==> rf_view(#[trigger] out@[j]) == views[j],
        {
            proof {
                rf_views_index(self.arguments@, i as int);
                lemma_expr_heights_ge(views, i as int);
            }
            let c = self.arguments[i].clone_rec();
            out.push(c);
        }
        proof {
            lemma_rf_views_len(out@);
            assert forall|j: int| 0 <= j < n implies rf_views(out@)[j] == views[j] by {
                rf_views_index(out@, j);
            }
            assert(rf_views(out@) =~= views);
        }
        Min { arguments: out }
    }
}

impl Default for FormulaArgument {
    /// The default tree node is a quiet NaN number leaf.
    fn default() -> (r: Self)
        ensures
            r@ == ExprV::Num(NAN_BITS),
    {
        FormulaArgument::Number(NAN_BITS)
    }
}

impl Default for RootFormula {
    /// The default formula is a quiet NaN number leaf.
    fn default() -> (r: Self)
        ensures
            r@ == ExprV::Num(NAN_BITS),
    {
        RootFormula { tree: FormulaArgument::Number(NAN_BITS) }
    }
}

// ---------------------------------------------------------------------
// Evaluation
// ---------------------------------------------------------------------

/// Evaluates a formula against a variable store.
pub trait Evaluate: IsConst {
    /// Evaluates the value of the formula; `args` holds the variables.
    ///
    /// The store must be free of cyclic variable definitions along the
    /// formula's chains (`grounded`); the evaluation then returns the
    /// value the model assigns, or the name of the first variable (in
    /// evaluation order) that the store does not hold.
    fn eval<T: GetVariable>(&self, args: &T) -> (r: Result<u64, EvaluationError>)
        requires
            grounded(self.expr_of(), args.variables()),
        ensures
            spec_eval_outcome(r, eval_expr(self.expr_of(), args.variables())),
    ;
}

impl RootFormula {
    pub(crate) fn eval_rec<T: GetVariable>(&self, args: &T, fuel: Ghost<nat>) -> (r: Result<
        u64,
        EvaluationError,
    >)
        requires
            resolvable(self@, args.variables(), fuel@),
        ensures
            spec_eval_outcome(r, eval_fuel(self@, args.variables(), fuel@)),
        decreases fuel@, expr_height(self@), 2int,
    {
        match &self.tree {
            FormulaArgument::Number(b) => Ok(*b),
            FormulaArgument::Variable(v) => match args.get(v) {
                None => Err(
                    EvaluationError::NoVariableError(NoVariableError::new(v.clone())),
                ),
                Some(f) => {
                    let inner: &RootFormula = &**f;
                    inner.eval_rec(args, Ghost((fuel@ - 1) as nat))
                },
            },
            FormulaArgument::OwnedFunction(n) => n.eval_rec(args, fuel),
            FormulaArgument::SharedFunction(f) => {
                let inner: &RootFormula = &**f;
                inner.eval_rec(args, fuel)
            },
        }
    }
}

impl FunctionNode {
    pub(crate) fn eval_rec<T: GetVariable>(&self, args: &T, fuel: Ghost<nat>) -> (r: Result<
        u64,
        EvaluationError,
    >)
        requires
            resolvable(self@, args.variables(), fuel@),
        ensures
            spec_eval_outcome(r, eval_fuel(self@, args.variables(), fuel@)),
        decreases fuel@, expr_height(self@), 1int,
    {
        match self {
            FunctionNode::Operator(of) => {
                proof {
                    assert(expr_height(of.first@) < expr_height(self@));
                    assert(expr_height(of.second@) < expr_height(self@));
                }
                let a = match of.first.eval_rec(args, fuel) {
                    Ok(v) => v,
                    Err(e) => {
                        return Err(e);
                    },
                };
                let b = match of.second.eval_rec(args, fuel) {
                    Ok(v) => v,
                    Err(e) => {
                        return Err(e);
                    },
                };
                Ok(of.operator.eval(a, b))
            },
            FunctionNode::Sin(s) => match s.argument.eval_rec(args, fuel) {
                Ok(v) => Ok(compute_sin(v)),
                Err(e) => Err(e),
            },
            FunctionNode::Unary(u) => match u.argument.eval_rec(args, fuel) {
                Ok(v) => Ok(u.kind.eval(v)),
                Err(e) => Err(e),
            },
            FunctionNode::Min(m) => m.eval_rec(args, fuel),
        }
    }
}

impl Min {
    pub(crate) fn eval_rec<T: GetVariable>(&self, args: &T, fuel: Ghost<nat>) -> (r: Result<
        u64,
        EvaluationError,
    >)
        requires
            resolvable_list(rf_views(self.arguments@), args.variables(), fuel@),
        ensures
            spec_eval_outcome(
                r,
                eval_min_fuel(
                    rf_views(self.arguments@),
                    args.variables(),
                    fuel@,
                    0,
                    MAX_FINITE_BITS,
                ),
            ),
        decreases fuel@, expr_height(ExprV::Min(rf_views(self.arguments@))), 0int,
    {
        let ghost views = rf_views(self.arguments@);
        let ghost vars = args.variables();
        proof {
            lemma_rf_views_len(self.arguments@);
        }
        let n = self.arguments.len();
        let mut acc: u64 = MAX_FINITE_BITS;
        for i in 0..n
            invariant
                n == self.arguments.len(),
                views == rf_views(self.arguments@),
                vars == args.variables(),
                resolvable_list(views, vars, fuel@),
                eval_min_fuel(views, vars, fuel@, 0, MAX_FINITE_BITS) == eval_min_fuel(
                    views,
                    vars,
                    fuel@,
                    i as int,
                    acc,
                ),
        {
            proof {
                rf_views_index(self.arguments@, i as int);
                lemma_expr_heights_ge(views, i as int);
            }
            match self.arguments[i].eval_rec(args, fuel) {
                Ok(v) => {
                    acc = compute_min(acc, v);
                },
                Err(e) => {
                    return Err(e);
                },
            }
        }
        Ok(acc)
    }
}

impl Evaluate for RootFormula {
    fn eval<T: GetVariable>(&self, args: &T) -> (r: Result<u64, EvaluationError>) {
        let ghost fuel = choose|f: nat| resolvable(self@, args.variables(), f);
        let r = self.eval_rec(args, Ghost(fuel));
        proof {
            lemma_eval_fuel_is_eval_expr(self@, args.variables(), fuel);
        }
        r
    }
}

impl Evaluate for FunctionNode {
    fn eval<T: GetVariable>(&self, args: &T) -> (r: Result<u64, EvaluationError>) {
        let ghost fuel = choose|f: nat| resolvable(self@, args.variables(), f);
        let r = self.eval_rec(args, Ghost(fuel));
        proof {
            lemma_eval_fuel_is_eval_expr(self@, args.variables(), fuel);
        }
        r
    }
}

impl Evaluate for OperatorFormula {
    fn eval<T: GetVariable>(&self, args: &T) -> (r: Result<u64, EvaluationError>) {
        let ghost fuel = choose|f: nat| resolvable(self@, args.variables(), f);
        let a = match self.first.eval_rec(args, Ghost(fuel)) {
            Ok(v) => v,
            Err(e) => {
                proof {
                    lemma_eval_fuel_is_eval_expr(self@, args.variables(), fuel);
                }
                return Err(e);
            },
        };
        let b = match self.second.eval_rec(args, Ghost(fuel)) {
            Ok(v) => v,
            Err(e) => {
                proof {
                    lemma_eval_fuel_is_eval_expr(self@, args.variables(), fuel);
                }
                return Err(e);
            },
        };
        proof {
            lemma_eval_fuel_is_eval_expr(self@, args.variables(), fuel);
        }
        Ok(self.operator.eval(a, b))
    }
}

impl Evaluate for Sin {
    fn eval<T: GetVariable>(&self, args: &T) -> (r: Result<u64, EvaluationError>) {
        let ghost fuel = choose|f: nat| resolvable(self@, args.variables(), f);
        proof {
            lemma_eval_fuel_is_eval_expr(self@, args.variables(), fuel);
        }
        match self.argument.eval_rec(args, Ghost(fuel)) {
            Ok(v) => Ok(compute_sin(v)),
            Err(e) => Err(e),
        }
    }
}

impl Evaluate for UnaryFunction {
    fn eval<T: GetVariable>(&self, args: &T) -> (r: Result<u64, EvaluationError>) {
        let ghost fuel = choose|f: nat| resolvable(self@, args.variables(), f);
        proof {
            lemma_eval_fuel_is_eval_expr(self@, args.variables(), fuel);
        }
        match self.argument.eval_rec(args, Ghost(fuel)) {
            Ok(v) => Ok(self.kind.eval(v)),
            Err(e) => Err(e),
        }
    }
}

impl Evaluate for Min {
    fn eval<T: GetVariable>(&self, args: &T) -> (r: Result<u64, EvaluationError>) {
        let ghost fuel = choose|f: nat| resolvable(self@, args.variables(), f);
        let r = self.eval_rec(args, Ghost(fuel));
        proof {
            lemma_eval_fuel_is_eval_expr(self@, args.variables(), fuel);
        }
        r
    }
}

impl Evaluate for Variable {
    fn eval<T: GetVariable>(&self, args: &T) -> (r: Result<u64, EvaluationError>) {
        match args.get(self) {
            None => Err(EvaluationError::NoVariableError(NoVariableError::new(self.clone()))),
            Some(f) => {
                proof {
                    crate::expr::lemma_eval_expr_var(self@, args.variables());
                }
                let inner: &RootFormula = &**f;
                inner.eval(args)
            },
        }
    }
}

// ---------------------------------------------------------------------
// Constant folding in place
// ---------------------------------------------------------------------

impl RootFormula {
    /// Folds every constant subtree into a number leaf, in place; the
    /// tree keeps its value under every variable store.  The error
    /// channel is part of the protocol; no built-in ever fills it.
    pub fn collapse_inner(&mut self) -> (r: Result<(), MathError>)
        ensures
            r is Ok,
            final(self)@ == collapse_expr(old(self)@),
        decreases expr_height(old(self)@), 2int,
    {
        if self.is_const_rec() {
            proof {
                lemma_const_eval(self@, Map::empty(), 0);
            }
            let v = self.eval_rec(&EmptyVariableStore, Ghost(0nat));
            match v {
                Ok(b) => {
                    self.tree = FormulaArgument::Number(b);
                    Ok(())
                },
                Err(e) => {
                    proof {
                        assert(false);
                    }
                    match e {
                        EvaluationError::MathError(m) => Err(m),
                        EvaluationError::NoVariableError(_) => Ok(()),
                    }
                },
            }
        } else {
            let replacement: Option<RootFormula> = match &self.tree {
                FormulaArgument::SharedFunction(f) => {
                    let inner: &RootFormula = &**f;
                    Some(inner.clone_rec())
                },
                _ => None,
            };
            match replacement {
                Some(copy) => {
                    self.tree = copy.tree;
                    self.collapse_inner()
                },
                None => match &mut self.tree {
                    FormulaArgument::OwnedFunction(n) => (&mut **n).collapse_inner(),
                    _ => Ok(()),
                },
            }
        }
    }
}

impl FunctionNode {
    pub(crate) fn collapse_inner(&mut self) -> (r: Result<(), MathError>)
        requires
            !is_const_expr(old(self)@),
        ensures
            r is Ok,
            final(self)@ == collapse_expr(old(self)@),
        decreases expr_height(old(self)@), 1int,
    {
        match self {
            FunctionNode::Operator(of) => {
                let r1 = of.first.collapse_inner();
                let r2 = of.second.collapse_inner();
                Ok(())
            },
            FunctionNode::Sin(s) => {
                let r = s.argument.collapse_inner();
                Ok(())
            },
            FunctionNode::Unary(u) => {
                let r = u.argument.collapse_inner();
                Ok(())
            },
            FunctionNode::Min(m) => m.collapse_inner(),
        }
    }
}

impl Min {
    pub(crate) fn collapse_inner(&mut self) -> (r: Result<(), MathError>)
        requires
            !is_const_expr(ExprV::Min(rf_views(old(self).arguments@))),
        ensures
            r is Ok,
            rf_views(final(self).arguments@) == collapse_list(rf_views(old(self).arguments@)),
        decreases expr_height(ExprV::Min(rf_views(old(self).arguments@))), 0int,
    {
        let ghost views = rf_views(self.arguments@);
        proof {
            lemma_rf_views_len(self.arguments@);
            lemma_collapse_list_len(views);
        }
        let n = self.arguments.len();
        for i in 0..n
            invariant
                n == self.arguments@.len(),
                views.len() == n,
                old(self).arguments@.len() == n,
                views == rf_views(old(self).arguments@),
                forall|j: int|
                    0 <= j < i ==> rf_view(#[trigger] self.arguments@[j]) == collapse_expr(
                        views[j],
                    ),
                forall|j: int| i <= j < n ==> #[trigger] self.arguments@[j] == old(
                    self,
                ).arguments@[j],
        {
            proof {
                rf_views_index(old(self).arguments@, i as int);
                lemma_expr_heights_ge(views, i as int);
            }
            let r = self.arguments[i].collapse_inner();
        }
        proof {
            lemma_rf_views_len(self.arguments@);
            assert forall|j: int| 0 <= j < n implies rf_views(self.arguments@)[j] == collapse_list(
                views,
            )[j] by {
                rf_views_index(self.arguments@, j);
                lemma_collapse_list_index(views, j);
            }
            assert(rf_views(self.arguments@) =~= collapse_list(views));
        }
        Ok(())
    }
}

// ---------------------------------------------------------------------
// Variable binding
// ---------------------------------------------------------------------

impl RootFormula {
    pub(crate) fn set_all_rec<T: GetVariable>(&mut self, args: &T, shared: bool)
        ensures
            final(self)@ == subst_vars(old(self)@, args.variables(), shared),
        decreases expr_height(old(self)@), 2int,
    {
        let replacement: Option<FormulaArgument> = match &self.tree {
            FormulaArgument::Variable(v) => match args.get(v) {
                Some(f) => {
                    if shared {
                        Some(FormulaArgument::SharedFunction(clone_arc(f)))
                    } else {
                        let inner: &RootFormula = &**f;
                        Some(inner.clone_rec().tree)
                    }
                },
                None => None,
            },
            _ => None,
        };
        match replacement {
            Some(t) => {
                self.tree = t;
            },
            None => {
                match &mut self.tree {
                    FormulaArgument::OwnedFunction(n) => {
                        (&mut **n).set_all_rec(args, shared);
                    },
                    _ => {},
                }
            },
        }
    }

    /// Splices the store's formula in for every variable the store
    /// holds, by aliasing: later folding of the store's formula through
    /// another holder is folding of this tree too.
    pub fn set_all_variables_shared<T: GetVariable>(&mut self, args: &T)
        ensures
            final(self)@ == subst_vars(old(self)@, args.variables(), true),
    {
        self.set_all_rec(args, true)
    }

    /// Splices a private copy of the store's formula in for every
    /// variable the store holds: no aliasing with the store remains.
    pub fn set_all_variables_owned<T: GetVariable>(&mut self, args: &T)
        ensures
            final(self)@ == subst_vars(old(self)@, args.variables(), false),
    {
        self.set_all_rec(args, false)
    }

    /// Splices `function` in for the one variable `name`, by aliasing.
    pub fn set_variable_shared(&mut self, name: &Variable, function: &Arc<RootFormula>)
        ensures
            final(self)@ == subst_vars(
                old(self)@,
                Map::empty().insert(name@, (**function)@),
                true,
            ),
    {
        self.set_one_rec(name, function, true)
    }

    /// Splices a private copy of `function` in for the one variable
    /// `name`.
    pub fn set_variable_owned(&mut self, name: &Variable, function: &RootFormula)
        ensures
            final(self)@ == subst_vars(
                old(self)@,
                Map::empty().insert(name@, function@),
                false,
            ),
    {
        self.set_one_owned_rec(name, function)
    }

    pub(crate) fn set_one_rec(&mut self, name: &Variable, function: &Arc<RootFormula>, shared: bool)
        ensures
            final(self)@ == subst_vars(
                old(self)@,
                Map::empty().insert(name@, (**function)@),
                shared,
            ),
        decreases expr_height(old(self)@), 2int,
    {
        let replacement: Option<FormulaArgument> = match &self.tree {
            FormulaArgument::Variable(v) => {
                if v == name {
                    if shared {
                        Some(FormulaArgument::SharedFunction(clone_arc(function)))
                    } else {
                        let inner: &RootFormula = &**function;
                        Some(inner.clone_rec().tree)
                    }
                } else {
                    None
                }
            },
            _ => None,
        };
        match replacement {
            Some(t) => {
                self.tree = t;
            },
            None => {
                match &mut self.tree {
                    FormulaArgument::OwnedFunction(n) => {
                        (&mut **n).set_one_rec(name, function, shared);
                    },
                    _ => {},
                }
            },
        }
    }

    pub(crate) fn set_one_owned_rec(&mut self, name: &Variable, function: &RootFormula)
        ensures
            final(self)@ == subst_vars(
                old(self)@,
                Map::empty().insert(name@, function@),
                false,
            ),
        decreases expr_height(old(self)@), 2int,
    {
        let replacement: Option<FormulaArgument> = match &self.tree {
            FormulaArgument::Variable(v) => {
                if v == name {
                    Some(function.clone_rec().tree)
                } else {
                    None
                }
            },
            _ => None,
        };
        match replacement {
            Some(t) => {
                self.tree = t;
            },
            None => {
                match &mut self.tree {
                    FormulaArgument::OwnedFunction(n) => {
                        (&mut **n).set_one_owned_rec(name, function);
                    },
                    _ => {},
                }
            },
        }
    }
}

impl FunctionNode {
    pub(crate) fn set_all_rec<T: GetVariable>(&mut self, args: &T, shared: bool)
        ensures
            final(self)@ == subst_vars(old(self)@, args.variables(), shared),
        decreases expr_height(old(self)@), 1int,
    {
        match self {
            FunctionNode::Operator(of) => {
                of.first.set_all_rec(args, shared);
                of.second.set_all_rec(args, shared);
            },
            FunctionNode::Sin(s) => {
                s.argument.set_all_rec(args, shared);
            },
            FunctionNode::Unary(u) => {
                u.argument.set_all_rec(args, shared);
            },
            FunctionNode::Min(m) => {
                m.set_all_rec(args, shared);
            },
        }
    }

    pub(crate) fn set_one_rec(&mut self, name: &Variable, function: &Arc<RootFormula>, shared: bool)
        ensures
            final(self)@ == subst_vars(
                old(self)@,
                Map::empty().insert(name@, (**function)@),
                shared,
            ),
        decreases expr_height(old(self)@), 1int,
    {
        match self {
            FunctionNode::Operator(of) => {
                of.first.set_one_rec(name, function, shared);
                of.second.set_one_rec(name, function, shared);
            },
            FunctionNode::Sin(s) => {
                s.argument.set_one_rec(name, function, shared);
            },
            FunctionNode::Unary(u) => {
                u.argument.set_one_rec(name, function, shared);
            },
            FunctionNode::Min(m) => {
                m.set_one_rec(name, function, shared);
            },
        }
    }

    pub(crate) fn set_one_owned_rec(&mut self, name: &Variable, function: &RootFormula)
        ensures
            final(self)@ == subst_vars(
                old(self)@,
                Map::empty().insert(name@, function@),
                false,
            ),
        decreases expr_height(old(self)@), 1int,
    {
        match self {
            FunctionNode::Operator(of) => {
                of.first.set_one_owned_rec(name, function);
                of.second.set_one_owned_rec(name, function);
            },
            FunctionNode::Sin(s) => {
                s.argument.set_one_owned_rec(name, function);
            },
            FunctionNode::Unary(u) => {
                u.argument.set_one_owned_rec(name, function);
            },
            FunctionNode::Min(m) => {
                m.set_one_owned_rec(name, function);
            },
        }
    }
}

impl Min {
    pub(crate) fn set_all_rec<T: GetVariable>(&mut self, args: &T, shared: bool)
        ensures
            rf_views(final(self).arguments@) == subst_list(
                rf_views(old(self).arguments@),
                args.variables(),
                shared,
            ),
        decreases expr_height(ExprV::Min(rf_views(old(self).arguments@))), 0int,
    {
        let ghost views = rf_views(self.arguments@);
        let ghost m = args.variables();
        proof {
            lemma_rf_views_len(self.arguments@);
            lemma_subst_list_len(views, m, shared);
        }
        let n = self.arguments.len();
        for i in 0..n
            invariant
                n == self.arguments@.len(),
                views.len() == n,
                old(self).arguments@.len() == n,
                views == rf_views(old(self).arguments@),
                m == args.variables(),
                forall|j: int|
                    0 <= j < i ==> rf_view(#[trigger] self.arguments@[j]) == subst_vars(
                        views[j],
                        m,
                        shared,
                    ),
                forall|j: int| i <= j < n ==> #[trigger] self.arguments@[j] == old(
                    self,
                ).arguments@[j],
        {
            proof {
                rf_views_index(old(self).arguments@, i as int);
                lemma_expr_heights_ge(views, i as int);
            }
            self.arguments[i].set_all_rec(args, shared);
        }
        proof {
            lemma_rf_views_len(self.arguments@);
            assert forall|j: int| 0 <= j < n implies rf_views(self.arguments@)[j] == subst_list(
                views,
                m,
                shared,
            )[j] by {
                rf_views_index(self.arguments@, j);
                lemma_subst_list_index(views, m, shared, j);
            }
            assert(rf_views(self.arguments@) =~= subst_list(views, m, shared));
        }
    }

    pub(crate) fn set_one_rec(&mut self, name: &Variable, function: &Arc<RootFormula>, shared: bool)
        ensures
            rf_views(final(self).arguments@) == subst_list(
                rf_views(old(self).arguments@),
                Map::empty().insert(name@, (**function)@),
                shared,
            ),
        decreases expr_height(ExprV::Min(rf_views(old(self).arguments@))), 0int,
    {
        let ghost views = rf_views(self.arguments@);
        let ghost m = Map::empty().insert(name@, (**function)@);
        proof {
            lemma_rf_views_len(self.arguments@);
            lemma_subst_list_len(views, m, shared);
        }
        let n = self.arguments.len();
        for i in 0..n
            invariant
                n == self.arguments@.len(),
                views.len() == n,
                old(self).arguments@.len() == n,
                views == rf_views(old(self).arguments@),
                m == Map::empty().insert(name@, (**function)@),
                forall|j: int|
                    0 <= j < i ==> rf_view(#[trigger] self.arguments@[j]) == subst_vars(
                        views[j],
                        m,
                        shared,
                    ),
                forall|j: int| i <= j < n ==> #[trigger] self.arguments@[j] == old(
                    self,
                ).arguments@[j],
        {
            proof {
                rf_views_index(old(self).arguments@, i as int);
                lemma_expr_heights_ge(views, i as int);
            }
            self.arguments[i].set_one_rec(name, function, shared);
        }
        proof {
            lemma_rf_views_len(self.arguments@);
            assert forall|j: int| 0 <= j < n implies rf_views(self.arguments@)[j] == subst_list(
                views,
                m,
                shared,
            )[j] by {
                rf_views_index(self.arguments@, j);
                lemma_subst_list_index(views, m, shared, j);
            }
            assert(rf_views(self.arguments@) =~= subst_list(views, m, shared));
        }
    }

    pub(crate) fn set_one_owned_rec(&mut self, name: &Variable, function: &RootFormula)
        ensures
            rf_views(final(self).arguments@) == subst_list(
                rf_views(old(self).arguments@),
                Map::empty().insert(name@, function@),
                false,
            ),
        decreases expr_height(ExprV::Min(rf_views(old(self).arguments@))), 0int,
    {
        let ghost views = rf_views(self.arguments@);
        let ghost m = Map::empty().insert(name@, function@);
        proof {
            lemma_rf_views_len(self.arguments@);
            lemma_subst_list_len(views, m, false);
        }
        let n = self.arguments.len();
        for i in 0..n
            invariant
                n == self.arguments@.len(),
                views.len() == n,
                old(self).arguments@.len() == n,
                views == rf_views(old(self).arguments@),
                m == Map::empty().insert(name@, function@),
                forall|j: int|
                    0 <= j < i ==> rf_view(#[trigger] self.arguments@[j]) == subst_vars(
                        views[j],
                        m,
                        false,
                    ),
                forall|j: int| i <= j < n ==> #[trigger] self.arguments@[j] == old(
                    self,
                ).arguments@[j],
        {
            proof {
                rf_views_index(old(self).arguments@, i as int);
                lemma_expr_heights_ge(views, i as int);
            }
            self.arguments[i].set_one_owned_rec(name, function);
        }
        proof {
            lemma_rf_views_len(self.arguments@);
            assert forall|j: int| 0 <= j < n implies rf_views(self.arguments@)[j] == subst_list(
                views,
                m,
                false,
            )[j] by {
                rf_views_index(self.arguments@, j);
                lemma_subst_list_index(views, m, false, j);
            }
            assert(rf_views(self.arguments@) =~= subst_list(views, m, false));
        }
    }
}

// ---------------------------------------------------------------------
// Programmatic combination
// ---------------------------------------------------------------------

impl OperatorFormula {
    /// Creates a new operator application over two subtrees.
    pub fn new(first: RootFormula, second: RootFormula, operator: Operator) -> (r: Self)
        ensures
            r@ == ExprV::Op(operator, Box::new(first@), Box::new(second@)),
    {
        Self { first, second, operator }
    }
}

impl RootFormula {
    /// Builds the binary application over the two formulas and, as the
    /// parser itself would, folds it to a number leaf at once when both
    /// sides are constant.
    fn combine(self, rhs: RootFormula, operator: Operator) -> (r: RootFormula)
        ensures
            r@ == combine_op(operator, self@, rhs@),
    {
        let node = FunctionNode::Operator(OperatorFormula { first: self, second: rhs, operator });
        if node.is_const_rec() {
            proof {
                lemma_const_eval(node@, Map::empty(), 0);
            }
            let v = node.eval_rec(&EmptyVariableStore, Ghost(0nat));
            match v {
                Ok(b) => RootFormula { tree: FormulaArgument::Number(b) },
                Err(_) => {
                    proof {
                        assert(false);
                    }
                    RootFormula { tree: FormulaArgument::Number(NAN_BITS) }
                },
            }
        } else {
            RootFormula { tree: FormulaArgument::OwnedFunction(Box::new(node)) }
        }
    }

    /// The sum of the two formulas, folded at once when both are
    /// constant.
    pub fn add(self, rhs: RootFormula) -> (r: RootFormula)
        ensures
            r@ == combine_op(Operator::Plus, self@, rhs@),
    {
        self.combine(rhs, Operator::Plus)
    }

    /// The difference of the two formulas, folded at once when both are
    /// constant.
    pub fn sub(self, rhs: RootFormula) -> (r: RootFormula)
        ensures
            r@ == combine_op(Operator::Minus, self@, rhs@),
    {
        self.combine(rhs, Operator::Minus)
    }

    /// The product of the two formulas, folded at once when both are
    /// constant.
    pub fn mul(self, rhs: RootFormula) -> (r: RootFormula)
        ensures
            r@ == combine_op(Operator::Multiply, self@, rhs@),
    {
        self.combine(rhs, Operator::Multiply)
    }

    /// The quotient of the two formulas, folded at once when both are
    /// constant.
    pub fn div(self, rhs: RootFormula) -> (r: RootFormula)
        ensures
            r@ == combine_op(Operator::Divide, self@, rhs@),
    {
        self.combine(rhs, Operator::Divide)
    }
}

} // verus!
