//! The mathematical model of a formula tree.
//!
//! Every executable tree type of the library views into [`ExprV`], and
//! every contract of the library speaks in terms of the spec functions
//! here: constancy, evaluation, constant folding and variable binding.
//!
//! Evaluation looks variables up in a map from name to stored formula
//! and evaluates the stored formula against the same map, so a chain of
//! definitions may be arbitrarily deep — or cyclic, in which case no
//! evaluation depth suffices.  The spec therefore evaluates with an
//! explicit depth budget (`fuel`); [`resolvable`] says a budget is
//! enough, [`grounded`] that some budget is, and [`eval_expr`] is the
//! budget-independent value ([`lemma_eval_fuel_agrees`]).

use vstd::prelude::*;

use crate::function_stores::{apply_unary, UnaryKind};
use crate::numeric::{
    add_bits, div_bits, min_bits, mul_bits, pow_bits, sin_bits, sub_bits, MAX_FINITE_BITS,
};
use crate::tokens::Operator;

verus! {

/// The shape of a formula tree, as contracts see it.
///
/// `Shared` marks a subtree spliced in by reference-counted aliasing;
/// evaluation looks through the mark, but variable binding does not
/// descend below it.
pub enum ExprV {
    /// A number leaf, as binary64 bits.
    Num(u64),
    /// A variable leaf, resolved by name at evaluation time.
    Var(Seq<char>),
    /// A binary operator over two subtrees.
    Op(Operator, Box<ExprV>, Box<ExprV>),
    /// The sine of one subtree.
    Sin(Box<ExprV>),
    /// One of the other one-argument math functions, over one subtree.
    Unary(UnaryKind, Box<ExprV>),
    /// The minimum of a list of subtrees.
    Min(Seq<ExprV>),
    /// An aliased subtree, owned jointly with other holders.
    Shared(Box<ExprV>),
}

/// The map a variable store views into: name to stored formula.
pub type VarsV = Map<Seq<char>, ExprV>;

/// What a binary operator computes, on binary64 bit patterns.
pub open spec fn apply_op(op: Operator, a: u64, b: u64) -> u64 {
    match op {
        Operator::Plus => add_bits(a, b),
        Operator::Minus => sub_bits(a, b),
        Operator::Multiply => mul_bits(a, b),
        Operator::Divide => div_bits(a, b),
        Operator::Exponent => pow_bits(a, b),
    }
}

/// The height of a tree: a measure for recursion over executable trees,
/// where an aliased subtree may only be reached through a clone of it.
pub open spec fn expr_height(e: ExprV) -> nat
    decreases e,
{
    match e {
        ExprV::Num(_) => 0,
        ExprV::Var(_) => 0,
        ExprV::Op(_, l, r) => 1 + if expr_height(*l) >= expr_height(*r) {
            expr_height(*l)
        } else {
            expr_height(*r)
        },
        ExprV::Sin(a) => 1 + expr_height(*a),
        ExprV::Unary(_, a) => 1 + expr_height(*a),
        ExprV::Min(args) => 1 + expr_heights(args),
        ExprV::Shared(a) => 1 + expr_height(*a),
    }
}

/// The largest height over a list of trees.
pub open spec fn expr_heights(es: Seq<ExprV>) -> nat
    decreases es,
{
    if es.len() == 0 {
        0
    } else if expr_height(es.first()) >= expr_heights(es.drop_first()) {
        expr_height(es.first())
    } else {
        expr_heights(es.drop_first())
    }
}

/// Each tree of a list is bounded by the list's largest height.
pub proof fn lemma_expr_heights_ge(es: Seq<ExprV>, i: int)
    requires
        0 <= i < es.len(),
    ensures
        expr_height(es[i]) <= expr_heights(es),
    decreases es.len(),
{
    if i > 0 {
        lemma_expr_heights_ge(es.drop_first(), i - 1);
        assert(es.drop_first()[i - 1] == es[i]);
    }
}

/// Whether a tree evaluates to the same value under every variable map:
/// true exactly when no variable leaf occurs in it.
pub open spec fn is_const_expr(e: ExprV) -> bool
    decreases e, 0int,
{
    match e {
        ExprV::Num(_) => true,
        ExprV::Var(_) => false,
        ExprV::Op(_, l, r) => is_const_expr(*l) && is_const_expr(*r),
        ExprV::Sin(a) => is_const_expr(*a),
        ExprV::Unary(_, a) => is_const_expr(*a),
        ExprV::Min(args) => is_const_list(args),
        ExprV::Shared(a) => is_const_expr(*a),
    }
}

/// `is_const_expr`, over every tree of a list.
pub open spec fn is_const_list(args: Seq<ExprV>) -> bool
    decreases args, 1int,
{
    forall|i: int| 0 <= i < args.len() ==> is_const_expr(#[trigger] args[i])
}

/// The value of a constant tree; meaningless on trees with variables.
pub open spec fn eval_const(e: ExprV) -> u64
    decreases e,
{
    match e {
        ExprV::Num(b) => b,
        ExprV::Var(_) => 0,
        ExprV::Op(op, l, r) => apply_op(op, eval_const(*l), eval_const(*r)),
        ExprV::Sin(a) => sin_bits(eval_const(*a)),
        ExprV::Unary(k, a) => apply_unary(k, eval_const(*a)),
        ExprV::Min(args) => eval_min_const(args, 0, MAX_FINITE_BITS),
        ExprV::Shared(a) => eval_const(*a),
    }
}

/// The minimum fold over constant arguments, left to right from `acc`.
pub open spec fn eval_min_const(args: Seq<ExprV>, i: int, acc: u64) -> u64
    decreases args, args.len() - i,
{
    if i < 0 || i >= args.len() {
        acc
    } else {
        eval_min_const(args, i + 1, min_bits(acc, eval_const(args[i])))
    }
}

/// Whether an evaluation depth budget of `fuel` variable lookups along
/// any one chain suffices to evaluate `e` under `vars`.
pub open spec fn resolvable(e: ExprV, vars: VarsV, fuel: nat) -> bool
    decreases fuel, e, 0int,
{
    match e {
        ExprV::Num(_) => true,
        ExprV::Var(n) => vars.contains_key(n) ==> fuel > 0 && resolvable(
            vars[n],
            vars,
            (fuel - 1) as nat,
        ),
        ExprV::Op(_, l, r) => resolvable(*l, vars, fuel) && resolvable(*r, vars, fuel),
        ExprV::Sin(a) => resolvable(*a, vars, fuel),
        ExprV::Unary(_, a) => resolvable(*a, vars, fuel),
        ExprV::Min(args) => resolvable_list(args, vars, fuel),
        ExprV::Shared(a) => resolvable(*a, vars, fuel),
    }
}

/// `resolvable`, over every tree of a list.
pub open spec fn resolvable_list(args: Seq<ExprV>, vars: VarsV, fuel: nat) -> bool
    decreases fuel, args, 1int,
{
    forall|i: int| 0 <= i < args.len() ==> resolvable(#[trigger] args[i], vars, fuel)
}

/// Whether some evaluation depth budget suffices: evaluation of `e`
/// under `vars` terminates.  A cyclic chain of variable definitions is
/// the one way this fails.
pub open spec fn grounded(e: ExprV, vars: VarsV) -> bool {
    exists|fuel: nat| resolvable(e, vars, fuel)
}

/// The value of a tree under a variable map, within a depth budget:
/// either the bits it evaluates to, or the name of the first variable
/// (in evaluation order) that the map does not contain.
///
/// A variable leaf evaluates the stored formula against the same map,
/// so a stored formula may itself use variables of the map.
pub open spec fn eval_fuel(e: ExprV, vars: VarsV, fuel: nat) -> Result<u64, Seq<char>>
    decreases fuel, e, 0int,
{
    match e {
        ExprV::Num(b) => Ok(b),
        ExprV::Var(n) => if !vars.contains_key(n) {
            Err(n)
        } else if fuel == 0 {
            Err(n)
        } else {
            eval_fuel(vars[n], vars, (fuel - 1) as nat)
        },
        ExprV::Op(op, l, r) => match (eval_fuel(*l, vars, fuel), eval_fuel(*r, vars, fuel)) {
            (Ok(a), Ok(b)) => Ok(apply_op(op, a, b)),
            (Err(n), _) => Err(n),
            (_, Err(n)) => Err(n),
        },
        ExprV::Sin(a) => match eval_fuel(*a, vars, fuel) {
            Ok(v) => Ok(sin_bits(v)),
            Err(n) => Err(n),
        },
        ExprV::Unary(k, a) => match eval_fuel(*a, vars, fuel) {
            Ok(v) => Ok(apply_unary(k, v)),
            Err(n) => Err(n),
        },
        ExprV::Min(args) => eval_min_fuel(args, vars, fuel, 0, MAX_FINITE_BITS),
        ExprV::Shared(a) => eval_fuel(*a, vars, fuel),
    }
}

/// The minimum fold over a list of argument trees, left to right from
/// `acc`, stopping at the first evaluation error.
pub open spec fn eval_min_fuel(
    args: Seq<ExprV>,
    vars: VarsV,
    fuel: nat,
    i: int,
    acc: u64,
) -> Result<u64, Seq<char>>
    decreases fuel, args, args.len() - i,
{
    if i < 0 || i >= args.len() {
        Ok(acc)
    } else {
        match eval_fuel(args[i], vars, fuel) {
            Ok(v) => eval_min_fuel(args, vars, fuel, i + 1, min_bits(acc, v)),
            Err(n) => Err(n),
        }
    }
}

/// The value of a tree under a variable map, independent of any
/// particular depth budget; meaningful when `grounded(e, vars)`.
pub open spec fn eval_expr(e: ExprV, vars: VarsV) -> Result<u64, Seq<char>> {
    eval_fuel(e, vars, choose|fuel: nat| resolvable(e, vars, fuel))
}

/// Two sufficient depth budgets give the same value.
pub proof fn lemma_eval_fuel_agrees(e: ExprV, vars: VarsV, f1: nat, f2: nat)
    requires
        resolvable(e, vars, f1),
        resolvable(e, vars, f2),
    ensures
        eval_fuel(e, vars, f1) == eval_fuel(e, vars, f2),
    decreases f1 + f2, e, 0int,
{
    match e {
        ExprV::Num(_) => {},
        ExprV::Var(n) => {
            if vars.contains_key(n) {
                lemma_eval_fuel_agrees(vars[n], vars, (f1 - 1) as nat, (f2 - 1) as nat);
            }
        },
        ExprV::Op(_, l, r) => {
            lemma_eval_fuel_agrees(*l, vars, f1, f2);
            lemma_eval_fuel_agrees(*r, vars, f1, f2);
        },
        ExprV::Sin(a) => {
            lemma_eval_fuel_agrees(*a, vars, f1, f2);
        },
        ExprV::Unary(_, a) => {
            lemma_eval_fuel_agrees(*a, vars, f1, f2);
        },
        ExprV::Min(args) => {
            lemma_eval_min_fuel_agrees(args, vars, f1, f2, 0, MAX_FINITE_BITS);
        },
        ExprV::Shared(a) => {
            lemma_eval_fuel_agrees(*a, vars, f1, f2);
        },
    }
}

proof fn lemma_eval_min_fuel_agrees(
    args: Seq<ExprV>,
    vars: VarsV,
    f1: nat,
    f2: nat,
    i: int,
    acc: u64,
)
    requires
        resolvable_list(args, vars, f1),
        resolvable_list(args, vars, f2),
    ensures
        eval_min_fuel(args, vars, f1, i, acc) == eval_min_fuel(args, vars, f2, i, acc),
    decreases f1 + f2, args, args.len() - i,
{
    if 0 <= i < args.len() {
        lemma_eval_fuel_agrees(args[i], vars, f1, f2);
        if let Ok(v) = eval_fuel(args[i], vars, f1) {
            lemma_eval_min_fuel_agrees(args, vars, f1, f2, i + 1, min_bits(acc, v));
        }
    }
}

/// The value of a grounded tree at any sufficient budget is its value.
pub proof fn lemma_eval_fuel_is_eval_expr(e: ExprV, vars: VarsV, fuel: nat)
    requires
        resolvable(e, vars, fuel),
    ensures
        eval_fuel(e, vars, fuel) == eval_expr(e, vars),
{
    let f0 = choose|f: nat| resolvable(e, vars, f);
    lemma_eval_fuel_agrees(e, vars, fuel, f0);
}

/// A constant tree needs no budget and no variables: it is resolvable
/// under any map at any budget, and evaluates to `eval_const` of it.
pub proof fn lemma_const_eval(e: ExprV, vars: VarsV, fuel: nat)
    requires
        is_const_expr(e),
    ensures
        resolvable(e, vars, fuel),
        eval_fuel(e, vars, fuel) == Ok::<u64, Seq<char>>(eval_const(e)),
    decreases e, 0int,
{
    match e {
        ExprV::Num(_) => {},
        ExprV::Var(_) => {},
        ExprV::Op(_, l, r) => {
            lemma_const_eval(*l, vars, fuel);
            lemma_const_eval(*r, vars, fuel);
        },
        ExprV::Sin(a) => {
            lemma_const_eval(*a, vars, fuel);
        },
        ExprV::Unary(_, a) => {
            lemma_const_eval(*a, vars, fuel);
        },
        ExprV::Min(args) => {
            lemma_const_eval_min(args, vars, fuel, 0, MAX_FINITE_BITS);
        },
        ExprV::Shared(a) => {
            lemma_const_eval(*a, vars, fuel);
        },
    }
}

proof fn lemma_const_eval_min(args: Seq<ExprV>, vars: VarsV, fuel: nat, i: int, acc: u64)
    requires
        is_const_list(args),
    ensures
        resolvable_list(args, vars, fuel),
        eval_min_fuel(args, vars, fuel, i, acc) == Ok::<u64, Seq<char>>(
            eval_min_const(args, i, acc),
        ),
    decreases args, args.len() - i,
{
    assert forall|j: int| 0 <= j < args.len() implies resolvable(#[trigger] args[j], vars, fuel) by {
        lemma_const_eval(args[j], vars, fuel);
    }
    if 0 <= i < args.len() {
        lemma_const_eval(args[i], vars, fuel);
        lemma_const_eval_min(args, vars, fuel, i + 1, min_bits(acc, eval_const(args[i])));
    }
}

/// Evaluating a variable leaf evaluates what the map stores under it.
pub proof fn lemma_eval_expr_var(n: Seq<char>, vars: VarsV)
    requires
        grounded(ExprV::Var(n), vars),
        vars.contains_key(n),
    ensures
        grounded(vars[n], vars),
        eval_expr(ExprV::Var(n), vars) == eval_expr(vars[n], vars),
{
    let f = choose|f: nat| resolvable(ExprV::Var(n), vars, f);
    lemma_eval_fuel_is_eval_expr(ExprV::Var(n), vars, f);
    assert(resolvable(vars[n], vars, (f - 1) as nat));
    lemma_eval_fuel_is_eval_expr(vars[n], vars, (f - 1) as nat);
}

/// A binary application as programmatic combination builds it: the
/// operator over the two trees, folded to a number leaf at once when
/// both sides are constant.
pub open spec fn combine_op(op: Operator, a: ExprV, b: ExprV) -> ExprV {
    let e = ExprV::Op(op, Box::new(a), Box::new(b));
    if is_const_expr(e) {
        ExprV::Num(eval_const(e))
    } else {
        e
    }
}

/// A tree after constant folding: every constant subtree is replaced by
/// a number leaf; a non-constant aliased subtree is replaced by a
/// folded private copy.
pub open spec fn collapse_expr(e: ExprV) -> ExprV
    decreases e, 1int,
{
    if is_const_expr(e) {
        ExprV::Num(eval_const(e))
    } else {
        match e {
            ExprV::Num(_) => e,
            ExprV::Var(_) => e,
            ExprV::Op(op, l, r) => ExprV::Op(
                op,
                Box::new(collapse_expr(*l)),
                Box::new(collapse_expr(*r)),
            ),
            ExprV::Sin(a) => ExprV::Sin(Box::new(collapse_expr(*a))),
            ExprV::Unary(k, a) => ExprV::Unary(k, Box::new(collapse_expr(*a))),
            ExprV::Min(args) => ExprV::Min(collapse_list(args)),
            ExprV::Shared(a) => collapse_expr(*a),
        }
    }
}

/// `collapse_expr`, over every tree of a list.
pub open spec fn collapse_list(args: Seq<ExprV>) -> Seq<ExprV>
    decreases args, 0int,
{
    if args.len() == 0 {
        Seq::empty()
    } else {
        seq![collapse_expr(args.first())] + collapse_list(args.drop_first())
    }
}

/// A tree with every variable of a map bound: each variable leaf whose
/// name the map contains is replaced by the stored formula — aliased
/// behind a `Shared` mark when `shared` is set, as a private copy
/// otherwise.  Binding does not descend below existing `Shared` marks.
pub open spec fn subst_vars(e: ExprV, m: VarsV, shared: bool) -> ExprV
    decreases e, 1int,
{
    match e {
        ExprV::Num(_) => e,
        ExprV::Var(n) => if m.contains_key(n) {
            if shared {
                ExprV::Shared(Box::new(m[n]))
            } else {
                m[n]
            }
        } else {
            e
        },
        ExprV::Op(op, l, r) => ExprV::Op(
            op,
            Box::new(subst_vars(*l, m, shared)),
            Box::new(subst_vars(*r, m, shared)),
        ),
        ExprV::Sin(a) => ExprV::Sin(Box::new(subst_vars(*a, m, shared))),
        ExprV::Unary(k, a) => ExprV::Unary(k, Box::new(subst_vars(*a, m, shared))),
        ExprV::Min(args) => ExprV::Min(subst_list(args, m, shared)),
        ExprV::Shared(_) => e,
    }
}

/// `subst_vars`, over every tree of a list.
pub open spec fn subst_list(args: Seq<ExprV>, m: VarsV, shared: bool) -> Seq<ExprV>
    decreases args, 0int,
{
    if args.len() == 0 {
        Seq::empty()
    } else {
        seq![subst_vars(args.first(), m, shared)] + subst_list(args.drop_first(), m, shared)
    }
}

/// Folding a list folds each tree of it.
pub proof fn lemma_collapse_list_index(args: Seq<ExprV>, i: int)
    requires
        0 <= i < args.len(),
    ensures
        collapse_list(args).len() == args.len(),
        collapse_list(args)[i] == collapse_expr(args[i]),
    decreases args.len(),
{
    lemma_collapse_list_len(args);
    if i > 0 {
        lemma_collapse_list_index(args.drop_first(), i - 1);
        assert(args.drop_first()[i - 1] == args[i]);
    }
}

/// Folding a list keeps its length.
pub proof fn lemma_collapse_list_len(args: Seq<ExprV>)
    ensures
        collapse_list(args).len() == args.len(),
    decreases args.len(),
{
    if args.len() > 0 {
        lemma_collapse_list_len(args.drop_first());
    }
}

/// Binding a list binds each tree of it.
pub proof fn lemma_subst_list_index(args: Seq<ExprV>, m: VarsV, shared: bool, i: int)
    requires
        0 <= i < args.len(),
    ensures
        subst_list(args, m, shared).len() == args.len(),
        subst_list(args, m, shared)[i] == subst_vars(args[i], m, shared),
    decreases args.len(),
{
    lemma_subst_list_len(args, m, shared);
    if i > 0 {
        lemma_subst_list_index(args.drop_first(), m, shared, i - 1);
        assert(args.drop_first()[i - 1] == args[i]);
    }
}

/// Binding a list keeps its length.
pub proof fn lemma_subst_list_len(args: Seq<ExprV>, m: VarsV, shared: bool)
    ensures
        subst_list(args, m, shared).len() == args.len(),
    decreases args.len(),
{
    if args.len() > 0 {
        lemma_subst_list_len(args.drop_first(), m, shared);
    }
}

/// Under the empty variable map every tree is resolvable with no budget
/// at all: no variable leaf can be followed anywhere.
pub proof fn lemma_resolvable_empty(e: ExprV, fuel: nat)
    ensures
        resolvable(e, Map::empty(), fuel),
    decreases e, 0int,
{
    match e {
        ExprV::Num(_) => {},
        ExprV::Var(n) => {
            assert(!Map::<Seq<char>, ExprV>::empty().contains_key(n));
        },
        ExprV::Op(_, l, r) => {
            lemma_resolvable_empty(*l, fuel);
            lemma_resolvable_empty(*r, fuel);
        },
        ExprV::Sin(a) => {
            lemma_resolvable_empty(*a, fuel);
        },
        ExprV::Unary(_, a) => {
            lemma_resolvable_empty(*a, fuel);
        },
        ExprV::Min(args) => {
            assert forall|i: int| 0 <= i < args.len() implies resolvable(
                #[trigger] args[i],
                Map::empty(),
                fuel,
            ) by {
                lemma_resolvable_empty(args[i], fuel);
            }
            assert(resolvable_list(args, Map::empty(), fuel));
        },
        ExprV::Shared(a) => {
            lemma_resolvable_empty(*a, fuel);
        },
    }
}

} // verus!
