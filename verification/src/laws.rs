//! Laws the engine obeys, stated and proved once and for all: what a
//! binary application evaluates to for every pair of operand bits, how
//! precedence and associativity group the operands, that parsing folds
//! constants completely, and that sharing a subtree never changes a
//! formula's value.

use vstd::prelude::*;

use crate::expr::{
    apply_op, collapse_expr, collapse_list, eval_const, eval_expr, grounded, is_const_expr,
    is_const_list, lemma_collapse_list_index, lemma_eval_fuel_is_eval_expr, resolvable, ExprV,
    VarsV,
};
use crate::formulas::ParseErrV;
use crate::function_stores::FunctionKind;
use crate::lexer::{spec_lex, spec_parse};
use crate::parser::{
    spec_build_rpn, spec_compress, spec_compress_fold, spec_drain, spec_parse_tokens,
    spec_process_operator, spec_push_formula, spec_rpn_fold, OperatorStackToken, TokenV,
};
use crate::tokens::{Bracket, CloseBracket, OpenBracket, Operator, Side};

verus! {

/// A number leaf evaluates to its bits under every variable map.
pub proof fn lemma_eval_num(b: u64, vars: VarsV)
    ensures
        grounded(ExprV::Num(b), vars),
        eval_expr(ExprV::Num(b), vars) == Ok::<u64, Seq<char>>(b),
{
    assert(resolvable(ExprV::Num(b), vars, 0));
    lemma_eval_fuel_is_eval_expr(ExprV::Num(b), vars, 0);
}

/// An aliased subtree evaluates as the subtree itself: sharing never
/// changes a formula's value.
pub proof fn lemma_shared_transparent(e: ExprV, vars: VarsV)
    requires
        grounded(e, vars),
    ensures
        grounded(ExprV::Shared(Box::new(e)), vars),
        eval_expr(ExprV::Shared(Box::new(e)), vars) == eval_expr(e, vars),
{
    let f = choose|f: nat| resolvable(e, vars, f);
    assert(resolvable(ExprV::Shared(Box::new(e)), vars, f));
    lemma_eval_fuel_is_eval_expr(e, vars, f);
    lemma_eval_fuel_is_eval_expr(ExprV::Shared(Box::new(e)), vars, f);
}

/// Folding keeps constancy: a tree has variables after folding exactly
/// when it had them before.
pub proof fn lemma_collapse_preserves_const(e: ExprV)
    ensures
        is_const_expr(collapse_expr(e)) == is_const_expr(e),
    decreases e, 1int,
{
    if is_const_expr(e) {
        assert(collapse_expr(e) == ExprV::Num(eval_const(e)));
    } else {
        match e {
            ExprV::Num(_) => {
                assert(is_const_expr(e));
            },
            ExprV::Var(_) => {
                assert(collapse_expr(e) == e);
            },
            ExprV::Op(op, l, r) => {
                lemma_collapse_preserves_const(*l);
                lemma_collapse_preserves_const(*r);
                assert(collapse_expr(e) == ExprV::Op(
                    op,
                    Box::new(collapse_expr(*l)),
                    Box::new(collapse_expr(*r)),
                ));
            },
            ExprV::Sin(a) => {
                lemma_collapse_preserves_const(*a);
                assert(collapse_expr(e) == ExprV::Sin(Box::new(collapse_expr(*a))));
            },
            ExprV::Unary(k, a) => {
                lemma_collapse_preserves_const(*a);
                assert(collapse_expr(e) == ExprV::Unary(k, Box::new(collapse_expr(*a))));
            },
            ExprV::Min(args) => {
                let folded = collapse_list(args);
                assert(collapse_expr(e) == ExprV::Min(folded));
                lemma_collapse_list_preserves_const(args);
                if is_const_list(folded) {
                    assert forall|i: int| 0 <= i < args.len() implies is_const_expr(
                        #[trigger] args[i],
                    ) by {
                        lemma_collapse_list_index(args, i);
                        assert(is_const_expr(folded[i]));
                    }
                    assert(is_const_list(args));
                    assert(is_const_expr(e));
                }
            },
            ExprV::Shared(a) => {
                lemma_collapse_preserves_const(*a);
                assert(collapse_expr(e) == collapse_expr(*a));
            },
        }
    }
}

/// Folding keeps constancy, over every tree of a list.
pub proof fn lemma_collapse_list_preserves_const(args: Seq<ExprV>)
    ensures
        forall|i: int|
            0 <= i < args.len() ==> is_const_expr(#[trigger] collapse_list(args)[i])
                == is_const_expr(args[i]),
    decreases args, 0int,
{
    assert forall|i: int| 0 <= i < args.len() implies is_const_expr(
        #[trigger] collapse_list(args)[i],
    ) == is_const_expr(args[i]) by {
        lemma_collapse_list_index(args, i);
        lemma_collapse_preserves_const(args[i]);
    }
}

/// Whether a tree carries its constancy on its face: a constant tree is
/// a plain number leaf.
pub open spec fn folded_flat(e: ExprV) -> bool {
    is_const_expr(e) ==> e is Num
}

/// Pushing a freshly built subtree keeps the reduction stack flat.
proof fn lemma_push_formula_flat(stack: Seq<ExprV>, e: ExprV)
    requires
        forall|k: int| 0 <= k < stack.len() ==> folded_flat(#[trigger] stack[k]),
    ensures
        forall|k: int|
            0 <= k < spec_push_formula(stack, e).len() ==> folded_flat(
                #[trigger] spec_push_formula(stack, e)[k],
            ),
{
    if !is_const_expr(e) {
        lemma_collapse_preserves_const(e);
    }
}

/// Reduction only ever stacks trees whose constant parts are folded.
proof fn lemma_compress_fold_flat(ts: Seq<TokenV>, stack: Seq<ExprV>)
    requires
        forall|k: int| 0 <= k < stack.len() ==> folded_flat(#[trigger] stack[k]),
    ensures
        match spec_compress_fold(ts, stack) {
            Ok(st) => forall|k: int| 0 <= k < st.len() ==> folded_flat(#[trigger] st[k]),
            Err(_) => true,
        },
    decreases ts,
{
    if ts.len() > 0 {
        match ts.first() {
            TokenV::Num(b) => {
                lemma_compress_fold_flat(ts.drop_first(), stack.push(ExprV::Num(b)));
            },
            TokenV::Var(n) => {
                lemma_compress_fold_flat(ts.drop_first(), stack.push(ExprV::Var(n)));
            },
            TokenV::Formula(e) => {
                lemma_push_formula_flat(stack, e);
                lemma_compress_fold_flat(ts.drop_first(), spec_push_formula(stack, e));
            },
            TokenV::Op(op) => {
                if stack.len() >= 2 {
                    let second = stack.last();
                    let first = stack.drop_last().last();
                    let e = ExprV::Op(op, Box::new(first), Box::new(second));
                    let rest = stack.drop_last().drop_last();
                    assert forall|k: int| 0 <= k < rest.len() implies folded_flat(
                        #[trigger] rest[k],
                    ) by {
                        assert(rest[k] == stack[k]);
                    }
                    lemma_push_formula_flat(rest, e);
                    lemma_compress_fold_flat(ts.drop_first(), spec_push_formula(rest, e));
                }
            },
            TokenV::Brk(_) => {},
        }
    }
}

/// A parse folds constants completely: a parsed tree that is constant
/// is already a single number leaf, and folding it again changes
/// nothing.
pub proof fn lemma_parse_folds_constants(s: Seq<char>, ks: Seq<FunctionKind>, e: ExprV)
    requires
        spec_parse(s, ks) == Ok::<ExprV, ParseErrV>(e),
        is_const_expr(e),
    ensures
        e is Num,
        collapse_expr(e) == e,
{
    match spec_lex(s, ks) {
        Err(_) => {},
        Ok(tokens) => {
            match spec_build_rpn(tokens) {
                Err(_) => {},
                Ok(rpn) => {
                    lemma_compress_fold_flat(rpn, Seq::empty());
                    match spec_compress_fold(rpn, Seq::empty()) {
                        Err(_) => {},
                        Ok(st) => {
                            assert(st.len() == 1 && e == st[0]);
                            assert(folded_flat(st[0]));
                        },
                    }
                },
            }
        },
    }
    assert(collapse_expr(e) == ExprV::Num(eval_const(e)));
}

/// Applying one operator to two number tokens: the parse folds the
/// application into a single number leaf carrying exactly the
/// operator's value on the two operands, and that is what the tree
/// evaluates to under every variable map.
pub proof fn lemma_binary_operator_value(a: u64, b: u64, op: Operator, vars: VarsV)
    ensures
        spec_parse_tokens(seq![TokenV::Num(a), TokenV::Op(op), TokenV::Num(b)]) == Ok::<
            ExprV,
            ParseErrV,
        >(ExprV::Num(apply_op(op, a, b))),
        eval_expr(ExprV::Num(apply_op(op, a, b)), vars) == Ok::<u64, Seq<char>>(
            apply_op(op, a, b),
        ),
{
    let ts = seq![TokenV::Num(a), TokenV::Op(op), TokenV::Num(b)];
    let rpn = seq![TokenV::Num(a), TokenV::Num(b), TokenV::Op(op)];
    lemma_binary_rpn(a, b, op);
    lemma_binary_compress(a, b, op);
    lemma_eval_num(apply_op(op, a, b), vars);
}

/// The shunting-yard pass puts `a op b` into reverse Polish order.
proof fn lemma_binary_rpn(a: u64, b: u64, op: Operator)
    ensures
        spec_build_rpn(seq![TokenV::Num(a), TokenV::Op(op), TokenV::Num(b)]) == Ok::<
            Seq<TokenV>,
            ParseErrV,
        >(seq![TokenV::Num(a), TokenV::Num(b), TokenV::Op(op)]),
{
    let e0 = Seq::<TokenV>::empty();
    let s0 = Seq::<OperatorStackToken>::empty();
    let t1 = OperatorStackToken::Operator(op);
    let ts = seq![TokenV::Num(a), TokenV::Op(op), TokenV::Num(b)];
    let ts1 = seq![TokenV::Op(op), TokenV::Num(b)];
    let ts2 = seq![TokenV::Num(b)];
    assert(ts.drop_first() =~= ts1);
    assert(ts1.drop_first() =~= ts2);
    assert(ts2.drop_first() =~= e0);
    let r1 = e0.push(TokenV::Num(a));
    assert(spec_rpn_fold(ts, e0, s0) == spec_rpn_fold(ts1, r1, s0)) by {
        reveal_with_fuel(spec_rpn_fold, 2);
    }
    assert(spec_process_operator(op, r1, s0) == (r1, s0.push(t1))) by {
        reveal_with_fuel(spec_process_operator, 2);
    }
    assert(spec_rpn_fold(ts1, r1, s0) == spec_rpn_fold(ts2, r1, s0.push(t1))) by {
        reveal_with_fuel(spec_rpn_fold, 2);
    }
    let r2 = r1.push(TokenV::Num(b));
    assert(spec_rpn_fold(ts2, r1, s0.push(t1)) == spec_rpn_fold(e0, r2, s0.push(t1))) by {
        reveal_with_fuel(spec_rpn_fold, 2);
    }
    assert(s0.push(t1).last() == t1 && s0.push(t1).drop_last() =~= s0);
    assert(spec_rpn_fold(e0, r2, s0.push(t1)) == spec_drain(r2.push(TokenV::Op(op)), s0)) by {
        reveal_with_fuel(spec_rpn_fold, 2);
        reveal_with_fuel(spec_drain, 2);
    }
    assert(spec_drain(r2.push(TokenV::Op(op)), s0) == Ok::<Seq<TokenV>, ParseErrV>(
        r2.push(TokenV::Op(op)),
    )) by {
        reveal_with_fuel(spec_drain, 2);
    }
    assert(r2.push(TokenV::Op(op)) =~= seq![TokenV::Num(a), TokenV::Num(b), TokenV::Op(op)]);
}

/// The reduction of `a b op` folds at once into one number leaf.
proof fn lemma_binary_compress(a: u64, b: u64, op: Operator)
    ensures
        spec_compress(seq![TokenV::Num(a), TokenV::Num(b), TokenV::Op(op)]) == Ok::<
            ExprV,
            ParseErrV,
        >(ExprV::Num(apply_op(op, a, b))),
{
    let e0 = Seq::<TokenV>::empty();
    let st0 = Seq::<ExprV>::empty();
    let la = ExprV::Num(a);
    let lb = ExprV::Num(b);
    let rpn = seq![TokenV::Num(a), TokenV::Num(b), TokenV::Op(op)];
    let r1 = seq![TokenV::Num(b), TokenV::Op(op)];
    let r2 = seq![TokenV::Op(op)];
    assert(rpn.drop_first() =~= r1);
    assert(r1.drop_first() =~= r2);
    assert(r2.drop_first() =~= e0);
    let st1 = st0.push(la);
    let st2 = st1.push(lb);
    assert(spec_compress_fold(rpn, st0) == spec_compress_fold(r1, st1)) by {
        reveal_with_fuel(spec_compress_fold, 2);
    }
    assert(spec_compress_fold(r1, st1) == spec_compress_fold(r2, st2)) by {
        reveal_with_fuel(spec_compress_fold, 2);
    }
    let e = ExprV::Op(op, Box::new(la), Box::new(lb));
    assert(st2.len() == 2 && st2.last() == lb && st2.drop_last() =~= st1);
    assert(st1.last() == la && st1.drop_last() =~= st0);
    assert(spec_compress_fold(r2, st2) == spec_compress_fold(
        e0,
        spec_push_formula(st0, e),
    )) by {
        reveal_with_fuel(spec_compress_fold, 2);
    }
    assert(is_const_expr(e)) by {
        reveal_with_fuel(is_const_expr, 2);
    }
    assert(eval_const(e) == apply_op(op, a, b)) by {
        reveal_with_fuel(eval_const, 2);
    }
    assert(spec_push_formula(st0, e) =~= seq![ExprV::Num(apply_op(op, a, b))]);
    assert(spec_compress_fold(e0, spec_push_formula(st0, e)) == Ok::<Seq<ExprV>, ParseErrV>(
        spec_push_formula(st0, e),
    )) by {
        reveal_with_fuel(spec_compress_fold, 2);
    }
}

/// Precedence: with no parentheses, `a + b * c` groups the
/// multiplication under the addition; parenthesized, `(a + b) * c`
/// groups the addition under the multiplication.  Folding makes the
/// grouping visible in the value of the one number leaf that remains.
pub proof fn lemma_precedence(a: u64, b: u64, c: u64)
    ensures
        spec_parse_tokens(
            seq![
                TokenV::Num(a),
                TokenV::Op(Operator::Plus),
                TokenV::Num(b),
                TokenV::Op(Operator::Multiply),
                TokenV::Num(c),
            ],
        ) == Ok::<ExprV, ParseErrV>(
            ExprV::Num(apply_op(Operator::Plus, a, apply_op(Operator::Multiply, b, c))),
        ),
        spec_parse_tokens(
            seq![
                TokenV::Brk(Bracket::OpenBracket(OpenBracket)),
                TokenV::Num(a),
                TokenV::Op(Operator::Plus),
                TokenV::Num(b),
                TokenV::Brk(Bracket::CloseBracket(CloseBracket)),
                TokenV::Op(Operator::Multiply),
                TokenV::Num(c),
            ],
        ) == Ok::<ExprV, ParseErrV>(
            ExprV::Num(apply_op(Operator::Multiply, apply_op(Operator::Plus, a, b), c)),
        ),
{
    lemma_parse_five(a, Operator::Plus, b, Operator::Multiply, c);
    lemma_parse_bracketed(a, Operator::Plus, b, Operator::Multiply, c);
}

/// Right-associativity: `a ^ b ^ c` groups to the right, so the folded
/// value is `a` raised to the value of `b ^ c`.
pub proof fn lemma_exponent_right_associative(a: u64, b: u64, c: u64)
    ensures
        spec_parse_tokens(
            seq![
                TokenV::Num(a),
                TokenV::Op(Operator::Exponent),
                TokenV::Num(b),
                TokenV::Op(Operator::Exponent),
                TokenV::Num(c),
            ],
        ) == Ok::<ExprV, ParseErrV>(
            ExprV::Num(apply_op(Operator::Exponent, a, apply_op(Operator::Exponent, b, c))),
        ),
{
    lemma_parse_five(a, Operator::Exponent, b, Operator::Exponent, c);
}

/// The shared shape of `a op1 b op2 c` where `op2` stays pending at the
/// point of decision: for `+ then *` because it binds tighter, for
/// `^ then ^` because the right-associative exponent never reduces on
/// equal priority.  Both therefore reduce as `a op1 (b op2 c)`.
proof fn lemma_parse_five(a: u64, op1: Operator, b: u64, op2: Operator, c: u64)
    requires
        (op1 == Operator::Plus && op2 == Operator::Multiply) || (op1 == Operator::Exponent && op2
            == Operator::Exponent),
    ensures
        spec_parse_tokens(
            seq![TokenV::Num(a), TokenV::Op(op1), TokenV::Num(b), TokenV::Op(op2), TokenV::Num(c)],
        ) == Ok::<ExprV, ParseErrV>(ExprV::Num(apply_op(op1, a, apply_op(op2, b, c)))),
{
    let e0 = Seq::<TokenV>::empty();
    let s0 = Seq::<OperatorStackToken>::empty();
    let t1 = OperatorStackToken::Operator(op1);
    let t2 = OperatorStackToken::Operator(op2);
    let ts = seq![
        TokenV::Num(a),
        TokenV::Op(op1),
        TokenV::Num(b),
        TokenV::Op(op2),
        TokenV::Num(c),
    ];
    let ts1 = seq![TokenV::Op(op1), TokenV::Num(b), TokenV::Op(op2), TokenV::Num(c)];
    let ts2 = seq![TokenV::Num(b), TokenV::Op(op2), TokenV::Num(c)];
    let ts3 = seq![TokenV::Op(op2), TokenV::Num(c)];
    let ts4 = seq![TokenV::Num(c)];
    assert(ts.drop_first() =~= ts1);
    assert(ts1.drop_first() =~= ts2);
    assert(ts2.drop_first() =~= ts3);
    assert(ts3.drop_first() =~= ts4);
    assert(ts4.drop_first() =~= e0);
    let r1 = e0.push(TokenV::Num(a));
    let k1 = s0.push(t1);
    let r2 = r1.push(TokenV::Num(b));
    let k2 = k1.push(t2);
    let r3 = r2.push(TokenV::Num(c));
    assert(spec_rpn_fold(ts, e0, s0) == spec_rpn_fold(ts1, r1, s0)) by {
        reveal_with_fuel(spec_rpn_fold, 2);
    }
    assert(spec_process_operator(op1, r1, s0) == (r1, k1)) by {
        reveal_with_fuel(spec_process_operator, 2);
    }
    assert(spec_rpn_fold(ts1, r1, s0) == spec_rpn_fold(ts2, r1, k1)) by {
        reveal_with_fuel(spec_rpn_fold, 2);
    }
    assert(spec_rpn_fold(ts2, r1, k1) == spec_rpn_fold(ts3, r2, k1)) by {
        reveal_with_fuel(spec_rpn_fold, 2);
    }
    // op2 stays pending: tighter priority, or right-associative
    assert(k1.last() == t1);
    assert(spec_process_operator(op2, r2, k1) == (r2, k2)) by {
        reveal_with_fuel(spec_process_operator, 2);
    }
    assert(spec_rpn_fold(ts3, r2, k1) == spec_rpn_fold(ts4, r2, k2)) by {
        reveal_with_fuel(spec_rpn_fold, 2);
    }
    assert(spec_rpn_fold(ts4, r2, k2) == spec_rpn_fold(e0, r3, k2)) by {
        reveal_with_fuel(spec_rpn_fold, 2);
    }
    assert(k2.last() == t2 && k2.drop_last() =~= k1);
    assert(k1.last() == t1 && k1.drop_last() =~= s0);
    let rpn = r3.push(TokenV::Op(op2)).push(TokenV::Op(op1));
    assert(spec_rpn_fold(e0, r3, k2) == spec_drain(r3.push(TokenV::Op(op2)), k1)) by {
        reveal_with_fuel(spec_rpn_fold, 2);
        reveal_with_fuel(spec_drain, 2);
    }
    assert(spec_drain(r3.push(TokenV::Op(op2)), k1) == spec_drain(rpn, s0)) by {
        reveal_with_fuel(spec_drain, 2);
    }
    assert(spec_drain(rpn, s0) == Ok::<Seq<TokenV>, ParseErrV>(rpn)) by {
        reveal_with_fuel(spec_drain, 2);
    }
    lemma_fold_two_step(a, b, c, op2, op1, rpn);
}

/// The parenthesized shape `(a op1 b) op2 c`: the close parenthesis
/// reduces `op1` first, so both applications fold left to right.
proof fn lemma_parse_bracketed(a: u64, op1: Operator, b: u64, op2: Operator, c: u64)
    requires
        op1.spec_side() == Side::Left,
        op2.spec_side() == Side::Left,
    ensures
        spec_parse_tokens(
            seq![
                TokenV::Brk(Bracket::OpenBracket(OpenBracket)),
                TokenV::Num(a),
                TokenV::Op(op1),
                TokenV::Num(b),
                TokenV::Brk(Bracket::CloseBracket(CloseBracket)),
                TokenV::Op(op2),
                TokenV::Num(c),
            ],
        ) == Ok::<ExprV, ParseErrV>(ExprV::Num(apply_op(op2, apply_op(op1, a, b), c))),
{
    let e0 = Seq::<TokenV>::empty();
    let s0 = Seq::<OperatorStackToken>::empty();
    let t1 = OperatorStackToken::Operator(op1);
    let t2 = OperatorStackToken::Operator(op2);
    let mk = OperatorStackToken::OpenBracket(OpenBracket);
    let open = TokenV::Brk(Bracket::OpenBracket(OpenBracket));
    let close = TokenV::Brk(Bracket::CloseBracket(CloseBracket));
    let ts = seq![open, TokenV::Num(a), TokenV::Op(op1), TokenV::Num(b), close, TokenV::Op(op2), TokenV::Num(c)];
    let ts1 = seq![TokenV::Num(a), TokenV::Op(op1), TokenV::Num(b), close, TokenV::Op(op2), TokenV::Num(c)];
    let ts2 = seq![TokenV::Op(op1), TokenV::Num(b), close, TokenV::Op(op2), TokenV::Num(c)];
    let ts3 = seq![TokenV::Num(b), close, TokenV::Op(op2), TokenV::Num(c)];
    let ts4 = seq![close, TokenV::Op(op2), TokenV::Num(c)];
    let ts5 = seq![TokenV::Op(op2), TokenV::Num(c)];
    let ts6 = seq![TokenV::Num(c)];
    assert(ts.drop_first() =~= ts1);
    assert(ts1.drop_first() =~= ts2);
    assert(ts2.drop_first() =~= ts3);
    assert(ts3.drop_first() =~= ts4);
    assert(ts4.drop_first() =~= ts5);
    assert(ts5.drop_first() =~= ts6);
    assert(ts6.drop_first() =~= e0);
    let km = s0.push(mk);
    let km1 = km.push(t1);
    let k2 = s0.push(t2);
    let r1 = e0.push(TokenV::Num(a));
    let r2 = r1.push(TokenV::Num(b));
    let r3 = r2.push(TokenV::Op(op1));
    let r4 = r3.push(TokenV::Num(c));
    let rpn = r4.push(TokenV::Op(op2));
    assert(spec_rpn_fold(ts, e0, s0) == spec_rpn_fold(ts1, e0, km)) by {
        reveal_with_fuel(spec_rpn_fold, 2);
        reveal_with_fuel(crate::parser::spec_process_bracket, 2);
    }
    assert(spec_rpn_fold(ts1, e0, km) == spec_rpn_fold(ts2, r1, km)) by {
        reveal_with_fuel(spec_rpn_fold, 2);
    }
    assert(km.last() == mk);
    assert(spec_process_operator(op1, r1, km) == (r1, km1)) by {
        reveal_with_fuel(spec_process_operator, 2);
    }
    assert(spec_rpn_fold(ts2, r1, km) == spec_rpn_fold(ts3, r1, km1)) by {
        reveal_with_fuel(spec_rpn_fold, 2);
    }
    assert(spec_rpn_fold(ts3, r1, km1) == spec_rpn_fold(ts4, r2, km1)) by {
        reveal_with_fuel(spec_rpn_fold, 2);
    }
    // the close parenthesis moves op1 out and discards the marker
    assert(km1.last() == t1 && km1.drop_last() =~= km);
    assert(km.drop_last() =~= s0);
    assert(crate::parser::spec_process_bracket(
        Bracket::CloseBracket(CloseBracket),
        r2,
        km1,
    ) == Ok::<(Seq<TokenV>, Seq<OperatorStackToken>), ParseErrV>((r3, s0))) by {
        reveal_with_fuel(crate::parser::spec_process_bracket, 3);
    }
    assert(spec_rpn_fold(ts4, r2, km1) == spec_rpn_fold(ts5, r3, s0)) by {
        reveal_with_fuel(spec_rpn_fold, 2);
    }
    assert(spec_process_operator(op2, r3, s0) == (r3, k2)) by {
        reveal_with_fuel(spec_process_operator, 2);
    }
    assert(spec_rpn_fold(ts5, r3, s0) == spec_rpn_fold(ts6, r3, k2)) by {
        reveal_with_fuel(spec_rpn_fold, 2);
    }
    assert(spec_rpn_fold(ts6, r3, k2) == spec_rpn_fold(e0, r4, k2)) by {
        reveal_with_fuel(spec_rpn_fold, 2);
    }
    assert(k2.last() == t2 && k2.drop_last() =~= s0);
    assert(spec_rpn_fold(e0, r4, k2) == spec_drain(rpn, s0)) by {
        reveal_with_fuel(spec_rpn_fold, 2);
        reveal_with_fuel(spec_drain, 2);
    }
    assert(spec_drain(rpn, s0) == Ok::<Seq<TokenV>, ParseErrV>(rpn)) by {
        reveal_with_fuel(spec_drain, 2);
    }
    lemma_fold_mid_step(a, b, op1, c, op2, rpn);
}

/// Reducing `a b c op2 op1`: the inner application folds first, then
/// the outer, leaving one number leaf.
proof fn lemma_fold_two_step(a: u64, b: u64, c: u64, op2: Operator, op1: Operator, rpn: Seq<TokenV>)
    requires
        rpn =~= seq![
            TokenV::Num(a),
            TokenV::Num(b),
            TokenV::Num(c),
            TokenV::Op(op2),
            TokenV::Op(op1),
        ],
    ensures
        spec_compress(rpn) == Ok::<ExprV, ParseErrV>(
            ExprV::Num(apply_op(op1, a, apply_op(op2, b, c))),
        ),
{
    let e0 = Seq::<TokenV>::empty();
    let st0 = Seq::<ExprV>::empty();
    let la = ExprV::Num(a);
    let lb = ExprV::Num(b);
    let lc = ExprV::Num(c);
    let inner = ExprV::Num(apply_op(op2, b, c));
    let outer = ExprV::Num(apply_op(op1, a, apply_op(op2, b, c)));
    let r1 = seq![TokenV::Num(b), TokenV::Num(c), TokenV::Op(op2), TokenV::Op(op1)];
    let r2 = seq![TokenV::Num(c), TokenV::Op(op2), TokenV::Op(op1)];
    let r3 = seq![TokenV::Op(op2), TokenV::Op(op1)];
    let r4 = seq![TokenV::Op(op1)];
    assert(rpn.drop_first() =~= r1);
    assert(r1.drop_first() =~= r2);
    assert(r2.drop_first() =~= r3);
    assert(r3.drop_first() =~= r4);
    assert(r4.drop_first() =~= e0);
    let st1 = st0.push(la);
    let st2 = st1.push(lb);
    let st3 = st2.push(lc);
    assert(spec_compress_fold(rpn, st0) == spec_compress_fold(r1, st1)) by {
        reveal_with_fuel(spec_compress_fold, 2);
    }
    assert(spec_compress_fold(r1, st1) == spec_compress_fold(r2, st2)) by {
        reveal_with_fuel(spec_compress_fold, 2);
    }
    assert(spec_compress_fold(r2, st2) == spec_compress_fold(r3, st3)) by {
        reveal_with_fuel(spec_compress_fold, 2);
    }
    let e2 = ExprV::Op(op2, Box::new(lb), Box::new(lc));
    assert(st3.len() == 3 && st3.last() == lc && st3.drop_last() =~= st2);
    assert(st2.last() == lb && st2.drop_last() =~= st1);
    lemma_fold_leaf_op(lb, lc, op2, st1);
    assert(spec_push_formula(st1, e2) =~= st1.push(inner));
    assert(spec_compress_fold(r3, st3) == spec_compress_fold(r4, st1.push(inner))) by {
        reveal_with_fuel(spec_compress_fold, 2);
    }
    let e1 = ExprV::Op(op1, Box::new(la), Box::new(inner));
    assert(st1.push(inner).len() == 2 && st1.push(inner).last() == inner);
    assert(st1.push(inner).drop_last() =~= st1);
    assert(st1.last() == la && st1.drop_last() =~= st0);
    lemma_fold_leaf_op(la, inner, op1, st0);
    assert(spec_push_formula(st0, e1) =~= st0.push(outer));
    assert(spec_compress_fold(r4, st1.push(inner)) == spec_compress_fold(
        e0,
        st0.push(outer),
    )) by {
        reveal_with_fuel(spec_compress_fold, 2);
    }
    assert(spec_compress_fold(e0, st0.push(outer)) == Ok::<Seq<ExprV>, ParseErrV>(
        st0.push(outer),
    )) by {
        reveal_with_fuel(spec_compress_fold, 2);
    }
    assert(st0.push(outer).len() == 1 && st0.push(outer)[0] == outer);
}

/// Reducing `a b op1 c op2`: the left application folds first, then the
/// outer, leaving one number leaf.
proof fn lemma_fold_mid_step(a: u64, b: u64, op1: Operator, c: u64, op2: Operator, rpn: Seq<TokenV>)
    requires
        rpn =~= seq![
            TokenV::Num(a),
            TokenV::Num(b),
            TokenV::Op(op1),
            TokenV::Num(c),
            TokenV::Op(op2),
        ],
    ensures
        spec_compress(rpn) == Ok::<ExprV, ParseErrV>(
            ExprV::Num(apply_op(op2, apply_op(op1, a, b), c)),
        ),
{
    let e0 = Seq::<TokenV>::empty();
    let st0 = Seq::<ExprV>::empty();
    let la = ExprV::Num(a);
    let lb = ExprV::Num(b);
    let lc = ExprV::Num(c);
    let inner = ExprV::Num(apply_op(op1, a, b));
    let outer = ExprV::Num(apply_op(op2, apply_op(op1, a, b), c));
    let r1 = seq![TokenV::Num(b), TokenV::Op(op1), TokenV::Num(c), TokenV::Op(op2)];
    let r2 = seq![TokenV::Op(op1), TokenV::Num(c), TokenV::Op(op2)];
    let r3 = seq![TokenV::Num(c), TokenV::Op(op2)];
    let r4 = seq![TokenV::Op(op2)];
    assert(rpn.drop_first() =~= r1);
    assert(r1.drop_first() =~= r2);
    assert(r2.drop_first() =~= r3);
    assert(r3.drop_first() =~= r4);
    assert(r4.drop_first() =~= e0);
    let st1 = st0.push(la);
    let st2 = st1.push(lb);
    assert(spec_compress_fold(rpn, st0) == spec_compress_fold(r1, st1)) by {
        reveal_with_fuel(spec_compress_fold, 2);
    }
    assert(spec_compress_fold(r1, st1) == spec_compress_fold(r2, st2)) by {
        reveal_with_fuel(spec_compress_fold, 2);
    }
    let e1 = ExprV::Op(op1, Box::new(la), Box::new(lb));
    assert(st2.len() == 2 && st2.last() == lb && st2.drop_last() =~= st1);
    assert(st1.last() == la && st1.drop_last() =~= st0);
    lemma_fold_leaf_op(la, lb, op1, st0);
    assert(spec_push_formula(st0, e1) =~= st0.push(inner));
    assert(spec_compress_fold(r2, st2) == spec_compress_fold(r3, st0.push(inner))) by {
        reveal_with_fuel(spec_compress_fold, 2);
    }
    let sti = st0.push(inner);
    let stic = sti.push(lc);
    assert(spec_compress_fold(r3, sti) == spec_compress_fold(r4, stic)) by {
        reveal_with_fuel(spec_compress_fold, 2);
    }
    let e2 = ExprV::Op(op2, Box::new(inner), Box::new(lc));
    assert(stic.len() == 2 && stic.last() == lc && stic.drop_last() =~= sti);
    assert(sti.last() == inner && sti.drop_last() =~= st0);
    lemma_fold_leaf_op(inner, lc, op2, st0);
    assert(spec_push_formula(st0, e2) =~= st0.push(outer));
    assert(spec_compress_fold(r4, stic) == spec_compress_fold(e0, st0.push(outer))) by {
        reveal_with_fuel(spec_compress_fold, 2);
    }
    assert(spec_compress_fold(e0, st0.push(outer)) == Ok::<Seq<ExprV>, ParseErrV>(
        st0.push(outer),
    )) by {
        reveal_with_fuel(spec_compress_fold, 2);
    }
    assert(st0.push(outer).len() == 1 && st0.push(outer)[0] == outer);
}

/// Pushing an application of two number leaves folds it to one leaf.
proof fn lemma_fold_leaf_op(l: ExprV, r: ExprV, op: Operator, stack: Seq<ExprV>)
    requires
        l is Num,
        r is Num,
    ensures
        spec_push_formula(stack, ExprV::Op(op, Box::new(l), Box::new(r))) == stack.push(
            ExprV::Num(apply_op(op, l->Num_0, r->Num_0)),
        ),
{
    let e = ExprV::Op(op, Box::new(l), Box::new(r));
    assert(is_const_expr(e)) by {
        reveal_with_fuel(is_const_expr, 2);
    }
    assert(eval_const(e) == apply_op(op, l->Num_0, r->Num_0)) by {
        reveal_with_fuel(eval_const, 2);
    }
}

} // verus!
