//! From a token sequence to a formula tree: reverse Polish notation by
//! the shunting-yard pass, then reduction with eager constant folding.

use vstd::prelude::*;

use vstd::string::StringExecFns;

use crate::expr::{collapse_expr, eval_const, is_const_expr, lemma_const_eval, ExprV};
use crate::formulas::{
    rf_view, rf_views, rf_views_index, ArgumentsError, FormulaArgument, FunctionNode, MathError,
    OperatorFormula, ParenthesisError, ParseErrV, ParserError, RootFormula,
};
use crate::tokens::{Bracket, CloseBracket, OpenBracket, Operator, Side};
use crate::variable_stores::{EmptyVariableStore, Variable};

verus! {

/// A number or a variable, as the lexer hands it to the parser.
#[derive(Debug)]
pub enum NumberLike {
    /// A number, as binary64 bits.
    Number(u64),
    /// A variable name.
    Variable(Variable),
}

/// One token of a lexed expression.
#[derive(Debug)]
pub enum BaseToken {
    /// A number or a variable.
    NumberLike(NumberLike),
    /// An infix operator.
    Operator(Operator),
    /// A parenthesis.
    Bracket(Bracket),
    /// A function call the lexer has already parsed into a subtree.
    Formula(FunctionNode),
}

/// The shape of a token, as contracts see it.
pub enum TokenV {
    /// A number, as binary64 bits.
    Num(u64),
    /// A variable name.
    Var(Seq<char>),
    /// An infix operator.
    Op(Operator),
    /// A parenthesis.
    Brk(Bracket),
    /// An already-parsed function call.
    Formula(ExprV),
}

impl View for BaseToken {
    type V = TokenV;

    open spec fn view(&self) -> TokenV {
        match self {
            BaseToken::NumberLike(NumberLike::Number(b)) => TokenV::Num(*b),
            BaseToken::NumberLike(NumberLike::Variable(v)) => TokenV::Var(v@),
            BaseToken::Operator(op) => TokenV::Op(*op),
            BaseToken::Bracket(b) => TokenV::Brk(*b),
            BaseToken::Formula(n) => TokenV::Formula(n@),
        }
    }
}

/// The views of a list of tokens, in order.
pub open spec fn tvs(ts: Seq<BaseToken>) -> Seq<TokenV>
    decreases ts,
{
    if ts.len() == 0 {
        Seq::empty()
    } else {
        seq![ts.first()@] + tvs(ts.drop_first())
    }
}

/// A list of tokens views into as many token views.
pub proof fn lemma_tvs_len(ts: Seq<BaseToken>)
    ensures
        tvs(ts).len() == ts.len(),
    decreases ts.len(),
{
    if ts.len() > 0 {
        lemma_tvs_len(ts.drop_first());
    }
}

/// The view of a list of tokens is the list of their views.
pub proof fn lemma_tvs_index(ts: Seq<BaseToken>, i: int)
    requires
        0 <= i < ts.len(),
    ensures
        tvs(ts).len() == ts.len(),
        tvs(ts)[i] == ts[i]@,
    decreases ts.len(),
{
    lemma_tvs_len(ts);
    if i > 0 {
        lemma_tvs_index(ts.drop_first(), i - 1);
        assert(ts.drop_first()[i - 1] == ts[i]);
    }
}

/// Appending a token appends its view.
pub proof fn lemma_tvs_push(ts: Seq<BaseToken>, t: BaseToken)
    ensures
        tvs(ts.push(t)) == tvs(ts).push(t@),
    decreases ts.len(),
{
    if ts.len() == 0 {
        assert(ts.push(t).first() == t);
        assert(ts.push(t).drop_first() =~= Seq::<BaseToken>::empty());
        assert(tvs(Seq::<BaseToken>::empty()) =~= Seq::<TokenV>::empty());
        assert(tvs(ts.push(t)) =~= tvs(ts).push(t@));
    } else {
        assert(ts.push(t).drop_first() =~= ts.drop_first().push(t));
        assert(ts.push(t).first() == ts.first());
        lemma_tvs_push(ts.drop_first(), t);
        assert(tvs(ts.push(t)) =~= tvs(ts).push(t@));
    }
}

/// What sits on the operator stack of the shunting-yard pass: an
/// operator, or the marker of an open parenthesis.
#[derive(Debug, PartialEq, Eq, Structural, Clone, Copy)]
pub enum OperatorStackToken {
    /// A pending operator.
    Operator(Operator),
    /// An open parenthesis awaiting its close.
    OpenBracket(OpenBracket),
}

/// The shunting-yard step for a left-associative operator: pending
/// operators of equal or tighter priority move to the output first;
/// a right-associative operator rests on the stack at once.
pub open spec fn spec_process_operator(
    op: Operator,
    rpn: Seq<TokenV>,
    stack: Seq<OperatorStackToken>,
) -> (Seq<TokenV>, Seq<OperatorStackToken>)
    decreases stack,
{
    if op.spec_side() == Side::Right || stack.len() == 0 {
        (rpn, stack.push(OperatorStackToken::Operator(op)))
    } else {
        match stack.last() {
            OperatorStackToken::Operator(o) => if op.spec_priority() >= o.spec_priority() {
                spec_process_operator(op, rpn.push(TokenV::Op(o)), stack.drop_last())
            } else {
                (rpn, stack.push(OperatorStackToken::Operator(op)))
            },
            OperatorStackToken::OpenBracket(_) => (
                rpn,
                stack.push(OperatorStackToken::Operator(op)),
            ),
        }
    }
}

/// The shunting-yard step for a parenthesis: an open one rests on the
/// stack; a close one moves pending operators to the output until the
/// matching marker, and fails if none is on the stack.
pub open spec fn spec_process_bracket(
    b: Bracket,
    rpn: Seq<TokenV>,
    stack: Seq<OperatorStackToken>,
) -> Result<(Seq<TokenV>, Seq<OperatorStackToken>), ParseErrV>
    decreases stack,
{
    match b {
        Bracket::OpenBracket(_) => Ok(
            (rpn, stack.push(OperatorStackToken::OpenBracket(OpenBracket))),
        ),
        Bracket::CloseBracket(_) => {
            if stack.len() == 0 {
                Err(ParseErrV::Paren)
            } else {
                match stack.last() {
                    OperatorStackToken::OpenBracket(_) => Ok((rpn, stack.drop_last())),
                    OperatorStackToken::Operator(o) => spec_process_bracket(
                        b,
                        rpn.push(TokenV::Op(o)),
                        stack.drop_last(),
                    ),
                }
            }
        },
    }
}

/// The end of the shunting-yard pass: pending operators move to the
/// output; an open parenthesis still on the stack fails.
pub open spec fn spec_drain(rpn: Seq<TokenV>, stack: Seq<OperatorStackToken>) -> Result<
    Seq<TokenV>,
    ParseErrV,
>
    decreases stack,
{
    if stack.len() == 0 {
        Ok(rpn)
    } else {
        match stack.last() {
            OperatorStackToken::Operator(o) => spec_drain(rpn.push(TokenV::Op(o)), stack.drop_last()),
            OperatorStackToken::OpenBracket(_) => Err(ParseErrV::Paren),
        }
    }
}

/// The whole shunting-yard pass over the remaining tokens.
pub open spec fn spec_rpn_fold(
    ts: Seq<TokenV>,
    rpn: Seq<TokenV>,
    stack: Seq<OperatorStackToken>,
) -> Result<Seq<TokenV>, ParseErrV>
    decreases ts,
{
    if ts.len() == 0 {
        spec_drain(rpn, stack)
    } else {
        match ts.first() {
            TokenV::Num(b) => spec_rpn_fold(ts.drop_first(), rpn.push(TokenV::Num(b)), stack),
            TokenV::Var(n) => spec_rpn_fold(ts.drop_first(), rpn.push(TokenV::Var(n)), stack),
            TokenV::Formula(e) => spec_rpn_fold(
                ts.drop_first(),
                rpn.push(TokenV::Formula(e)),
                stack,
            ),
            TokenV::Op(op) => {
                let (rpn2, stack2) = spec_process_operator(op, rpn, stack);
                spec_rpn_fold(ts.drop_first(), rpn2, stack2)
            },
            TokenV::Brk(b) => match spec_process_bracket(b, rpn, stack) {
                Ok((rpn2, stack2)) => spec_rpn_fold(ts.drop_first(), rpn2, stack2),
                Err(e) => Err(e),
            },
        }
    }
}

/// The token sequence in reverse Polish order, or a parenthesis error.
pub open spec fn spec_build_rpn(ts: Seq<TokenV>) -> Result<Seq<TokenV>, ParseErrV> {
    spec_rpn_fold(ts, Seq::empty(), Seq::empty())
}

/// Pushing a freshly built subtree onto the reduction stack folds it:
/// a constant subtree becomes a number leaf, any other has its constant
/// descendants folded.
pub open spec fn spec_push_formula(stack: Seq<ExprV>, e: ExprV) -> Seq<ExprV> {
    if is_const_expr(e) {
        stack.push(ExprV::Num(eval_const(e)))
    } else {
        stack.push(collapse_expr(e))
    }
}

/// The reduction of a reverse-Polish token sequence into subtrees:
/// leaves are pushed, an operator combines the two most recent
/// subtrees, and every fresh subtree is constant-folded at once.
pub open spec fn spec_compress_fold(ts: Seq<TokenV>, stack: Seq<ExprV>) -> Result<
    Seq<ExprV>,
    ParseErrV,
>
    decreases ts,
{
    if ts.len() == 0 {
        Ok(stack)
    } else {
        match ts.first() {
            TokenV::Num(b) => spec_compress_fold(ts.drop_first(), stack.push(ExprV::Num(b))),
            TokenV::Var(n) => spec_compress_fold(ts.drop_first(), stack.push(ExprV::Var(n))),
            TokenV::Formula(e) => spec_compress_fold(ts.drop_first(), spec_push_formula(stack, e)),
            TokenV::Op(op) => if stack.len() < 2 {
                Err(ParseErrV::Args(op.spec_name()))
            } else {
                let second = stack.last();
                let first = stack.drop_last().last();
                let e = ExprV::Op(op, Box::new(first), Box::new(second));
                spec_compress_fold(
                    ts.drop_first(),
                    spec_push_formula(stack.drop_last().drop_last(), e),
                )
            },
            TokenV::Brk(_) => Err(ParseErrV::Paren),
        }
    }
}

/// The tree a reverse-Polish token sequence reduces to: exactly one
/// subtree must remain once every token is consumed.
pub open spec fn spec_compress(rpn: Seq<TokenV>) -> Result<ExprV, ParseErrV> {
    match spec_compress_fold(rpn, Seq::empty()) {
        Err(e) => Err(e),
        Ok(stack) => if stack.len() == 1 {
            Ok(stack[0])
        } else {
            Err(ParseErrV::Args("no operator"@))
        },
    }
}

/// What a lexed token sequence parses to: reverse Polish order, then
/// reduction with eager constant folding.
pub open spec fn spec_parse_tokens(ts: Seq<TokenV>) -> Result<ExprV, ParseErrV> {
    match spec_build_rpn(ts) {
        Err(e) => Err(e),
        Ok(rpn) => spec_compress(rpn),
    }
}

/// Moves pending operators of equal or tighter priority to the output,
/// then rests the operator on the stack; a right-associative operator
/// rests there at once, so that equal priorities associate rightward.
#[verifier::loop_isolation(false)]
pub fn process_operator(
    op: Operator,
    rpn: &mut Vec<BaseToken>,
    stack: &mut Vec<OperatorStackToken>,
)
    ensures
        (tvs(final(rpn)@), final(stack)@) == spec_process_operator(
            op,
            tvs(old(rpn)@),
            old(stack)@,
        ),
{
    if op.side() == Side::Right {
        stack.push(OperatorStackToken::Operator(op));
        return ;
    }
    loop
        invariant
            op.spec_side() == Side::Left,
            spec_process_operator(op, tvs(old(rpn)@), old(stack)@) == spec_process_operator(
                op,
                tvs(rpn@),
                stack@,
            ),
        decreases stack@.len(),
    {
        let l = stack.len();
        if l == 0 {
            stack.push(OperatorStackToken::Operator(op));
            return ;
        }
        let top = stack[l - 1];
        proof {
            assert(stack@.last() == top);
        }
        match top {
            OperatorStackToken::Operator(o) => {
                if op.priority() >= o.priority() {
                    proof {
                        lemma_tvs_push(rpn@, BaseToken::Operator(o));
                    }
                    let _ = stack.pop();
                    rpn.push(BaseToken::Operator(o));
                } else {
                    stack.push(OperatorStackToken::Operator(op));
                    return ;
                }
            },
            OperatorStackToken::OpenBracket(_) => {
                stack.push(OperatorStackToken::Operator(op));
                return ;
            },
        }
    }
}

/// Rests an open parenthesis on the stack; a close one moves pending
/// operators to the output until the matching marker, and fails with a
/// parenthesis error when no marker is on the stack.
#[verifier::loop_isolation(false)]
pub fn process_bracket(
    bra: Bracket,
    rpn: &mut Vec<BaseToken>,
    stack: &mut Vec<OperatorStackToken>,
) -> (r: Result<(), ParenthesisError>)
    ensures
        match r {
            Ok(_) => spec_process_bracket(bra, tvs(old(rpn)@), old(stack)@) == Ok::<
                (Seq<TokenV>, Seq<OperatorStackToken>),
                ParseErrV,
            >((tvs(final(rpn)@), final(stack)@)),
            Err(_) => spec_process_bracket(bra, tvs(old(rpn)@), old(stack)@) == Err::<
                (Seq<TokenV>, Seq<OperatorStackToken>),
                ParseErrV,
            >(ParseErrV::Paren),
        },
{
    match bra {
        Bracket::OpenBracket(_) => {
            stack.push(OperatorStackToken::OpenBracket(OpenBracket));
            Ok(())
        },
        Bracket::CloseBracket(_) => {
            loop
                invariant
                    spec_process_bracket(bra, tvs(old(rpn)@), old(stack)@) == spec_process_bracket(
                        bra,
                        tvs(rpn@),
                        stack@,
                    ),
                    bra is CloseBracket,
                decreases stack@.len(),
            {
                let l = stack.len();
                if l == 0 {
                    return Err(ParenthesisError);
                }
                let top = stack[l - 1];
                match top {
                    OperatorStackToken::Operator(o) => {
                        proof {
                            assert(stack@.last() == top);
                            lemma_tvs_push(rpn@, BaseToken::Operator(o));
                        }
                        let _ = stack.pop();
                        rpn.push(BaseToken::Operator(o));
                    },
                    OperatorStackToken::OpenBracket(_) => {
                        proof {
                            assert(stack@.last() == top);
                        }
                        let _ = stack.pop();
                        return Ok(());
                    },
                }
            }
        },
    }
}

/// Rearranges an infix token sequence into reverse Polish order by the
/// shunting-yard pass, or fails with a parenthesis error on an
/// unmatched parenthesis.
#[verifier::loop_isolation(false)]
pub fn build_rpn(tokens: Vec<BaseToken>) -> (r: Result<Vec<BaseToken>, ParenthesisError>)
    ensures
        match r {
            Ok(v) => spec_build_rpn(tvs(tokens@)) == Ok::<Seq<TokenV>, ParseErrV>(tvs(v@)),
            Err(_) => spec_build_rpn(tvs(tokens@)) == Err::<Seq<TokenV>, ParseErrV>(
                ParseErrV::Paren,
            ),
        },
{
    let ghost orig = tvs(tokens@);
    let mut toks = tokens;
    let mut rpn: Vec<BaseToken> = Vec::new();
    let mut stack: Vec<OperatorStackToken> = Vec::new();
    proof {
        lemma_tvs_len(toks@);
        assert(tvs(rpn@) =~= Seq::<TokenV>::empty());
    }
    while toks.len() > 0
        invariant
            spec_rpn_fold(orig, Seq::empty(), Seq::empty()) == spec_rpn_fold(
                tvs(toks@),
                tvs(rpn@),
                stack@,
            ),
        decreases toks@.len(),
    {
        proof {
            lemma_tvs_len(toks@);
        }
        let ghost prev = toks@;
        let t = toks.remove(0);
        proof {
            assert(prev.first() == t);
            assert(prev.drop_first() =~= prev.remove(0));
            assert(tvs(prev).first() == t@);
            assert(tvs(prev).drop_first() =~= tvs(toks@));
        }
        match t {
            BaseToken::NumberLike(nl) => {
                let tok = BaseToken::NumberLike(nl);
                proof {
                    lemma_tvs_push(rpn@, tok);
                }
                rpn.push(tok);
            },
            BaseToken::Formula(n) => {
                let tok = BaseToken::Formula(n);
                proof {
                    lemma_tvs_push(rpn@, tok);
                }
                rpn.push(tok);
            },
            BaseToken::Operator(op) => {
                process_operator(op, &mut rpn, &mut stack);
            },
            BaseToken::Bracket(b) => {
                let pr = process_bracket(b, &mut rpn, &mut stack);
                if let Err(e) = pr {
                    return Err(e);
                }
            },
        }
    }
    proof {
        lemma_tvs_len(toks@);
        assert(tvs(toks@) =~= Seq::<TokenV>::empty());
    }
    while stack.len() > 0
        invariant
            spec_rpn_fold(orig, Seq::empty(), Seq::empty()) == spec_drain(tvs(rpn@), stack@),
        decreases stack@.len(),
    {
        let l = stack.len();
        let top = stack[l - 1];
        match top {
            OperatorStackToken::Operator(o) => {
                proof {
                    assert(stack@.last() == top);
                    lemma_tvs_push(rpn@, BaseToken::Operator(o));
                }
                let _ = stack.pop();
                rpn.push(BaseToken::Operator(o));
            },
            OperatorStackToken::OpenBracket(_) => {
                proof {
                    assert(stack@.last() == top);
                }
                return Err(ParenthesisError);
            },
        }
    }
    Ok(rpn)
}

/// Folds a freshly built function node and pushes it: a constant node
/// is evaluated to a number leaf at once, any other has its constant
/// descendants folded.  The error channel is part of the protocol; no
/// built-in ever fills it.
pub fn push_formula(rpn: &mut Vec<RootFormula>, formula: FunctionNode) -> (r: Result<
    (),
    MathError,
>)
    ensures
        r is Ok,
        rf_views(final(rpn)@) == spec_push_formula(rf_views(old(rpn)@), formula@),
{
    if formula.is_const_rec() {
        proof {
            lemma_const_eval(formula@, Map::empty(), 0);
        }
        let v = formula.eval_rec(&EmptyVariableStore, Ghost(0nat));
        match v {
            Ok(b) => {
                let leaf = RootFormula::new(FormulaArgument::Number(b));
                proof {
                    crate::formulas::lemma_rf_views_push(rpn@, leaf);
                }
                rpn.push(leaf);
                Ok(())
            },
            Err(e) => {
                proof {
                    assert(false);
                }
                match e {
                    crate::formulas::EvaluationError::MathError(m) => Err(m),
                    crate::formulas::EvaluationError::NoVariableError(_) => Ok(()),
                }
            },
        }
    } else {
        let mut formula = formula;
        let cr = formula.collapse_inner();
        let wrapped = RootFormula::new(FormulaArgument::OwnedFunction(Box::new(formula)));
        proof {
            crate::formulas::lemma_rf_views_push(rpn@, wrapped);
        }
        rpn.push(wrapped);
        Ok(())
    }
}

/// Reduces a reverse-Polish token sequence into a single tree node,
/// folding constants eagerly; fails with an arguments error naming the
/// operator that is short of an operand, or `no operator` when more
/// than one subtree remains.
#[verifier::loop_isolation(false)]
pub fn compress_rpn(rpn: Vec<BaseToken>) -> (r: Result<FormulaArgument, ParserError>)
    ensures
        match r {
            Ok(fa) => spec_compress(tvs(rpn@)) == Ok::<ExprV, ParseErrV>(fa@),
            Err(e) => spec_compress(tvs(rpn@)) == Err::<ExprV, ParseErrV>(e@),
        },
{
    let ghost orig = tvs(rpn@);
    let mut toks = rpn;
    let mut stack: Vec<RootFormula> = Vec::new();
    proof {
        assert(rf_views(stack@) =~= Seq::<ExprV>::empty());
    }
    while toks.len() > 0
        invariant
            spec_compress_fold(orig, Seq::empty()) == spec_compress_fold(
                tvs(toks@),
                rf_views(stack@),
            ),
        decreases toks@.len(),
    {
        proof {
            lemma_tvs_len(toks@);
        }
        let ghost prev = toks@;
        let t = toks.remove(0);
        proof {
            assert(prev.first() == t);
            assert(prev.drop_first() =~= prev.remove(0));
            assert(tvs(prev).first() == t@);
            assert(tvs(prev).drop_first() =~= tvs(toks@));
        }
        match t {
            BaseToken::NumberLike(NumberLike::Number(b)) => {
                let leaf = RootFormula::new(FormulaArgument::Number(b));
                proof {
                    crate::formulas::lemma_rf_views_push(stack@, leaf);
                }
                stack.push(leaf);
            },
            BaseToken::NumberLike(NumberLike::Variable(v)) => {
                let leaf = RootFormula::new(FormulaArgument::Variable(v));
                proof {
                    crate::formulas::lemma_rf_views_push(stack@, leaf);
                }
                stack.push(leaf);
            },
            BaseToken::Formula(n) => {
                let pr = push_formula(&mut stack, n);
                if let Err(m) = pr {
                    proof {
                        assert(false);
                    }
                    return Err(ParserError::EvaluationError(
                        crate::formulas::EvaluationError::MathError(m),
                    ));
                }
            },
            BaseToken::Operator(op) => {
                proof {
                    crate::formulas::lemma_rf_views_len(stack@);
                }
                if stack.len() < 2 {
                    return Err(ParserError::ArgumentsError(ArgumentsError(
                        String::from_str(op.as_str()),
                    )));
                }
                let ghost s0 = stack@;
                let second = stack.pop().unwrap();
                let first = stack.pop().unwrap();
                proof {
                    assert(second == s0.last());
                    assert(s0.drop_last() == stack@.push(first));
                    assert(first == s0.drop_last().last());
                    assert(stack@ =~= s0.drop_last().drop_last());
                    crate::formulas::lemma_rf_views_drop_last(s0);
                    crate::formulas::lemma_rf_views_drop_last(s0.drop_last());
                    rf_views_index(s0, s0.len() - 1);
                    rf_views_index(s0.drop_last(), s0.len() - 2);
                    assert(s0.drop_last()[s0.len() - 2] == first);
                }
                let node = FunctionNode::Operator(OperatorFormula {
                    first,
                    second,
                    operator: op,
                });
                let pr = push_formula(&mut stack, node);
                if let Err(m) = pr {
                    proof {
                        assert(false);
                    }
                    return Err(ParserError::EvaluationError(
                        crate::formulas::EvaluationError::MathError(m),
                    ));
                }
            },
            BaseToken::Bracket(_) => {
                return Err(ParserError::ParenthesisError(ParenthesisError));
            },
        }
    }
    proof {
        lemma_tvs_len(toks@);
        assert(tvs(toks@) =~= Seq::<TokenV>::empty());
        crate::formulas::lemma_rf_views_len(stack@);
    }
    if stack.len() == 1 {
        let ghost s0 = stack@;
        let f = stack.pop().unwrap();
        proof {
            assert(f == s0[0]);
            rf_views_index(s0, 0);
        }
        Ok(f.tree)
    } else {
        Err(ParserError::ArgumentsError(ArgumentsError(String::from_str("no operator"))))
    }
}

/// Turns a lexed token sequence into a tree node: reverse Polish order,
/// then reduction with eager constant folding.
pub fn parse_tokens(tokens: Vec<BaseToken>) -> (r: Result<FormulaArgument, ParserError>)
    ensures
        match r {
            Ok(fa) => spec_parse_tokens(tvs(tokens@)) == Ok::<ExprV, ParseErrV>(fa@),
            Err(e) => spec_parse_tokens(tvs(tokens@)) == Err::<ExprV, ParseErrV>(e@),
        },
{
    match build_rpn(tokens) {
        Err(e) => Err(ParserError::ParenthesisError(e)),
        Ok(rpn) => compress_rpn(rpn),
    }
}

} // verus!
