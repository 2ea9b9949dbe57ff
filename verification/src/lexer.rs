//! From text to tokens: the lexer, and the recursive parse of the
//! arguments of a recognized function call.
//!
//! The lexer repeatedly tries, in a fixed order — parenthesis, number,
//! operator, registered function call, variable name — to consume a
//! token from the remaining input, skipping spaces between attempts,
//! and stops when a whole pass makes no progress.  Input left over then
//! is an unknown-token error.

use vstd::prelude::*;

use vstd::string::StrSliceExecFns;
use vstd::string::StringExecFns;

use crate::expr::ExprV;
use crate::formulas::{
    ArgumentsError, FunctionNode, Min, ParseErrV, ParserError, RootFormula, Sin, UnaryFunction,
    UnknownTokenError,
};
use crate::function_stores::{FunctionKind, GetFunction};
use crate::numeric::{bits_of_decimal, compute_alphabetic, is_alphabetic_char};
use crate::formulas::rf_view;
use crate::parser::{
    lemma_tvs_push, parse_tokens, spec_parse_tokens, tvs, BaseToken, NumberLike, TokenV,
};
use crate::tokens::{spec_bracket, spec_operator, Bracket, Operator};
use crate::variable_stores::Variable;

verus! {

// ---------------------------------------------------------------------
// The grammar, one spec function per recognizer
// ---------------------------------------------------------------------

/// The first position at or after `p` that does not hold a space.
pub open spec fn spec_skip_spaces(s: Seq<char>, p: int) -> int
    decreases s.len() - p,
{
    if 0 <= p < s.len() && s[p] == ' ' {
        spec_skip_spaces(s, p + 1)
    } else {
        p
    }
}

/// A parenthesis at `p`, and the position after it.
pub open spec fn spec_lex_parenthesis(s: Seq<char>, p: int) -> Option<(Bracket, int)> {
    if 0 <= p < s.len() && spec_bracket(s[p]) is Some {
        Some((spec_bracket(s[p]).unwrap(), p + 1))
    } else {
        None
    }
}

/// An operator character at `p`, and the position after it.
pub open spec fn spec_lex_operator(s: Seq<char>, p: int) -> Option<(Operator, int)> {
    if 0 <= p < s.len() && spec_operator(s[p]) is Some {
        Some((spec_operator(s[p]).unwrap(), p + 1))
    } else {
        None
    }
}

/// Whether a character is a decimal digit.
pub open spec fn spec_is_digit(c: char) -> bool {
    '0' <= c && c <= '9'
}

/// Whether a character can start or continue a variable name: any
/// alphabetic character, as std classifies them.
pub open spec fn spec_is_letter(c: char) -> bool {
    is_alphabetic_char(c)
}

/// The scan over a number's digits from `i`: the end of the number and
/// whether a digit was seen, or nothing when a dot comes before any
/// digit.  A second dot ends the number without being consumed.
pub open spec fn spec_scan_number(s: Seq<char>, i: int, seen_digit: bool, seen_dot: bool) -> Option<
    (int, bool),
>
    decreases s.len() - i,
{
    if !(0 <= i < s.len()) {
        Some((if i < 0 { i } else { s.len() as int }, seen_digit))
    } else if spec_is_digit(s[i]) {
        spec_scan_number(s, i + 1, true, seen_dot)
    } else if s[i] == '.' {
        if seen_dot {
            Some((i, seen_digit))
        } else if !seen_digit {
            None
        } else {
            spec_scan_number(s, i + 1, seen_digit, true)
        }
    } else {
        Some((i, seen_digit))
    }
}

/// A number literal at `p` — an optional leading minus sign, digits and
/// at most one dot, with at least one digit — as the bits of the
/// binary64 value its characters spell, and the position after it.
pub open spec fn spec_lex_number(s: Seq<char>, p: int) -> Option<(u64, int)> {
    if !(0 <= p < s.len()) {
        None
    } else if s[p] == '.' {
        None
    } else {
        let start = if s[p] == '-' {
            p + 1
        } else {
            p
        };
        match spec_scan_number(s, start, false, false) {
            None => None,
            Some((end, seen_digit)) => if seen_digit {
                Some((bits_of_decimal(s.subrange(p, end)), end))
            } else {
                None
            },
        }
    }
}

/// The end of the run of letters from `i`.
pub open spec fn spec_letters_end(s: Seq<char>, i: int) -> int
    decreases s.len() - i,
{
    if 0 <= i < s.len() && spec_is_letter(s[i]) {
        spec_letters_end(s, i + 1)
    } else {
        i
    }
}

/// The end of the run of digits from `i`.
pub open spec fn spec_digits_end(s: Seq<char>, i: int) -> int
    decreases s.len() - i,
{
    if 0 <= i < s.len() && spec_is_digit(s[i]) {
        spec_digits_end(s, i + 1)
    } else {
        i
    }
}

/// A variable name at `p` — one or more letters, then zero or more
/// digits — and the position after it.
pub open spec fn spec_lex_variable(s: Seq<char>, p: int) -> Option<(Seq<char>, int)> {
    let le = spec_letters_end(s, p);
    if le == p {
        None
    } else {
        let de = spec_digits_end(s, le);
        Some((s.subrange(p, de), de))
    }
}

/// The split of a function call's argument text: scanning from `p` at
/// nesting `depth` with the current argument begun at `prev`, the
/// top-level commas split arguments, and the matching top-level close
/// parenthesis ends the scan.  Text with no matching close parenthesis
/// is consumed whole, and what follows the last top-level comma is
/// dropped.
pub open spec fn spec_collect_args(
    s: Seq<char>,
    p: int,
    depth: int,
    prev: int,
    acc: Seq<Seq<char>>,
) -> (Seq<Seq<char>>, int)
    decreases s.len() - p,
{
    if !(0 <= p < s.len()) {
        (acc, s.len() as int)
    } else if s[p] == '(' {
        spec_collect_args(s, p + 1, depth + 1, prev, acc)
    } else if s[p] == ')' {
        if depth == 1 {
            (acc.push(s.subrange(prev, p)), p + 1)
        } else {
            spec_collect_args(s, p + 1, depth - 1, prev, acc)
        }
    } else if s[p] == ',' && depth == 1 {
        spec_collect_args(s, p + 1, depth, p + 1, acc.push(s.subrange(prev, p)))
    } else {
        spec_collect_args(s, p + 1, depth, prev, acc)
    }
}

/// The longest length over a list of character sequences.
pub open spec fn max_str_len(args: Seq<Seq<char>>) -> nat
    decreases args,
{
    if args.len() == 0 {
        0
    } else if args.first().len() >= max_str_len(args.drop_first()) {
        args.first().len()
    } else {
        max_str_len(args.drop_first())
    }
}

/// Each sequence of a list is bounded by the list's longest length.
pub proof fn lemma_max_str_len_ge(args: Seq<Seq<char>>, i: int)
    requires
        0 <= i < args.len(),
    ensures
        args[i].len() <= max_str_len(args),
    decreases args.len(),
{
    if i > 0 {
        lemma_max_str_len_ge(args.drop_first(), i - 1);
        assert(args.drop_first()[i - 1] == args[i]);
    }
}

/// A pointwise bound on a list bounds its longest length.
pub proof fn lemma_max_str_len_le(args: Seq<Seq<char>>, bound: nat)
    requires
        forall|i: int| 0 <= i < args.len() ==> (#[trigger] args[i]).len() <= bound,
    ensures
        max_str_len(args) <= bound,
    decreases args.len(),
{
    if args.len() > 0 {
        assert(args[0].len() <= bound);
        assert forall|i: int| 0 <= i < args.drop_first().len() implies (
        #[trigger] args.drop_first()[i]).len() <= bound by {
            assert(args.drop_first()[i] == args[i + 1]);
        }
        lemma_max_str_len_le(args.drop_first(), bound);
    }
}

/// The views of a list of string slices, in order.
pub open spec fn strs_views(args: Seq<&str>) -> Seq<Seq<char>>
    decreases args,
{
    if args.len() == 0 {
        Seq::empty()
    } else {
        seq![args.first()@] + strs_views(args.drop_first())
    }
}

/// A list of string slices views into as many character sequences.
pub proof fn lemma_strs_views_len(args: Seq<&str>)
    ensures
        strs_views(args).len() == args.len(),
    decreases args.len(),
{
    if args.len() > 0 {
        lemma_strs_views_len(args.drop_first());
    }
}

/// The view of a list of string slices is the list of their views.
pub proof fn lemma_strs_views_index(args: Seq<&str>, i: int)
    requires
        0 <= i < args.len(),
    ensures
        strs_views(args).len() == args.len(),
        strs_views(args)[i] == args[i]@,
    decreases args.len(),
{
    lemma_strs_views_len(args);
    if i > 0 {
        lemma_strs_views_index(args.drop_first(), i - 1);
        assert(args.drop_first()[i - 1] == args[i]);
    }
}

/// Appending a string slice appends its view.
pub proof fn lemma_strs_views_push(args: Seq<&str>, a: &str)
    ensures
        strs_views(args.push(a)) == strs_views(args).push(a@),
    decreases args.len(),
{
    if args.len() == 0 {
        assert(args.push(a).first() == a);
        assert(args.push(a).drop_first() =~= Seq::<&str>::empty());
        assert(strs_views(Seq::<&str>::empty()) =~= Seq::<Seq<char>>::empty());
        assert(strs_views(args.push(a)) =~= strs_views(args).push(a@));
    } else {
        assert(args.push(a).drop_first() =~= args.drop_first().push(a));
        assert(args.push(a).first() == args.first());
        lemma_strs_views_push(args.drop_first(), a);
        assert(strs_views(args.push(a)) =~= strs_views(args).push(a@));
    }
}

// ---------------------------------------------------------------------
// The executable recognizers
// ---------------------------------------------------------------------

/// Moves the cursor past the spaces at it.
#[verifier::loop_isolation(false)]
pub fn remove_spaces(s: &str, pos: &mut usize)
    requires
        *old(pos) <= s@.len(),
    ensures
        *final(pos) == spec_skip_spaces(s@, *old(pos) as int),
        *old(pos) <= *final(pos) <= s@.len(),
{
    let n = s.unicode_len();
    while *pos < n && s.get_char(*pos) == ' '
        invariant
            *old(pos) <= *pos <= n,
            n == s@.len(),
            spec_skip_spaces(s@, *old(pos) as int) == spec_skip_spaces(s@, *pos as int),
        decreases n - *pos,
    {
        *pos = *pos + 1;
    }
}

/// Consumes a parenthesis at the cursor, if one is there.
#[verifier::loop_isolation(false)]
pub fn lex_parenthesis(s: &str, pos: &mut usize) -> (r: Option<Bracket>)
    requires
        *old(pos) <= s@.len(),
    ensures
        match r {
            Some(b) => spec_lex_parenthesis(s@, *old(pos) as int) == Some((b, *final(pos) as int))
                && *final(pos) == *old(pos) + 1,
            None => spec_lex_parenthesis(s@, *old(pos) as int) is None && *final(pos) == *old(
                pos,
            ),
        },
{
    let n = s.unicode_len();
    if *pos >= n {
        return None;
    }
    let res = Bracket::parse(s.get_char(*pos));
    if res.is_some() {
        *pos = *pos + 1;
    }
    res
}

/// Consumes an operator character at the cursor, if one is there.
#[verifier::loop_isolation(false)]
pub fn lex_operator(s: &str, pos: &mut usize) -> (r: Option<Operator>)
    requires
        *old(pos) <= s@.len(),
    ensures
        match r {
            Some(op) => spec_lex_operator(s@, *old(pos) as int) == Some(
                (op, *final(pos) as int),
            ) && *final(pos) == *old(pos) + 1,
            None => spec_lex_operator(s@, *old(pos) as int) is None && *final(pos) == *old(pos),
        },
{
    let n = s.unicode_len();
    if *pos >= n {
        return None;
    }
    let res = Operator::parse(s.get_char(*pos));
    if res.is_some() {
        *pos = *pos + 1;
    }
    res
}

/// Consumes a number literal at the cursor, if one is there, and
/// returns the bits of the binary64 value its characters spell.
#[verifier::loop_isolation(false)]
pub fn lex_number(s: &str, pos: &mut usize) -> (r: Option<u64>)
    requires
        *old(pos) <= s@.len(),
    ensures
        match r {
            Some(v) => spec_lex_number(s@, *old(pos) as int) == Some((v, *final(pos) as int))
                && *old(pos) < *final(pos) <= s@.len(),
            None => spec_lex_number(s@, *old(pos) as int) is None && *final(pos) == *old(pos),
        },
{
    let n = s.unicode_len();
    let p = *pos;
    if p >= n {
        return None;
    }
    let c0 = s.get_char(p);
    if c0 == '.' {
        return None;
    }
    let start: usize = if c0 == '-' {
        p + 1
    } else {
        p
    };
    let mut i = start;
    let mut seen_digit = false;
    let mut seen_dot = false;
    let mut done = false;
    loop
        invariant
            start <= i <= n,
            seen_digit ==> i > start,
            spec_scan_number(s@, start as int, false, false) == spec_scan_number(
                s@,
                i as int,
                seen_digit,
                seen_dot,
            ),
            done ==> spec_scan_number(s@, i as int, seen_digit, seen_dot) == Some(
                (i as int, seen_digit),
            ),
        decreases n - i + if done {
            0int
        } else {
            1int
        },
    {
        if done {
            break ;
        }
        if i >= n {
            done = true;
        } else {
            let c = s.get_char(i);
            if c >= '0' && c <= '9' {
                seen_digit = true;
                i = i + 1;
            } else if c == '.' {
                if seen_dot {
                    done = true;
                } else if !seen_digit {
                    return None;
                } else {
                    seen_dot = true;
                    i = i + 1;
                }
            } else {
                done = true;
            }
        }
    }
    proof {
        assert(spec_scan_number(s@, start as int, false, false) == Some(
            (i as int, seen_digit),
        ));
    }
    if !seen_digit {
        return None;
    }
    let sub = s.substring_char(p, i);
    let bits = crate::numeric::compute_decimal(sub);
    *pos = i;
    Some(bits)
}

/// Consumes a variable name at the cursor, if one is there: one or more
/// letters, then zero or more digits.
#[verifier::loop_isolation(false)]
pub fn lex_variable(s: &str, pos: &mut usize) -> (r: Option<Variable>)
    requires
        *old(pos) <= s@.len(),
    ensures
        match r {
            Some(v) => spec_lex_variable(s@, *old(pos) as int) == Some(
                (v@, *final(pos) as int),
            ) && *old(pos) < *final(pos) <= s@.len(),
            None => spec_lex_variable(s@, *old(pos) as int) is None && *final(pos) == *old(pos),
        },
{
    let n = s.unicode_len();
    let p = *pos;
    let mut i = p;
    let mut done = false;
    while !done
        invariant
            p <= i <= n,
            n == s@.len(),
            spec_letters_end(s@, p as int) == spec_letters_end(s@, i as int),
            done ==> spec_letters_end(s@, i as int) == i,
        decreases n - i + if done {
            0int
        } else {
            1int
        },
    {
        if i >= n {
            done = true;
        } else {
            let c = s.get_char(i);
            if compute_alphabetic(c) {
                i = i + 1;
            } else {
                done = true;
            }
        }
    }
    if i == p {
        return None;
    }
    let mut j = i;
    let mut jdone = false;
    while !jdone
        invariant
            i <= j <= n,
            n == s@.len(),
            spec_digits_end(s@, i as int) == spec_digits_end(s@, j as int),
            jdone ==> spec_digits_end(s@, j as int) == j,
        decreases n - j + if jdone {
            0int
        } else {
            1int
        },
    {
        if j >= n {
            jdone = true;
        } else {
            let c = s.get_char(j);
            if c >= '0' && c <= '9' {
                j = j + 1;
            } else {
                jdone = true;
            }
        }
    }
    let name = s.substring_char(p, j);
    *pos = j;
    Some(Variable::new(name))
}

/// Splits the argument text of a function call at the cursor: top-level
/// commas split arguments, the matching top-level close parenthesis
/// ends the scan and is consumed.
#[verifier::loop_isolation(false)]
pub fn collect_arguments<'a>(s: &'a str, pos: &mut usize) -> (r: Vec<&'a str>)
    requires
        *old(pos) <= s@.len(),
    ensures
        spec_collect_args(s@, *old(pos) as int, 1, *old(pos) as int, Seq::empty()) == (
        strs_views(r@), *final(pos) as int),
        *old(pos) <= *final(pos) <= s@.len(),
        forall|i: int|
            0 <= i < r@.len() ==> (#[trigger] r@[i])@.len() + *old(pos) <= s@.len(),
{
    let n = s.unicode_len();
    let p0 = *pos;
    let mut i = p0;
    let mut depth: u128 = 1;
    let mut prev = p0;
    let mut args: Vec<&'a str> = Vec::new();
    proof {
        assert(strs_views(args@) =~= Seq::<Seq<char>>::empty());
    }
    loop
        invariant
            p0 <= prev <= i <= n,
            n == s@.len(),
            depth >= 1,
            depth <= 1 + i - p0,
            spec_collect_args(s@, p0 as int, 1, p0 as int, Seq::empty()) == spec_collect_args(
                s@,
                i as int,
                depth as int,
                prev as int,
                strs_views(args@),
            ),
            forall|k: int|
                0 <= k < args@.len() ==> (#[trigger] args@[k])@.len() + p0 <= s@.len(),
        decreases n - i,
    {
        if i >= n {
            *pos = n;
            return args;
        }
        let c = s.get_char(i);
        if c == '(' {
            depth = depth + 1;
            i = i + 1;
        } else if c == ')' {
            if depth == 1 {
                let arg = s.substring_char(prev, i);
                proof {
                    lemma_strs_views_push(args@, arg);
                }
                args.push(arg);
                *pos = i + 1;
                return args;
            }
            depth = depth - 1;
            i = i + 1;
        } else if c == ',' && depth == 1 {
            let arg = s.substring_char(prev, i);
            proof {
                lemma_strs_views_push(args@, arg);
            }
            args.push(arg);
            prev = i + 1;
            i = i + 1;
        } else {
            i = i + 1;
        }
    }
}

/// Whether the characters at `p` spell out `name`.
#[verifier::loop_isolation(false)]
pub fn matches_at(s: &str, p: usize, name: &str) -> (r: bool)
    requires
        p <= s@.len(),
    ensures
        r == (p + name@.len() <= s@.len() && s@.subrange(
            p as int,
            p + name@.len(),
        ) == name@),
{
    let n = s.unicode_len();
    let m = name.unicode_len();
    if m > n - p {
        return false;
    }
    for k in 0..m
        invariant
            p + m <= n,
            n == s@.len(),
            m == name@.len(),
            forall|j: int| 0 <= j < k ==> s@[p + j] == name@[j],
    {
        if s.get_char(p + k) != name.get_char(k) {
            return false;
        }
    }
    proof {
        assert(s@.subrange(p as int, p + name@.len()) =~= name@);
    }
    true
}

// ---------------------------------------------------------------------
// Function calls: recognition and the recursive parse of arguments
// ---------------------------------------------------------------------

/// The registered function call at `p`, tried in registration order
/// from entry `i`: the matched name must be followed by `(`; the
/// argument count is held to the function's bounds, and each argument
/// is parsed as a whole sub-expression.  The result is the parsed call
/// and the position after the matching close parenthesis.
///
/// The branch on an argument longer than the longest argument is never
/// reached; it discharges the termination measure.
pub open spec fn spec_lex_function(
    s: Seq<char>,
    p: int,
    ks: Seq<FunctionKind>,
    i: int,
) -> Option<Result<(ExprV, int), ParseErrV>>
    decreases s.len(), 5int, ks.len() - i,
{
    if !(0 <= i < ks.len()) {
        None
    } else {
        let name = ks[i].spec_name();
        let q = p + name.len();
        if 0 <= p && q < s.len() && s.subrange(p, q) == name && s[q] == '(' {
            let (args, end) = spec_collect_args(s, q + 1, 1, q + 1, Seq::empty());
            if !(ks[i].spec_min() <= args.len() && args.len() <= ks[i].spec_max()) {
                Some(Err(ParseErrV::Args(name)))
            } else if max_str_len(args) + 1 < s.len() {
                match spec_parse_kind_args(ks[i], args, ks) {
                    Ok(e) => Some(Ok((e, end))),
                    Err(pe) => Some(Err(pe)),
                }
            } else {
                Some(Err(ParseErrV::Paren))
            }
        } else {
            spec_lex_function(s, p, ks, i + 1)
        }
    }
}

/// What a recognized call parses to: each function assembles its node
/// from its parsed arguments.
///
/// The branches on an argument longer than the longest argument are
/// never reached; they discharge the termination measure.
pub open spec fn spec_parse_kind_args(
    k: FunctionKind,
    args: Seq<Seq<char>>,
    ks: Seq<FunctionKind>,
) -> Result<ExprV, ParseErrV>
    decreases max_str_len(args) + 1, 9int, 1int,
{
    match k {
        FunctionKind::Sin => {
            if args.len() < 1 || args[0].len() >= max_str_len(args) + 1 {
                Err(ParseErrV::Paren)
            } else {
                match spec_parse(args[0], ks) {
                    Ok(e) => Ok(ExprV::Sin(Box::new(e))),
                    Err(pe) => Err(pe),
                }
            }
        },
        FunctionKind::Unary(k2) => {
            if args.len() < 1 || args[0].len() >= max_str_len(args) + 1 {
                Err(ParseErrV::Paren)
            } else {
                match spec_parse(args[0], ks) {
                    Ok(e) => Ok(ExprV::Unary(k2, Box::new(e))),
                    Err(pe) => Err(pe),
                }
            }
        },
        FunctionKind::Min => match spec_parse_list(args, 0, ks) {
            Ok(es) => Ok(ExprV::Min(es)),
            Err(pe) => Err(pe),
        },
    }
}

/// The parse of each argument in order, stopping at the first failure.
///
/// The branch on an argument longer than the longest argument is never
/// reached; it discharges the termination measure.
pub open spec fn spec_parse_list(args: Seq<Seq<char>>, j: int, ks: Seq<FunctionKind>) -> Result<
    Seq<ExprV>,
    ParseErrV,
>
    decreases max_str_len(args) + 1, 8int, args.len() - j,
{
    if !(0 <= j < args.len()) {
        Ok(Seq::empty())
    } else if args[j].len() >= max_str_len(args) + 1 {
        Err(ParseErrV::Paren)
    } else {
        match spec_parse(args[j], ks) {
            Err(pe) => Err(pe),
            Ok(e) => match spec_parse_list(args, j + 1, ks) {
                Ok(rest) => Ok(seq![e] + rest),
                Err(pe) => Err(pe),
            },
        }
    }
}

/// The trailing variable attempt of one lexer pass, and the skip after
/// it.
pub open spec fn spec_pass_var(s: Seq<char>, ts: Seq<TokenV>, p: int) -> (Seq<TokenV>, int) {
    match spec_lex_variable(s, p) {
        Some((n, q)) => (ts.push(TokenV::Var(n)), spec_skip_spaces(s, q)),
        None => (ts, p),
    }
}

/// One pass of the lexer from `p`: skip spaces, then try a parenthesis,
/// a number, an operator, a registered function call and a variable
/// name in that order, each followed by a skip; the tokens consumed and
/// the position reached.
pub open spec fn spec_lex_pass(s: Seq<char>, p: int, ks: Seq<FunctionKind>) -> Result<
    (Seq<TokenV>, int),
    ParseErrV,
>
    decreases s.len(), 6int, 0int,
{
    let p0 = spec_skip_spaces(s, p);
    let (ts1, p1) = match spec_lex_parenthesis(s, p0) {
        Some((b, q)) => (seq![TokenV::Brk(b)], spec_skip_spaces(s, q)),
        None => (Seq::<TokenV>::empty(), p0),
    };
    let (ts2, p2) = match spec_lex_number(s, p1) {
        Some((v, q)) => (ts1.push(TokenV::Num(v)), spec_skip_spaces(s, q)),
        None => (ts1, p1),
    };
    let (ts3, p3) = match spec_lex_operator(s, p2) {
        Some((op, q)) => (ts2.push(TokenV::Op(op)), spec_skip_spaces(s, q)),
        None => (ts2, p2),
    };
    match spec_lex_function(s, p3, ks, 0) {
        Some(Err(e)) => Err(e),
        Some(Ok((e, q))) => Ok(spec_pass_var(s, ts3.push(TokenV::Formula(e)), spec_skip_spaces(s, q))),
        None => Ok(spec_pass_var(s, ts3, p3)),
    }
}

/// Lexer passes from `p` until one makes no progress; the tokens of all
/// passes and the position reached.
pub open spec fn spec_lex_loop(s: Seq<char>, p: int, ks: Seq<FunctionKind>) -> Result<
    (Seq<TokenV>, int),
    ParseErrV,
>
    decreases s.len(), 7int, s.len() - p,
{
    match spec_lex_pass(s, p, ks) {
        Err(e) => Err(e),
        Ok((ts, q)) => if p < q <= s.len() {
            match spec_lex_loop(s, q, ks) {
                Ok((ts2, e)) => Ok((ts + ts2, e)),
                Err(e) => Err(e),
            }
        } else {
            Ok((ts, q))
        },
    }
}

/// What an expression lexes to: the tokens of all passes; input that
/// remains once no pass makes progress is an unknown-token error
/// carrying the unconsumed suffix.
pub open spec fn spec_lex(s: Seq<char>, ks: Seq<FunctionKind>) -> Result<Seq<TokenV>, ParseErrV>
    decreases s.len(), 8int, 0int,
{
    match spec_lex_loop(s, 0, ks) {
        Err(e) => Err(e),
        Ok((ts, p)) => if p == s.len() {
            Ok(ts)
        } else {
            Err(ParseErrV::Unknown(s.subrange(p, s.len() as int)))
        },
    }
}

/// What an expression parses to: its tokens, rearranged into reverse
/// Polish order and reduced into a tree with eager constant folding.
pub open spec fn spec_parse(s: Seq<char>, ks: Seq<FunctionKind>) -> Result<ExprV, ParseErrV>
    decreases s.len(), 9int, 0int,
{
    match spec_lex(s, ks) {
        Err(e) => Err(e),
        Ok(ts) => spec_parse_tokens(ts),
    }
}

/// Concatenating token lists concatenates their views.
pub proof fn lemma_tvs_concat(a: Seq<BaseToken>, b: Seq<BaseToken>)
    ensures
        tvs(a + b) == tvs(a) + tvs(b),
    decreases a.len(),
{
    if a.len() == 0 {
        assert(a + b =~= b);
        assert(tvs(a) =~= Seq::<TokenV>::empty());
        assert(tvs(a) + tvs(b) =~= tvs(b));
    } else {
        assert((a + b).first() == a.first());
        assert((a + b).drop_first() =~= a.drop_first() + b);
        lemma_tvs_concat(a.drop_first(), b);
        assert(tvs(a + b) =~= tvs(a) + tvs(b));
    }
}

/// Consumes a registered function call at the cursor, if one is there:
/// the parsed call node, an arguments error when the argument count is
/// out of the function's bounds, or a parse error from an argument.
#[verifier::loop_isolation(false)]
pub fn lex_function<T: GetFunction>(s: &str, pos: &mut usize, functions: &T) -> (r: Option<
    Result<FunctionNode, ParserError>,
>)
    requires
        *old(pos) <= s@.len(),
    ensures
        match r {
            None => spec_lex_function(s@, *old(pos) as int, functions.functions(), 0) is None
                && *final(pos) == *old(pos),
            Some(rr) => match rr {
                Ok(node) => spec_lex_function(s@, *old(pos) as int, functions.functions(), 0)
                    == Some(Ok::<(ExprV, int), ParseErrV>((node@, *final(pos) as int))) && *old(
                    pos,
                ) <= *final(pos) <= s@.len(),
                Err(e) => spec_lex_function(s@, *old(pos) as int, functions.functions(), 0)
                    == Some(Err::<(ExprV, int), ParseErrV>(e@)),
            },
        },
    decreases s@.len(), 5int, 0int,
{
    let ghost ks = functions.functions();
    let p = *pos;
    let count = functions.count();
    for idx in 0..count
        invariant
            p == *pos,
            p <= s@.len(),
            count == ks.len(),
            ks == functions.functions(),
            spec_lex_function(s@, p as int, ks, 0) == spec_lex_function(s@, p as int, ks, idx as int),
    {
        let kind = functions.kind_at(idx);
        let name = kind.name();
        let nl = name.unicode_len();
        let matched = matches_at(s, p, name);
        let n = s.unicode_len();
        if matched && p + nl < n && s.get_char(p + nl) == '(' {
            let q = p + nl;
            let mut apos = q + 1;
            let args = collect_arguments(s, &mut apos);
            let ghost argv = strs_views(args@);
            let bounds = kind.bounds();
            if args.len() < bounds.min || args.len() > bounds.max {
                proof {
                    lemma_strs_views_len(args@);
                }
                return Some(
                    Err(ParserError::ArgumentsError(ArgumentsError(String::from_str(name)))),
                );
            }
            proof {
                lemma_strs_views_len(args@);
                assert forall|k: int| 0 <= k < argv.len() implies (#[trigger] argv[k]).len()
                    <= s@.len() - q - 1 by {
                    lemma_strs_views_index(args@, k);
                }
                lemma_max_str_len_le(argv, (s@.len() - q - 1) as nat);
            }
            match parse_kind_args(kind, &args, functions) {
                Ok(node) => {
                    *pos = apos;
                    return Some(Ok(node));
                },
                Err(e) => {
                    return Some(Err(e));
                },
            }
        }
    }
    None
}

/// Assembles the node of a recognized call from its argument text, each
/// argument parsed as a whole sub-expression.
#[verifier::loop_isolation(false)]
fn parse_kind_args<T: GetFunction>(
    kind: FunctionKind,
    arguments: &Vec<&str>,
    functions: &T,
) -> (r: Result<FunctionNode, ParserError>)
    requires
        kind.spec_min() <= arguments@.len() <= kind.spec_max(),
    ensures
        match r {
            Ok(node) => spec_parse_kind_args(
                kind,
                strs_views(arguments@),
                functions.functions(),
            ) == Ok::<ExprV, ParseErrV>(node@),
            Err(e) => spec_parse_kind_args(kind, strs_views(arguments@), functions.functions())
                == Err::<ExprV, ParseErrV>(e@),
        },
    decreases max_str_len(strs_views(arguments@)) + 1, 9int, 1int,
{
    proof {
        lemma_strs_views_len(arguments@);
    }
    match kind {
        FunctionKind::Sin => {
            proof {
                lemma_max_str_len_ge(strs_views(arguments@), 0);
            }
            match Sin::parse(arguments, functions) {
                Ok(sin) => {
                    proof {
                        lemma_strs_views_index(arguments@, 0);
                    }
                    Ok(FunctionNode::Sin(sin))
                },
                Err(e) => {
                    proof {
                        lemma_strs_views_index(arguments@, 0);
                    }
                    Err(e)
                },
            }
        },
        FunctionKind::Unary(k2) => {
            proof {
                lemma_max_str_len_ge(strs_views(arguments@), 0);
            }
            match UnaryFunction::parse(k2, arguments, functions) {
                Ok(u) => {
                    proof {
                        lemma_strs_views_index(arguments@, 0);
                    }
                    Ok(FunctionNode::Unary(u))
                },
                Err(e) => {
                    proof {
                        lemma_strs_views_index(arguments@, 0);
                    }
                    Err(e)
                },
            }
        },
        FunctionKind::Min => match Min::parse(arguments, functions) {
            Ok(m) => Ok(FunctionNode::Min(m)),
            Err(e) => Err(e),
        },
    }
}

impl Sin {
    /// Parses the one argument of a `sin` call into the sine node.
    pub fn parse<T: GetFunction>(arguments: &Vec<&str>, formulas: &T) -> (r: Result<
        Sin,
        ParserError,
    >)
        requires
            arguments@.len() >= 1,
        ensures
            ({
                let sp = spec_parse(arguments@[0]@, formulas.functions());
                match r {
                    Ok(sin) => sp matches Ok(e) && sin@ == ExprV::Sin(Box::new(e)),
                    Err(pe) => sp == Err::<ExprV, ParseErrV>(pe@),
                }
            }),
        decreases max_str_len(strs_views(arguments@)) + 1, 8int, 0int,
    {
        proof {
            lemma_strs_views_index(arguments@, 0);
            lemma_max_str_len_ge(strs_views(arguments@), 0);
        }
        let arg0: &str = arguments[0];
        match RootFormula::parse(arg0, formulas) {
            Ok(f) => Ok(Sin { argument: f }),
            Err(e) => Err(e),
        }
    }
}

impl UnaryFunction {
    /// Parses the one argument of a one-argument function call into its
    /// node.
    pub fn parse<T: GetFunction>(
        kind: crate::function_stores::UnaryKind,
        arguments: &Vec<&str>,
        formulas: &T,
    ) -> (r: Result<UnaryFunction, ParserError>)
        requires
            arguments@.len() >= 1,
        ensures
            ({
                let sp = spec_parse(arguments@[0]@, formulas.functions());
                match r {
                    Ok(u) => sp matches Ok(e) && u@ == ExprV::Unary(kind, Box::new(e)),
                    Err(pe) => sp == Err::<ExprV, ParseErrV>(pe@),
                }
            }),
        decreases max_str_len(strs_views(arguments@)) + 1, 8int, 0int,
    {
        proof {
            lemma_strs_views_index(arguments@, 0);
            lemma_max_str_len_ge(strs_views(arguments@), 0);
        }
        let arg0: &str = arguments[0];
        match RootFormula::parse(arg0, formulas) {
            Ok(f) => Ok(UnaryFunction { kind, argument: f }),
            Err(e) => Err(e),
        }
    }
}

impl Min {
    /// Parses the arguments of a `min` call into the minimum node.
    pub fn parse<T: GetFunction>(arguments: &Vec<&str>, formulas: &T) -> (r: Result<
        Min,
        ParserError,
    >)
        ensures
            ({
                let sp = spec_parse_list(strs_views(arguments@), 0, formulas.functions());
                match r {
                    Ok(m) => sp matches Ok(es) && m@ == ExprV::Min(es),
                    Err(pe) => sp == Err::<Seq<ExprV>, ParseErrV>(pe@),
                }
            }),
        decreases max_str_len(strs_views(arguments@)) + 1, 8int, 0int,
    {
        let ghost ks = formulas.functions();
        let ghost views = strs_views(arguments@);
        proof {
            lemma_strs_views_len(arguments@);
            assert(crate::formulas::rf_views(Seq::<RootFormula>::empty())
                =~= Seq::<ExprV>::empty());
        }
        let n = arguments.len();
        let mut parsed: Vec<RootFormula> = Vec::new();
        for j in 0..n
            invariant
                n == arguments@.len(),
                views.len() == n,
                views == strs_views(arguments@),
                ks == formulas.functions(),
                parsed@.len() == j,
                ({
                    let pre = crate::formulas::rf_views(parsed@);
                    match spec_parse_list(views, j as int, ks) {
                        Ok(rest) => spec_parse_list(views, 0, ks) == Ok::<
                            Seq<ExprV>,
                            ParseErrV,
                        >(pre + rest),
                        Err(e) => spec_parse_list(views, 0, ks) == Err::<
                            Seq<ExprV>,
                            ParseErrV,
                        >(e),
                    }
                }),
        {
            proof {
                lemma_strs_views_index(arguments@, j as int);
                lemma_max_str_len_ge(views, j as int);
            }
            let ghost pre = crate::formulas::rf_views(parsed@);
            match RootFormula::parse(arguments[j], formulas) {
                Ok(f) => {
                    proof {
                        crate::formulas::lemma_rf_views_push(parsed@, f);
                    }
                    parsed.push(f);
                    proof {
                        if let Ok(rest) = spec_parse_list(views, j + 1 as int, ks) {
                            assert(pre + (seq![rf_view(f)] + rest) =~= (pre.push(rf_view(f)))
                                + rest);
                        }
                    }
                },
                Err(e) => {
                    return Err(e);
                },
            }
        }
        proof {
            assert(crate::formulas::rf_views(parsed@) + Seq::<ExprV>::empty() =~= crate::formulas::rf_views(parsed@));
        }
        Ok(Min { arguments: parsed })
    }
}

// ---------------------------------------------------------------------
// The whole lexer, and the parse entry point
// ---------------------------------------------------------------------

/// One lexer pass: spaces skipped, each recognizer tried once in order.
#[verifier::loop_isolation(false)]
fn lex_pass<T: GetFunction>(s: &str, pos: &mut usize, formulas: &T) -> (r: Result<
    Vec<BaseToken>,
    ParserError,
>)
    requires
        *old(pos) <= s@.len(),
    ensures
        match r {
            Ok(v) => spec_lex_pass(s@, *old(pos) as int, formulas.functions()) == Ok::<
                (Seq<TokenV>, int),
                ParseErrV,
            >((tvs(v@), *final(pos) as int)) && *old(pos) <= *final(pos) <= s@.len(),
            Err(e) => spec_lex_pass(s@, *old(pos) as int, formulas.functions()) == Err::<
                (Seq<TokenV>, int),
                ParseErrV,
            >(e@),
        },
    decreases s@.len(), 6int, 0int,
{
    let mut v: Vec<BaseToken> = Vec::new();
    proof {
        assert(tvs(v@) =~= Seq::<TokenV>::empty());
    }
    remove_spaces(s, pos);
    if let Some(bra) = lex_parenthesis(s, pos) {
        proof {
            lemma_tvs_push(v@, BaseToken::Bracket(bra));
        }
        v.push(BaseToken::Bracket(bra));
        remove_spaces(s, pos);
    }
    if let Some(num) = lex_number(s, pos) {
        proof {
            lemma_tvs_push(v@, BaseToken::NumberLike(NumberLike::Number(num)));
        }
        v.push(BaseToken::NumberLike(NumberLike::Number(num)));
        remove_spaces(s, pos);
    }
    if let Some(op) = lex_operator(s, pos) {
        proof {
            lemma_tvs_push(v@, BaseToken::Operator(op));
        }
        v.push(BaseToken::Operator(op));
        remove_spaces(s, pos);
    }
    match lex_function(s, pos, formulas) {
        Some(rr) => match rr {
            Ok(node) => {
                proof {
                    lemma_tvs_push(v@, BaseToken::Formula(node));
                }
                v.push(BaseToken::Formula(node));
                remove_spaces(s, pos);
            },
            Err(e) => {
                return Err(e);
            },
        },
        None => {},
    }
    if let Some(var) = lex_variable(s, pos) {
        proof {
            lemma_tvs_push(v@, BaseToken::NumberLike(NumberLike::Variable(var)));
        }
        v.push(BaseToken::NumberLike(NumberLike::Variable(var)));
        remove_spaces(s, pos);
    }
    Ok(v)
}

/// Lexes a whole expression into its token sequence; fails with an
/// unknown-token error carrying the unconsumed suffix when a full pass
/// makes no progress before the end of the input.
#[verifier::loop_isolation(false)]
pub fn lex_expression<T: GetFunction>(s: &str, formulas: &T) -> (r: Result<
    Vec<BaseToken>,
    ParserError,
>)
    ensures
        match r {
            Ok(v) => spec_lex(s@, formulas.functions()) == Ok::<Seq<TokenV>, ParseErrV>(tvs(v@)),
            Err(e) => spec_lex(s@, formulas.functions()) == Err::<Seq<TokenV>, ParseErrV>(e@),
        },
    decreases s@.len(), 8int, 0int,
{
    let ghost ks = formulas.functions();
    let n = s.unicode_len();
    let mut pos: usize = 0;
    let mut res: Vec<BaseToken> = Vec::new();
    proof {
        assert(tvs(res@) =~= Seq::<TokenV>::empty());
        assert(Seq::<TokenV>::empty() + Seq::<TokenV>::empty()
            =~= Seq::<TokenV>::empty());
    }
    loop
        invariant
            pos <= n,
            n == s@.len(),
            ks == formulas.functions(),
            ({
                match spec_lex_loop(s@, pos as int, ks) {
                    Ok(pair) => spec_lex_loop(s@, 0, ks) == Ok::<(Seq<TokenV>, int), ParseErrV>(
                        (tvs(res@) + pair.0, pair.1),
                    ),
                    Err(e) => spec_lex_loop(s@, 0, ks) == Err::<(Seq<TokenV>, int), ParseErrV>(e),
                }
            }),
        decreases n - pos,
    {
        let start = pos;
        let pr = lex_pass(s, &mut pos, formulas);
        match pr {
            Err(e) => {
                return Err(e);
            },
            Ok(mut tks) => {
                let ghost tksv = tvs(tks@);
                let ghost resv = tvs(res@);
                proof {
                    lemma_tvs_concat(res@, tks@);
                }
                res.append(&mut tks);
                if pos == start {
                    proof {
                        assert(resv + tksv =~= tvs(res@));
                    }
                    if pos == n {
                        return Ok(res);
                    } else {
                        let e = UnknownTokenError(String::from_str(s.substring_char(pos, n)));
                        return Err(ParserError::UnknownTokenError(e));
                    }
                } else {
                    proof {
                        if let Ok(pair) = spec_lex_loop(s@, pos as int, ks) {
                            assert(resv + (tksv + pair.0) =~= (resv + tksv) + pair.0);
                        }
                    }
                }
            },
        }
    }
}

impl RootFormula {
    /// Parses an expression into a formula tree: lexing, the
    /// shunting-yard pass and reduction with eager constant folding.
    pub fn parse<T: GetFunction>(expression: &str, formulas: &T) -> (r: Result<
        RootFormula,
        ParserError,
    >)
        ensures
            match r {
                Ok(f) => spec_parse(expression@, formulas.functions()) == Ok::<
                    ExprV,
                    ParseErrV,
                >(f@),
                Err(e) => spec_parse(expression@, formulas.functions()) == Err::<
                    ExprV,
                    ParseErrV,
                >(e@),
            },
        decreases expression@.len(), 9int, 0int,
    {
        let tokens = match lex_expression(expression, formulas) {
            Ok(t) => t,
            Err(e) => {
                return Err(e);
            },
        };
        match parse_tokens(tokens) {
            Ok(fa) => Ok(RootFormula::new(fa)),
            Err(e) => Err(e),
        }
    }
}

} // verus!
