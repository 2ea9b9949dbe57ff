//! The transient token vocabulary of the lexer: brackets and infix operators.

use vstd::prelude::*;

verus! {

/// An opening parenthesis, `(`.
#[derive(Debug, PartialEq, Eq, Structural, Clone, Copy)]
pub struct OpenBracket;

/// A closing parenthesis, `)`.
#[derive(Debug, PartialEq, Eq, Structural, Clone, Copy)]
pub struct CloseBracket;

/// Either parenthesis, as produced by the lexer.
#[derive(Debug, PartialEq, Eq, Structural, Clone, Copy)]
pub enum Bracket {
    OpenBracket(OpenBracket),
    CloseBracket(CloseBracket),
}

impl Bracket {
    /// Recognizes a single parenthesis character.
    pub fn parse(elem: char) -> (r: Option<Self>)
        ensures
            r == spec_bracket(elem),
    {
        match elem {
            '(' => Some(Self::OpenBracket(OpenBracket)),
            ')' => Some(Self::CloseBracket(CloseBracket)),
            _ => None,
        }
    }
}

/// What `Bracket::parse` recognizes: `(` and `)` and nothing else.
pub open spec fn spec_bracket(elem: char) -> Option<Bracket> {
    if elem == '(' {
        Some(Bracket::OpenBracket(OpenBracket))
    } else if elem == ')' {
        Some(Bracket::CloseBracket(CloseBracket))
    } else {
        None
    }
}

/// The five infix operators.
#[derive(Debug, PartialEq, Eq, Structural, Clone, Copy)]
pub enum Operator {
    Plus,
    Minus,
    Multiply,
    Divide,
    Exponent,
}

/// The associativity side of an operator.
#[derive(Debug, PartialEq, Eq, Structural, Clone, Copy)]
pub enum Side {
    Left,
    Right,
}

impl Operator {
    /// The binding priority of the operator; a lower number binds tighter.
    pub fn priority(&self) -> (r: u8)
        ensures
            r == self.spec_priority(),
    {
        match self {
            Self::Minus | Self::Plus => 3,
            Self::Multiply | Self::Divide => 2,
            Self::Exponent => 2,
        }
    }

    /// `Plus` and `Minus` bind loosest; `Multiply`, `Divide` and
    /// `Exponent` share the tighter priority.
    pub open spec fn spec_priority(self) -> u8 {
        match self {
            Self::Minus | Self::Plus => 3,
            Self::Multiply | Self::Divide => 2,
            Self::Exponent => 2,
        }
    }

    /// The associativity of the operator.
    pub fn side(&self) -> (r: Side)
        ensures
            r == self.spec_side(),
    {
        match self {
            Self::Divide | Self::Multiply | Self::Minus | Self::Plus => Side::Left,
            Self::Exponent => Side::Right,
        }
    }

    /// Every operator is left-associative but `Exponent`.
    pub open spec fn spec_side(self) -> Side {
        if self is Exponent {
            Side::Right
        } else {
            Side::Left
        }
    }

    /// Recognizes a single operator character.
    pub fn parse(elem: char) -> (r: Option<Self>)
        ensures
            r == spec_operator(elem),
    {
        match elem {
            '+' => Some(Self::Plus),
            '-' => Some(Self::Minus),
            '*' => Some(Self::Multiply),
            '/' => Some(Self::Divide),
            '^' => Some(Self::Exponent),
            _ => None,
        }
    }

    /// Applies the operator to two binary64 bit patterns.
    pub fn eval(&self, first: u64, second: u64) -> (r: u64)
        ensures
            r == crate::expr::apply_op(*self, first, second),
    {
        match self {
            Self::Plus => crate::numeric::compute_add(first, second),
            Self::Minus => crate::numeric::compute_sub(first, second),
            Self::Multiply => crate::numeric::compute_mul(first, second),
            Self::Divide => crate::numeric::compute_div(first, second),
            Self::Exponent => crate::numeric::compute_pow(first, second),
        }
    }

    /// The character the operator is written as.
    pub fn as_str(&self) -> (r: &'static str)
        ensures
            r@ == self.spec_name(),
    {
        match self {
            Self::Plus => "+",
            Self::Minus => "-",
            Self::Multiply => "*",
            Self::Divide => "/",
            Self::Exponent => "^",
        }
    }

    /// The spelling of each operator.
    pub open spec fn spec_name(self) -> Seq<char> {
        match self {
            Self::Plus => "+"@,
            Self::Minus => "-"@,
            Self::Multiply => "*"@,
            Self::Divide => "/"@,
            Self::Exponent => "^"@,
        }
    }
}

/// What `Operator::parse` recognizes: the five operator characters.
pub open spec fn spec_operator(elem: char) -> Option<Operator> {
    if elem == '+' {
        Some(Operator::Plus)
    } else if elem == '-' {
        Some(Operator::Minus)
    } else if elem == '*' {
        Some(Operator::Multiply)
    } else if elem == '/' {
        Some(Operator::Divide)
    } else if elem == '^' {
        Some(Operator::Exponent)
    } else {
        None
    }
}

} // verus!
