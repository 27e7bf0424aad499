use vstd::prelude::*;

use crate::error::Error;
use crate::value::Value;

verus! {

/// A lexical token: a classification plus a half-open span of character
/// positions into the expression text. Tokens live only until compilation
/// promotes them to nodes in place.
#[derive(Debug, Clone, Copy, PartialEq, Eq, Structural)]
pub struct Token {
    pub token_kind: TokenKind,
    pub start: usize,
    pub end: usize,
}

impl Token {
    /// A fresh one-character token starting at `start`.
    pub fn new(token_kind: TokenKind, start: usize) -> (t: Token)
        requires
            start < usize::MAX,
        ensures
            t == (Token { token_kind, start, end: (start + 1) as usize }),
    {
        Token { token_kind, start, end: start + 1 }
    }

    /// The token's classification.
    pub fn kind(&self) -> (k: TokenKind)
        ensures
            k == self.token_kind,
    {
        self.token_kind
    }

    /// Reclassify the token, keeping its span.
    pub fn set_kind(&mut self, token_kind: TokenKind)
        ensures
            *final(self) == (Token { token_kind, ..*old(self) }),
    {
        self.token_kind = token_kind;
    }

    /// Extend the token's span by one character.
    pub fn inc_end(&mut self)
        requires
            old(self).end < usize::MAX,
        ensures
            *final(self) == (Token { end: (old(self).end + 1) as usize, ..*old(self) }),
    {
        self.end = self.end + 1;
    }

    /// Reclassify the token and extend its span by one character at once.
    pub fn set_inc(&mut self, token_kind: TokenKind)
        requires
            old(self).end < usize::MAX,
        ensures
            *final(self) == (Token { token_kind, start: old(self).start, end: (old(self).end + 1) as usize }),
    {
        self.token_kind = token_kind;
        self.end = self.end + 1;
    }

    /// The zero-width literal synthesized in front of a unary minus.
    pub fn new_neg_zero() -> (t: Token)
        ensures
            t == (Token { token_kind: TokenKind::Special(Special::NegZero), start: 0, end: 0 }),
    {
        Token { token_kind: TokenKind::Special(Special::NegZero), start: 0, end: 0 }
    }

    /// The text this token's span covers.
    pub fn slice<'a>(&self, string: &'a str) -> (r: &'a str)
        requires
            self.start <= self.end <= string@.len(),
        ensures
            r@ == string@.subrange(self.start as int, self.end as int),
    {
        string.substring_char(self.start, self.end)
    }
}

/// The classification of a token.
#[derive(Debug, Clone, Copy, PartialEq, Eq, Structural)]
pub enum TokenKind {
    Literal(Literal),
    Bracket(Bracket),
    Identifier(Identifier),
    Operator(Operator),
    Special(Special),
}

/// The numeric kind a literal token denotes.
#[derive(Debug, Clone, Copy, PartialEq, Eq, Structural)]
pub enum Literal {
    Int,
    Float,
}

/// Grouping brackets.
#[derive(Debug, Clone, Copy, PartialEq, Eq, Structural)]
pub enum Bracket {
    Opened,
    Closed,
}

/// The weight offset a bracket contributes to every operator nested inside
/// it: entering a bracket raises the weights of the operators it encloses, so
/// they bind before anything outside the bracket reaches them.
pub open spec fn bracket_weight_spec(b: Bracket) -> int {
    match b {
        Bracket::Opened => 100,
        Bracket::Closed => -100,
    }
}

impl Bracket {
    /// The signed weight offset this bracket contributes.
    pub fn weight(&self) -> (w: i16)
        ensures
            w as int == bracket_weight_spec(*self),
    {
        match self {
            Bracket::Opened => 100,
            Bracket::Closed => -100,
        }
    }
}

/// What an identifier token denotes: a callable resolved through the library,
/// or a variable interned in the variable table.
#[derive(Debug, Clone, Copy, PartialEq, Eq, Structural)]
pub enum Identifier {
    Function,
    Variable,
}

/// Structural markers and synthesized tokens.
#[derive(Debug, Clone, Copy, PartialEq, Eq, Structural)]
pub enum Special {
    /// An identifier followed by a single `:`.
    NamespacePartial,
    /// A completed `::` namespace separator; its span still covers the
    /// identifier text it promotes.
    Namespace,
    /// The zero-width zero literal synthesized in front of a unary minus.
    NegZero,
    /// The `,` between function arguments.
    Comma,
}

/// Binary operators.
#[derive(Debug, Clone, Copy, PartialEq, Eq, Structural)]
pub enum Operator {
    Add,
    Sub,
    Mul,
    Div,
    Rem,
    Pow,
    Not,
    Or,
    Xor,
    And,
    Eq,
    NEq,
    GEq,
    Gt,
    LEq,
    Lt,
}

/// Base precedence weight of an operator. A lower weight stands nearer the
/// root of the compiled tree, so the operators that bind loosest carry the
/// smallest weights: logical operators below the relational ones, equality
/// below the ordered comparisons, and the additive below the multiplicative,
/// as a standard precedence table has it.
pub open spec fn op_weight_spec(op: Operator) -> i16 {
    match op {
        Operator::Or => 4,
        Operator::Xor => 5,
        Operator::And => 6,
        Operator::Not => 7,
        Operator::Eq => 10,
        Operator::NEq => 10,
        Operator::Gt => 11,
        Operator::GEq => 11,
        Operator::Lt => 11,
        Operator::LEq => 11,
        Operator::Add => 20,
        Operator::Sub => 20,
        Operator::Mul => 21,
        Operator::Div => 21,
        Operator::Rem => 22,
        Operator::Pow => 22,
    }
}

/// What applying `op` to two values yields.
///
/// The arithmetic operators are defined on two integers, with wrapping
/// two's-complement semantics for addition, subtraction and multiplication;
/// division and remainder refuse a zero divisor and the one overflowing
/// quotient with `InvalidArg`. Two float operands, or one operand of each
/// variant, are refused with `InvalidType`: there is no implicit conversion,
/// and float arithmetic stays outside the library. Every operator without an
/// integer evaluation rule is refused with `InvalidToken`.
pub open spec fn op_eval_spec(op: Operator, lhs: Value, rhs: Value) -> Result<Value, Error> {
    match (lhs, rhs) {
        (Value::Int(a), Value::Int(b)) => match op {
            Operator::Add => Ok(Value::Int(a.wrapping_add(b))),
            Operator::Sub => Ok(Value::Int(a.wrapping_sub(b))),
            Operator::Mul => Ok(Value::Int(a.wrapping_mul(b))),
            Operator::Div => match a.checked_div(b) {
                Some(q) => Ok(Value::Int(q)),
                None => Err(Error::InvalidArg),
            },
            Operator::Rem => match a.checked_rem(b) {
                Some(m) => Ok(Value::Int(m)),
                None => Err(Error::InvalidArg),
            },
            _ => Err(Error::InvalidToken),
        },
        _ => Err(Error::InvalidType),
    }
}

impl Operator {
    /// The operator's base precedence weight.
    pub fn weight(&self) -> (w: i16)
        ensures
            w == op_weight_spec(*self),
    {
        match self {
            Operator::Or => 4,
            Operator::Xor => 5,
            Operator::And => 6,
            Operator::Not => 7,
            Operator::Eq => 10,
            Operator::NEq => 10,
            Operator::Gt => 11,
            Operator::GEq => 11,
            Operator::Lt => 11,
            Operator::LEq => 11,
            Operator::Add => 20,
            Operator::Sub => 20,
            Operator::Mul => 21,
            Operator::Div => 21,
            Operator::Rem => 22,
            Operator::Pow => 22,
        }
    }

    /// Apply the operator to two values, exactly as `op_eval_spec` says.
    pub fn eval(&self, lhs: Value, rhs: Value) -> (r: Result<Value, Error>)
        ensures
            r == op_eval_spec(*self, lhs, rhs),
    {
        match (lhs, rhs) {
            (Value::Int(a), Value::Int(b)) => self.eval_int(a, b),
            _ => Err(Error::InvalidType),
        }
    }

    /// Apply the operator to two integers.
    pub fn eval_int(&self, lhs: i64, rhs: i64) -> (r: Result<Value, Error>)
        ensures
            r == op_eval_spec(*self, Value::Int(lhs), Value::Int(rhs)),
    {
        match self {
            Operator::Add => Ok(Value::Int(lhs.wrapping_add(rhs))),
            Operator::Sub => Ok(Value::Int(lhs.wrapping_sub(rhs))),
            Operator::Mul => Ok(Value::Int(lhs.wrapping_mul(rhs))),
            Operator::Div => match lhs.checked_div(rhs) {
                Some(q) => Ok(Value::Int(q)),
                None => Err(Error::InvalidArg),
            },
            Operator::Rem => match lhs.checked_rem(rhs) {
                Some(m) => Ok(Value::Int(m)),
                None => Err(Error::InvalidArg),
            },
            _ => Err(Error::InvalidToken),
        }
    }
}

/// Applying an operator to one integer and one float is always refused with
/// `InvalidType`: the library never converts between the two variants.
pub proof fn lemma_mixed_operands_invalid_type(op: Operator, i: i64, bits: u64)
    ensures
        op_eval_spec(op, Value::Int(i), Value::Float(bits)) == Err::<Value, Error>(Error::InvalidType),
        op_eval_spec(op, Value::Float(bits), Value::Int(i)) == Err::<Value, Error>(Error::InvalidType),
{
}

} // verus!
