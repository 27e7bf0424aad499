use vstd::prelude::*;

verus! {

/// Every failure the library can report, from lexing through evaluation.
///
/// Each stage fails fast: the first error is returned to the caller and no
/// partial result is kept.
#[derive(Debug, Clone, Copy, PartialEq, Eq, Structural)]
pub enum Error {
    /// A character the lexer does not recognize at all.
    UnkownCharacter(char),
    /// A recognized character or token in a position where it cannot stand.
    UnexpectedToken,
    /// No identifier matched where one was required.
    NoIdentifierMatch,
    /// A literal span that does not denote a number, or an operator with no
    /// evaluation rule.
    InvalidToken,
    /// A namespace chain that does not lead to a known library.
    InvalidNamespace,
    /// A call with the wrong number of arguments, or an arithmetic argument
    /// outside the operation's domain (division by zero and the like).
    InvalidArg,
    /// An arena index that does not address a compiled node.
    InvalidIndex,
    /// A variable index outside the variable table.
    InvalidVariable,
    /// Operands or arguments whose variants do not match what is required;
    /// there is no implicit conversion between integers and floats.
    InvalidType,
    /// Evaluation was requested before a successful compilation.
    NotCompiled,
    /// Opening and closing brackets do not pair up.
    UnbalancedBracket,
    /// A character arrived after the expression was already compiled.
    AlreadyCompiled,
    /// The expression text holds nothing to compile.
    EmptyExpression,
    /// An identifier that names no function of the library it was resolved
    /// against.
    UnknownFunction,
}

} // verus!
