//! A small expression language, verified end to end: a contextual lexer
//! turns a flat formula into spanned tokens in a growable arena, compilation
//! promotes each token to a typed node in place and resolves operator
//! precedence and bracket grouping by a single weighted scan that wires child
//! links through plain indices, and a tree-walking evaluator runs the result
//! against a mutable variable table and a pluggable, namespace-addressed
//! library of callable functions.
//!
//! Every pass carries a contract that pins its result down exactly against a
//! specification-level model of the arena; what a registered library function
//! returns is the one thing left to its implementor.

pub mod compile;
pub mod element;
pub mod error;
pub mod eval;
pub mod expression;
pub mod lex;
pub mod library;
pub mod scan;
pub mod storage;
pub mod token;
pub mod value;
pub mod variables;

pub use element::ElementIndex;
pub use error::Error;
pub use expression::Expression;
pub use library::{access_single, Library, Std};
pub use token::{Bracket, Operator, Token, TokenKind};
pub use value::Value;
pub use variables::{VariableIndex, Variables};
