use vstd::prelude::*;

use crate::token::{Operator, Token};
use crate::value::Value;
use crate::variables::VariableIndex;

verus! {

/// A position in the arena. Indices are assigned once, at push time, and are
/// never reused within one compilation.
#[derive(Debug, Clone, Copy, PartialEq, Eq, Structural)]
pub struct ElementIndex(pub usize);

impl ElementIndex {
    /// Wrap a raw arena position.
    pub fn new(index: usize) -> (r: ElementIndex)
        ensures
            r == ElementIndex(index),
    {
        ElementIndex(index)
    }
}

/// One arena slot: a raw token before compilation, or the compiled node that
/// replaced it in place.
#[derive(Debug, Clone)]
pub enum Element<T> {
    Token(Token),
    Node(Node<T>),
}

/// A compiled node, parameterized by the library type whose callables the
/// expression may invoke.
#[derive(Debug, Clone)]
pub enum Node<T> {
    Instruction(Instruction),
    Literal(Value),
    Variable(VariableIndex),
    Function(FunctionNode<T>),
}

/// An operator application; the children are arena indices wired by the
/// weight-resolution pass.
#[derive(Debug, Clone, Copy, PartialEq, Eq, Structural)]
pub struct Instruction {
    pub operator: Operator,
    pub lhs: ElementIndex,
    pub rhs: ElementIndex,
}

/// A call of a library function with its argument subtrees, in declared
/// order.
#[derive(Debug, Clone)]
pub struct FunctionNode<T> {
    pub function: T,
    pub args: Vec<ElementIndex>,
}

/// The specification-level picture of one arena slot. It differs from
/// `Element` only in holding a function node's arguments as a sequence, so
/// that specification functions can build updated slots.
pub enum ElemModel<T> {
    Tok(Token),
    Instr(Instruction),
    Lit(Value),
    Var(VariableIndex),
    Fun(T, Seq<ElementIndex>),
}

/// The model of one slot.
pub open spec fn elem_model<T>(e: Element<T>) -> ElemModel<T> {
    match e {
        Element::Token(t) => ElemModel::Tok(t),
        Element::Node(Node::Instruction(ins)) => ElemModel::Instr(ins),
        Element::Node(Node::Literal(v)) => ElemModel::Lit(v),
        Element::Node(Node::Variable(vi)) => ElemModel::Var(vi),
        Element::Node(Node::Function(f)) => ElemModel::Fun(f.function, f.args@),
    }
}

/// The model of the whole arena.
pub open spec fn elems_model<T>(es: Seq<Element<T>>) -> Seq<ElemModel<T>> {
    es.map_values(|e: Element<T>| elem_model(e))
}

/// Updating one slot updates one model slot.
pub proof fn lemma_model_update<T>(es: Seq<Element<T>>, i: int, e: Element<T>)
    requires
        0 <= i < es.len(),
    ensures
        elems_model(es.update(i, e)) == elems_model(es).update(i, elem_model(e)),
{
    assert(elems_model(es.update(i, e)) =~= elems_model(es).update(i, elem_model(e)));
}

/// True of an arena whose every slot still holds a raw token, as the lexer
/// leaves it.
pub open spec fn all_tokens<T>(es: Seq<Element<T>>) -> bool {
    forall|i: int| 0 <= i < es.len() ==> #[trigger] es[i] matches Element::Token(_)
}

/// An arena of raw tokens holds no function node.
pub proof fn lemma_all_tokens_no_function_node<T>(es: Seq<Element<T>>)
    requires
        all_tokens(es),
    ensures
        no_function_node(elems_model(es)),
{
    assert forall|i: int| 0 <= i < elems_model(es).len() implies !(#[trigger] elems_model(es)[i]
        matches ElemModel::Fun(_, _)) by {
        assert(es[i] matches Element::Token(_));
    }
}

/// True of an arena in which no slot is a function-identifier token, so
/// promotion will consult the library for nothing.
pub open spec fn no_function_token<T>(m: Seq<ElemModel<T>>) -> bool {
    forall|i: int|
        0 <= i < m.len() ==> !(#[trigger] m[i] matches ElemModel::Tok(t)
            && t.token_kind == crate::token::TokenKind::Identifier(
            crate::token::Identifier::Function,
        ))
}

/// True of an arena in which no slot is a function node, so evaluation will
/// call into the library for nothing.
pub open spec fn no_function_node<T>(m: Seq<ElemModel<T>>) -> bool {
    forall|i: int| 0 <= i < m.len() ==> !(#[trigger] m[i] matches ElemModel::Fun(_, _))
}

} // verus!
