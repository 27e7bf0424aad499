use vstd::prelude::*;

use crate::element::{
    elem_model, elems_model, lemma_model_update, no_function_token, ElemModel, Element, FunctionNode,
    Instruction, Node,
};
use crate::element::ElementIndex;
use crate::error::Error;
use crate::lex::is_digit;
use crate::library::Library;
use crate::storage::ExpressionStorage;
use crate::token::{Identifier, Literal, Special, Token, TokenKind};
use crate::value::Value;
use crate::variables::{intern_spec, name_views, VariableIndex};

verus! {

/// Reading a decimal integer from position `i` on, having read `acc` so far:
/// every remaining character must be a digit, and the value must fit in an
/// `i64`; anything else is refused with `InvalidToken`.
pub open spec fn int_parse_from(s: Seq<char>, i: int, acc: i64) -> Result<i64, Error>
    decreases s.len() - i,
{
    if i < 0 || i >= s.len() {
        Ok(acc)
    } else if !is_digit(s[i]) {
        Err(Error::InvalidToken)
    } else {
        let d = (s[i] as u32 - 48) as i64;
        match acc.checked_mul(10) {
            Some(m) => match m.checked_add(d) {
                Some(v) => int_parse_from(s, i + 1, v),
                None => Err(Error::InvalidToken),
            },
            None => Err(Error::InvalidToken),
        }
    }
}

/// What parsing a whole integer-literal span yields: the empty span is
/// refused, everything else reads as `int_parse_from` says.
pub open spec fn int_parse_spec(s: Seq<char>) -> Result<i64, Error> {
    if s.len() == 0 {
        Err(Error::InvalidToken)
    } else {
        int_parse_from(s, 0, 0)
    }
}

/// Parse a decimal integer span, exactly as `int_parse_spec` says.
pub fn parse_int_chars(s: &str) -> (r: Result<i64, Error>)
    ensures
        r == int_parse_spec(s@),
{
    let n = s.unicode_len();
    if n == 0 {
        return Err(Error::InvalidToken);
    }
    let mut acc: i64 = 0;
    let mut i: usize = 0;
    while i < n
        invariant
            n == s@.len(),
            i <= n,
            int_parse_from(s@, 0, 0) == int_parse_from(s@, i as int, acc),
        decreases n - i,
    {
        let c = s.get_char(i);
        let u = c as u32;
        if !(48 <= u && u <= 57) {
            return Err(Error::InvalidToken);
        }
        let d = (u - 48) as i64;
        let m = match acc.checked_mul(10) {
            Some(m) => m,
            None => {
                return Err(Error::InvalidToken);
            },
        };
        acc = match m.checked_add(d) {
            Some(v) => v,
            None => {
                return Err(Error::InvalidToken);
            },
        };
        i = i + 1;
    }
    Ok(acc)
}

/// The bits of the float that a literal span denotes, or nothing for a span
/// that is no float: a fixed function of the characters alone.
pub uninterp spec fn float_bits_opt(s: Seq<char>) -> Option<u64>;

/// Relies on nom's `double` parser: on the same text it always returns the
/// same float, here handed on as its bit pattern, and it consumes the whole
/// span or the span is refused.
#[verifier::external_body]
fn parse_float_bits(s: &str) -> (r: Option<u64>)
    ensures
        r == float_bits_opt(s@),
{
    match nom::number::complete::double::<&str, nom::error::Error<&str>>(s) {
        Ok((rest, v)) => {
            if rest.is_empty() {
                Some(v.to_bits())
            } else {
                None
            }
        },
        Err(_) => None,
    }
}

/// One consultation of the library during promotion: the request — the
/// accumulated namespace texts, in order, and the identifier text — paired
/// with what `Library::from_string` answered to it.
pub type Resolution<T> = ((Seq<Seq<char>>, Seq<char>), Result<T, Error>);

/// What the promotion pass does from slot `i` on, with the interner state
/// `names`/`values`, the pending namespace accumulator `acc`, and the
/// library's answers `calls` to the resolution requests promotion makes, in
/// order.
///
/// Each token is replaced in place by the node it denotes: literal spans are
/// parsed, operator tokens become instructions with both children defaulted,
/// variable identifiers are interned, the synthesized zero becomes the
/// literal zero, a namespace marker pushes its span onto the accumulator, and
/// a dangling partial marker is refused, as is an accumulator left unconsumed
/// at the end. Brackets and commas stay as structural tokens.
///
/// A function identifier consumes the next entry of `calls`, whose request
/// part must be exactly the accumulated namespace texts and the identifier's
/// own span text — with anything else this function says nothing. An answer
/// of `Ok(f)` makes the slot a function node holding `f` with no arguments
/// yet and clears the accumulator; an answer of `Err(e)` is the result of the
/// whole pass, unchanged.
pub open spec fn promote_from<T>(
    m: Seq<ElemModel<T>>,
    src: Seq<char>,
    i: int,
    names: Seq<Seq<char>>,
    values: Seq<Value>,
    acc: Seq<Seq<char>>,
    calls: Seq<Resolution<T>>,
) -> Result<(Seq<ElemModel<T>>, Seq<Seq<char>>, Seq<Value>), Error>
    decreases m.len() - i,
{
    if i < 0 || i >= m.len() {
        if acc.len() > 0 {
            Err(Error::UnexpectedToken)
        } else {
            Ok((m, names, values))
        }
    } else {
        match m[i] {
            ElemModel::Tok(t) => {
                if !(t.start <= t.end <= src.len()) {
                    Err(Error::InvalidToken)
                } else {
                    let text = src.subrange(t.start as int, t.end as int);
                    match t.token_kind {
                        TokenKind::Literal(Literal::Int) => match int_parse_spec(text) {
                            Ok(v) => promote_from(
                                m.update(i, ElemModel::Lit(Value::Int(v))),
                                src,
                                i + 1,
                                names,
                                values,
                                acc,
                                calls,
                            ),
                            Err(e) => Err(e),
                        },
                        TokenKind::Literal(Literal::Float) => match float_bits_opt(text) {
                            Some(b) => promote_from(
                                m.update(i, ElemModel::Lit(Value::Float(b))),
                                src,
                                i + 1,
                                names,
                                values,
                                acc,
                                calls,
                            ),
                            None => Err(Error::InvalidToken),
                        },
                        TokenKind::Special(Special::NegZero) => promote_from(
                            m.update(i, ElemModel::Lit(Value::Int(0))),
                            src,
                            i + 1,
                            names,
                            values,
                            acc,
                            calls,
                        ),
                        TokenKind::Operator(op) => promote_from(
                            m.update(
                                i,
                                ElemModel::Instr(
                                    Instruction {
                                        operator: op,
                                        lhs: ElementIndex(0),
                                        rhs: ElementIndex(0),
                                    },
                                ),
                            ),
                            src,
                            i + 1,
                            names,
                            values,
                            acc,
                            calls,
                        ),
                        TokenKind::Identifier(Identifier::Variable) => {
                            let (n2, v2, j) = intern_spec(names, values, text);
                            promote_from(
                                m.update(i, ElemModel::Var(VariableIndex(j as usize))),
                                src,
                                i + 1,
                                n2,
                                v2,
                                acc,
                                calls,
                            )
                        },
                        TokenKind::Identifier(Identifier::Function) => {
                            if calls.len() > 0 && calls.first().0 == (acc, text) {
                                match calls.first().1 {
                                    Ok(f) => promote_from(
                                        m.update(i, ElemModel::Fun(f, Seq::empty())),
                                        src,
                                        i + 1,
                                        names,
                                        values,
                                        Seq::empty(),
                                        calls.drop_first(),
                                    ),
                                    Err(e) => Err(e),
                                }
                            } else {
                                arbitrary()
                            }
                        },
                        TokenKind::Special(Special::Namespace) => promote_from(
                            m,
                            src,
                            i + 1,
                            names,
                            values,
                            acc.push(text),
                            calls,
                        ),
                        TokenKind::Special(Special::NamespacePartial) => Err(Error::UnexpectedToken),
                        _ => promote_from(m, src, i + 1, names, values, acc, calls),
                    }
                }
            },
            _ => promote_from(m, src, i + 1, names, values, acc, calls),
        }
    }
}

/// How one run of promotion over the whole arena relates its outcome and the
/// final arena and interner to the library answers `calls`.
pub open spec fn promotes_to<T>(
    m0: Seq<ElemModel<T>>,
    src: Seq<char>,
    names0: Seq<Seq<char>>,
    values0: Seq<Value>,
    calls: Seq<Resolution<T>>,
    outcome: Result<(), Error>,
    m2: Seq<ElemModel<T>>,
    ns2: Seq<Seq<char>>,
    vs2: Seq<Value>,
) -> bool {
    match promote_from(m0, src, 0, names0, values0, Seq::<Seq<char>>::empty(), calls) {
        Ok((mr, nsr, vsr)) => outcome is Ok && mr == m2 && nsr == ns2 && vsr == vs2,
        Err(e) => outcome == Err::<(), Error>(e),
    }
}

/// Promotion never makes a function node out of an arena that holds neither a
/// function-identifier token nor a function node already.
pub proof fn lemma_promote_no_function_node<T>(
    m: Seq<ElemModel<T>>,
    src: Seq<char>,
    i: int,
    names: Seq<Seq<char>>,
    values: Seq<Value>,
    acc: Seq<Seq<char>>,
    calls: Seq<Resolution<T>>,
)
    requires
        no_function_token(m),
        crate::element::no_function_node(m),
    ensures
        promote_from(m, src, i, names, values, acc, calls) matches Ok(res)
            ==> crate::element::no_function_node(res.0),
    decreases m.len() - i,
{
    if 0 <= i < m.len() {
        match m[i] {
            ElemModel::Tok(t) => {
                if t.start <= t.end <= src.len() {
                    let text = src.subrange(t.start as int, t.end as int);
                    match t.token_kind {
                        TokenKind::Literal(Literal::Int) => {
                            if let Ok(v) = int_parse_spec(text) {
                                let m2 = m.update(i, ElemModel::Lit(Value::Int(v)));
                                lemma_promote_no_function_node(m2, src, i + 1, names, values, acc, calls);
                            }
                        },
                        TokenKind::Literal(Literal::Float) => {
                            if let Some(b) = float_bits_opt(text) {
                                let m2 = m.update(i, ElemModel::Lit(Value::Float(b)));
                                lemma_promote_no_function_node(m2, src, i + 1, names, values, acc, calls);
                            }
                        },
                        TokenKind::Special(Special::NegZero) => {
                            let m2 = m.update(i, ElemModel::Lit(Value::Int(0)));
                            lemma_promote_no_function_node(m2, src, i + 1, names, values, acc, calls);
                        },
                        TokenKind::Operator(op) => {
                            let m2 = m.update(
                                i,
                                ElemModel::Instr(
                                    Instruction {
                                        operator: op,
                                        lhs: ElementIndex(0),
                                        rhs: ElementIndex(0),
                                    },
                                ),
                            );
                            lemma_promote_no_function_node(m2, src, i + 1, names, values, acc, calls);
                        },
                        TokenKind::Identifier(Identifier::Variable) => {
                            let (n2, v2, j) = intern_spec(names, values, text);
                            let m2 = m.update(i, ElemModel::Var(VariableIndex(j as usize)));
                            lemma_promote_no_function_node(m2, src, i + 1, n2, v2, acc, calls);
                        },
                        TokenKind::Identifier(Identifier::Function) => {
                            assert(false);
                        },
                        TokenKind::Special(Special::Namespace) => {
                            lemma_promote_no_function_node(
                                m,
                                src,
                                i + 1,
                                names,
                                values,
                                acc.push(text),
                                calls,
                            );
                        },
                        TokenKind::Special(Special::NamespacePartial) => {},
                        _ => {
                            lemma_promote_no_function_node(m, src, i + 1, names, values, acc, calls);
                        },
                    }
                }
            },
            _ => {
                lemma_promote_no_function_node(m, src, i + 1, names, values, acc, calls);
            },
        }
    }
}

impl<T: Library> ExpressionStorage<T> {
    /// Promote every token in the arena to the node it denotes, in place,
    /// exactly as `promote_from` says under the library answers the pass
    /// received, which it hands back: what `Library::from_string` answered,
    /// each to the accumulated namespace texts and the identifier text of one
    /// function token, in arena order. On an arena without function
    /// identifiers no answer is ever taken, and the second clause pins the
    /// result with no answers at all. The arena's length never changes, and
    /// slots at or after the first failure keep their tokens; a failed
    /// promotion is never evaluated, because the caller leaves the expression
    /// without a root.
    pub fn to_nodes(&mut self, src: &str) -> (r: (Result<(), Error>, Ghost<Seq<Resolution<T>>>))
        ensures
            final(self).elements@.len() == old(self).elements@.len(),
            promotes_to(
                elems_model(old(self).elements@),
                src@,
                name_views(old(self).variables.names@),
                old(self).variables.values@,
                r.1@,
                r.0,
                elems_model(final(self).elements@),
                name_views(final(self).variables.names@),
                final(self).variables.values@,
            ),
            no_function_token(elems_model(old(self).elements@)) ==> match promote_from(
                elems_model(old(self).elements@),
                src@,
                0,
                name_views(old(self).variables.names@),
                old(self).variables.values@,
                Seq::<Seq<char>>::empty(),
                Seq::<Resolution<T>>::empty(),
            ) {
                Ok((m2, ns2, vs2)) => r.0 is Ok && elems_model(final(self).elements@) == m2
                    && name_views(final(self).variables.names@) == ns2
                    && final(self).variables.values@ == vs2,
                Err(e) => r.0 == Err::<(), Error>(e),
            },
    {
        let ghost m0 = elems_model(old(self).elements@);
        let ghost names0 = name_views(old(self).variables.names@);
        let ghost values0 = old(self).variables.values@;
        let n = self.elements.len();
        let mut acc: Vec<String> = Vec::new();
        let ghost mut calls: Seq<Resolution<T>> = Seq::empty();
        proof {
            assert(name_views(acc@) =~= Seq::<Seq<char>>::empty());
            assert forall|rest: Seq<Resolution<T>>|
                promote_from(m0, src@, 0, names0, values0, Seq::<Seq<char>>::empty(), calls + rest)
                    == promote_from(m0, src@, 0, names0, values0, Seq::<Seq<char>>::empty(), rest) by {
                assert(calls + rest =~= rest);
            }
        }
        let mut i: usize = 0;
        while i < n
            invariant
                n == self.elements@.len(),
                n == old(self).elements@.len(),
                m0 == elems_model(old(self).elements@),
                names0 == name_views(old(self).variables.names@),
                values0 == old(self).variables.values@,
                i <= n,
                forall|j: int| i <= j < n ==> self.elements@[j] == old(self).elements@[j],
                forall|rest: Seq<Resolution<T>>|
                    promote_from(m0, src@, 0, names0, values0, Seq::<Seq<char>>::empty(), calls + rest)
                        == promote_from(
                        elems_model(self.elements@),
                        src@,
                        i as int,
                        name_views(self.variables.names@),
                        self.variables.values@,
                        name_views(acc@),
                        rest,
                    ),
                no_function_token(m0) ==> promote_from(
                    m0,
                    src@,
                    0,
                    names0,
                    values0,
                    Seq::<Seq<char>>::empty(),
                    Seq::<Resolution<T>>::empty(),
                ) == promote_from(
                    elems_model(self.elements@),
                    src@,
                    i as int,
                    name_views(self.variables.names@),
                    self.variables.values@,
                    name_views(acc@),
                    Seq::<Resolution<T>>::empty(),
                ),
            decreases n - i,
        {
            let ghost elems_in = self.elements@;
            let ghost acc_in = acc@;
            let ghost names_in = name_views(self.variables.names@);
            let ghost values_in = self.variables.values@;
            let ghost calls_in = calls;
            let ghost mut consumed: Seq<Resolution<T>> = Seq::empty();
            assert(elems_model(elems_in)[i as int] == elem_model(elems_in[i as int]));
            let t: Token = match &self.elements[i] {
                Element::Token(t) => *t,
                Element::Node(_) => {
                    proof {
                        assert forall|rest: Seq<Resolution<T>>|
                            promote_from(
                                m0,
                                src@,
                                0,
                                names0,
                                values0,
                                Seq::<Seq<char>>::empty(),
                                calls + rest,
                            ) == promote_from(
                                elems_model(self.elements@),
                                src@,
                                i as int + 1,
                                name_views(self.variables.names@),
                                self.variables.values@,
                                name_views(acc@),
                                rest,
                            ) by {
                            assert(promote_from(
                                m0,
                                src@,
                                0,
                                names0,
                                values0,
                                Seq::<Seq<char>>::empty(),
                                calls + rest,
                            ) == promote_from(
                                elems_model(self.elements@),
                                src@,
                                i as int,
                                name_views(self.variables.names@),
                                self.variables.values@,
                                name_views(acc@),
                                rest,
                            ));
                        }
                    }
                    i = i + 1;
                    continue ;
                },
            };
            assert(elems_model(self.elements@)[i as int] matches ElemModel::Tok(tk) && tk == t);
            if !(t.start <= t.end && t.end <= src.unicode_len()) {
                proof {
                    assert(calls + Seq::<Resolution<T>>::empty() =~= calls);
                    assert(promotes_to(
                        m0,
                        src@,
                        names0,
                        values0,
                        calls,
                        Err::<(), Error>(Error::InvalidToken),
                        elems_model(self.elements@),
                        name_views(self.variables.names@),
                        self.variables.values@,
                    ));
                }
                return (Err(Error::InvalidToken), Ghost(calls));
            }
            let text = t.slice(src);
            assert(text@ == src@.subrange(t.start as int, t.end as int));
            match t.token_kind {
                TokenKind::Literal(Literal::Int) => {
                    let v = match parse_int_chars(text) {
                        Ok(v) => v,
                        Err(e) => {
                            proof {
                                assert(calls + Seq::<Resolution<T>>::empty() =~= calls);
                                assert(promotes_to(
                                    m0,
                                    src@,
                                    names0,
                                    values0,
                                    calls,
                                    Err::<(), Error>(e),
                                    elems_model(self.elements@),
                                    name_views(self.variables.names@),
                                    self.variables.values@,
                                ));
                            }
                            return (Err(e), Ghost(calls));
                        },
                    };
                    self.elements[i] = Element::Node(Node::Literal(Value::Int(v)));
                },
                TokenKind::Literal(Literal::Float) => {
                    let b = match parse_float_bits(text) {
                        Some(b) => b,
                        None => {
                            proof {
                                assert(calls + Seq::<Resolution<T>>::empty() =~= calls);
                                assert(promotes_to(
                                    m0,
                                    src@,
                                    names0,
                                    values0,
                                    calls,
                                    Err::<(), Error>(Error::InvalidToken),
                                    elems_model(self.elements@),
                                    name_views(self.variables.names@),
                                    self.variables.values@,
                                ));
                            }
                            return (Err(Error::InvalidToken), Ghost(calls));
                        },
                    };
                    self.elements[i] = Element::Node(Node::Literal(Value::Float(b)));
                },
                TokenKind::Special(Special::NegZero) => {
                    self.elements[i] = Element::Node(Node::Literal(Value::Int(0)));
                },
                TokenKind::Operator(op) => {
                    self.elements[i] = Element::Node(
                        Node::Instruction(
                            Instruction { operator: op, lhs: ElementIndex(0), rhs: ElementIndex(0) },
                        ),
                    );
                },
                TokenKind::Identifier(Identifier::Variable) => {
                    let vi = self.variables.find_or_set(text);
                    self.elements[i] = Element::Node(Node::Variable(vi));
                },
                TokenKind::Identifier(Identifier::Function) => {
                    proof {
                        assert(self.elements@[i as int] == old(self).elements@[i as int]);
                        assert(m0[i as int] == elem_model(old(self).elements@[i as int]));
                        assert(!no_function_token(m0));
                    }
                    let ghost request = (name_views(acc@), text@);
                    let f = match T::from_string(acc.as_slice(), text) {
                        Ok(f) => f,
                        Err(e) => {
                            proof {
                                let entry = (request, Err::<T, Error>(e));
                                let pre = calls;
                                calls = calls.push(entry);
                                assert(calls =~= pre + seq![entry]);
                                assert(promote_from(
                                    elems_model(self.elements@),
                                    src@,
                                    i as int,
                                    name_views(self.variables.names@),
                                    self.variables.values@,
                                    name_views(acc@),
                                    seq![entry],
                                ) == Err::<(Seq<ElemModel<T>>, Seq<Seq<char>>, Seq<Value>), Error>(e));
                                assert(promotes_to(
                                    m0,
                                    src@,
                                    names0,
                                    values0,
                                    calls,
                                    Err::<(), Error>(e),
                                    elems_model(self.elements@),
                                    name_views(self.variables.names@),
                                    self.variables.values@,
                                ));
                            }
                            return (Err(e), Ghost(calls));
                        },
                    };
                    proof {
                        consumed = seq![(request, Ok::<T, Error>(f))];
                        calls = calls.push((request, Ok::<T, Error>(f)));
                    }
                    self.elements[i] = Element::Node(
                        Node::Function(FunctionNode { function: f, args: Vec::new() }),
                    );
                    acc.clear();
                },
                TokenKind::Special(Special::Namespace) => {
                    acc.push(text.to_owned());
                },
                TokenKind::Special(Special::NamespacePartial) => {
                    proof {
                        assert(calls + Seq::<Resolution<T>>::empty() =~= calls);
                        assert(promotes_to(
                            m0,
                            src@,
                            names0,
                            values0,
                            calls,
                            Err::<(), Error>(Error::UnexpectedToken),
                            elems_model(self.elements@),
                            name_views(self.variables.names@),
                            self.variables.values@,
                        ));
                    }
                    return (Err(Error::UnexpectedToken), Ghost(calls));
                },
                _ => {},
            }
            proof {
                if self.elements@ != elems_in {
                    lemma_model_update(elems_in, i as int, self.elements@[i as int]);
                }
                if acc@.len() > acc_in.len() {
                    assert(name_views(acc@) =~= name_views(acc_in).push(
                        src@.subrange(t.start as int, t.end as int),
                    ));
                }
                if acc@.len() < acc_in.len() {
                    assert(name_views(acc@) =~= Seq::<Seq<char>>::empty());
                }
                assert(calls =~= calls_in + consumed);
                assert forall|rest: Seq<Resolution<T>>|
                    promote_from(m0, src@, 0, names0, values0, Seq::<Seq<char>>::empty(), calls + rest)
                        == promote_from(
                        elems_model(self.elements@),
                        src@,
                        i as int + 1,
                        name_views(self.variables.names@),
                        self.variables.values@,
                        name_views(acc@),
                        rest,
                    ) by {
                    assert(calls + rest =~= calls_in + (consumed + rest));
                    assert(promote_from(
                        m0,
                        src@,
                        0,
                        names0,
                        values0,
                        Seq::<Seq<char>>::empty(),
                        calls_in + (consumed + rest),
                    ) == promote_from(
                        elems_model(elems_in),
                        src@,
                        i as int,
                        names_in,
                        values_in,
                        name_views(acc_in),
                        consumed + rest,
                    ));
                    if consumed.len() > 0 {
                        assert((consumed + rest).first() == consumed.first());
                        assert((consumed + rest).drop_first() =~= rest);
                    } else {
                        assert(consumed + rest =~= rest);
                    }
                }
            }
            i = i + 1;
        }
        if acc.len() > 0 {
            proof {
                assert(name_views(acc@).len() == acc@.len());
                assert(calls + Seq::<Resolution<T>>::empty() =~= calls);
                assert(promotes_to(
                    m0,
                    src@,
                    names0,
                    values0,
                    calls,
                    Err::<(), Error>(Error::UnexpectedToken),
                    elems_model(self.elements@),
                    name_views(self.variables.names@),
                    self.variables.values@,
                ));
            }
            return (Err(Error::UnexpectedToken), Ghost(calls));
        }
        proof {
            assert(name_views(acc@).len() == acc@.len());
            assert(calls + Seq::<Resolution<T>>::empty() =~= calls);
            assert(promotes_to(
                m0,
                src@,
                names0,
                values0,
                calls,
                Ok::<(), Error>(()),
                elems_model(self.elements@),
                name_views(self.variables.names@),
                self.variables.values@,
            ));
        }
        (Ok(()), Ghost(calls))
    }
}

} // verus!
