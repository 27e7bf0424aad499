use vstd::prelude::*;

use crate::element::{elem_model, elems_model, no_function_node, ElemModel, Element, ElementIndex, Node};
use crate::error::Error;
use crate::library::Library;
use crate::storage::ExpressionStorage;
use crate::token::op_eval_spec;
use crate::value::Value;

verus! {

/// What evaluating the node at `idx` yields, with `fuel` bounding the
/// remaining tree depth.
///
/// A literal yields its value; a variable yields its current value, or
/// `InvalidVariable` for a slot the table never handed out; an instruction
/// evaluates its left child, then its right child, then applies its operator
/// as `op_eval_spec` says; an index outside the arena, a slot still holding a
/// raw token, or exhausted fuel — which only a cyclically wired arena can
/// reach from a fuel of one more than its length — yields `InvalidIndex`.
/// What a function node's library call returns is outside this
/// specification; `eval_oracle` covers it.
pub open spec fn eval_from<T>(
    m: Seq<ElemModel<T>>,
    values: Seq<Value>,
    idx: int,
    fuel: nat,
) -> Result<Value, Error>
    decreases fuel,
{
    if fuel == 0 {
        Err(Error::InvalidIndex)
    } else if !(0 <= idx < m.len()) {
        Err(Error::InvalidIndex)
    } else {
        match m[idx] {
            ElemModel::Tok(_) => Err(Error::InvalidIndex),
            ElemModel::Lit(v) => Ok(v),
            ElemModel::Var(vi) => if vi.0 < values.len() {
                Ok(values[vi.0 as int])
            } else {
                Err(Error::InvalidVariable)
            },
            ElemModel::Instr(ins) => match eval_from(m, values, ins.lhs.0 as int, (fuel - 1) as nat) {
                Err(e) => Err(e),
                Ok(l) => match eval_from(m, values, ins.rhs.0 as int, (fuel - 1) as nat) {
                    Err(e) => Err(e),
                    Ok(rv) => op_eval_spec(ins.operator, l, rv),
                },
            },
            ElemModel::Fun(_, _) => arbitrary(),
        }
    }
}

/// One dispatch through the library during evaluation: the evaluated argument
/// values handed to `Library::call`, in order, paired with what it answered.
pub type Dispatch = (Seq<Value>, Result<Value, Error>);

/// What evaluating the node at `idx` yields, given the library's answers
/// `calls` to the dispatches evaluation makes, in evaluation order; the
/// answers not consumed are handed back.
///
/// Literals, variables and instructions evaluate as `eval_from` says, an
/// instruction threading the answers through its left child first. A function
/// node evaluates its arguments left to right, as `eval_args` says; their
/// first error is the node's result and the library is not consulted. With
/// every argument evaluated, the node consumes the next answer, whose
/// dispatched values must be exactly the argument values in order — with
/// anything else this function says nothing — and the answer, `Ok` or `Err`,
/// is the node's result unchanged.
pub open spec fn eval_oracle<T>(
    m: Seq<ElemModel<T>>,
    values: Seq<Value>,
    idx: int,
    fuel: nat,
    calls: Seq<Dispatch>,
) -> (Result<Value, Error>, Seq<Dispatch>)
    decreases fuel, 0int,
{
    if fuel == 0 {
        (Err(Error::InvalidIndex), calls)
    } else if !(0 <= idx < m.len()) {
        (Err(Error::InvalidIndex), calls)
    } else {
        match m[idx] {
            ElemModel::Tok(_) => (Err(Error::InvalidIndex), calls),
            ElemModel::Lit(v) => (Ok(v), calls),
            ElemModel::Var(vi) => if vi.0 < values.len() {
                (Ok(values[vi.0 as int]), calls)
            } else {
                (Err(Error::InvalidVariable), calls)
            },
            ElemModel::Instr(ins) => {
                let (rl, rem1) = eval_oracle(m, values, ins.lhs.0 as int, (fuel - 1) as nat, calls);
                match rl {
                    Err(e) => (Err(e), rem1),
                    Ok(l) => {
                        let (rr, rem2) = eval_oracle(
                            m,
                            values,
                            ins.rhs.0 as int,
                            (fuel - 1) as nat,
                            rem1,
                        );
                        match rr {
                            Err(e) => (Err(e), rem2),
                            Ok(rv) => (op_eval_spec(ins.operator, l, rv), rem2),
                        }
                    },
                }
            },
            ElemModel::Fun(_, args) => {
                let (ra, rem1) = eval_args(m, values, args, 0, (fuel - 1) as nat, Seq::empty(), calls);
                match ra {
                    Err(e) => (Err(e), rem1),
                    Ok(vals) => {
                        if rem1.len() > 0 && rem1.first().0 == vals {
                            (rem1.first().1, rem1.drop_first())
                        } else {
                            arbitrary()
                        }
                    },
                }
            },
        }
    }
}

/// Evaluate a function node's arguments from position `j` on, left to right,
/// each with its own depth budget `fuel`, threading the library answers; the
/// first error stops everything, else the collected values extend `acc`.
pub open spec fn eval_args<T>(
    m: Seq<ElemModel<T>>,
    values: Seq<Value>,
    args: Seq<ElementIndex>,
    j: int,
    fuel: nat,
    acc: Seq<Value>,
    calls: Seq<Dispatch>,
) -> (Result<Seq<Value>, Error>, Seq<Dispatch>)
    decreases fuel, args.len() - j + 1,
{
    if j < 0 || j >= args.len() {
        (Ok(acc), calls)
    } else {
        let (r0, rem) = eval_oracle(m, values, args[j].0 as int, fuel, calls);
        match r0 {
            Err(e) => (Err(e), rem),
            Ok(v) => eval_args(m, values, args, j + 1, fuel, acc.push(v), rem),
        }
    }
}

/// How one evaluation relates its result to the library answers `calls`: the
/// evaluation consumes exactly them and passes any further answers through
/// untouched.
pub open spec fn evaluates_to<T>(
    m: Seq<ElemModel<T>>,
    values: Seq<Value>,
    idx: int,
    fuel: nat,
    calls: Seq<Dispatch>,
    r: Result<Value, Error>,
) -> bool {
    forall|rest: Seq<Dispatch>| eval_oracle(m, values, idx, fuel, calls + rest) == (r, rest)
}

impl<T: Library> ExpressionStorage<T> {
    /// Evaluate the subtree rooted at `idx`: exactly as `eval_from` says on
    /// an arena without function nodes, and exactly as `eval_oracle` says
    /// under the library answers the evaluation received, which it hands
    /// back — one per function node, each to that node's evaluated argument
    /// values, in order, with the answer handed on as the node's result
    /// unchanged. The arguments go into a buffer sized by the library's
    /// largest arity.
    pub fn eval_at(&self, idx: usize, fuel: usize) -> (r: (Result<Value, Error>, Ghost<
        Seq<Dispatch>,
    >))
        ensures
            no_function_node(elems_model(self.elements@)) ==> r.0 == eval_from(
                elems_model(self.elements@),
                self.variables.values@,
                idx as int,
                fuel as nat,
            ),
            evaluates_to(
                elems_model(self.elements@),
                self.variables.values@,
                idx as int,
                fuel as nat,
                r.1@,
                r.0,
            ),
        decreases fuel,
    {
        let ghost m = elems_model(self.elements@);
        let ghost vals = self.variables.values@;
        if fuel == 0 {
            proof {
                assert forall|rest: Seq<Dispatch>|
                    eval_oracle(m, vals, idx as int, fuel as nat, Seq::<Dispatch>::empty() + rest)
                        == (Err::<Value, Error>(Error::InvalidIndex), rest) by {
                    assert(Seq::<Dispatch>::empty() + rest =~= rest);
                }
            }
            return (Err(Error::InvalidIndex), Ghost(Seq::empty()));
        }
        if idx >= self.elements.len() {
            proof {
                assert forall|rest: Seq<Dispatch>|
                    eval_oracle(m, vals, idx as int, fuel as nat, Seq::<Dispatch>::empty() + rest)
                        == (Err::<Value, Error>(Error::InvalidIndex), rest) by {
                    assert(Seq::<Dispatch>::empty() + rest =~= rest);
                }
            }
            return (Err(Error::InvalidIndex), Ghost(Seq::empty()));
        }
        assert(elems_model(self.elements@)[idx as int] == elem_model(self.elements@[idx as int]));
        match &self.elements[idx] {
            Element::Token(_) => {
                proof {
                    assert forall|rest: Seq<Dispatch>|
                        eval_oracle(m, vals, idx as int, fuel as nat, Seq::<Dispatch>::empty() + rest)
                            == (Err::<Value, Error>(Error::InvalidIndex), rest) by {
                        assert(Seq::<Dispatch>::empty() + rest =~= rest);
                    }
                }
                (Err(Error::InvalidIndex), Ghost(Seq::empty()))
            },
            Element::Node(Node::Literal(v)) => {
                let v = *v;
                proof {
                    assert forall|rest: Seq<Dispatch>|
                        eval_oracle(m, vals, idx as int, fuel as nat, Seq::<Dispatch>::empty() + rest)
                            == (Ok::<Value, Error>(v), rest) by {
                        assert(Seq::<Dispatch>::empty() + rest =~= rest);
                    }
                }
                (Ok(v), Ghost(Seq::empty()))
            },
            Element::Node(Node::Variable(vi)) => {
                let r0 = match self.variables.get(*vi) {
                    Some(v) => Ok(v),
                    None => Err(Error::InvalidVariable),
                };
                proof {
                    assert forall|rest: Seq<Dispatch>|
                        eval_oracle(m, vals, idx as int, fuel as nat, Seq::<Dispatch>::empty() + rest)
                            == (r0, rest) by {
                        assert(Seq::<Dispatch>::empty() + rest =~= rest);
                    }
                }
                (r0, Ghost(Seq::empty()))
            },
            Element::Node(Node::Instruction(ins)) => {
                let ins = *ins;
                let (rl, g1) = self.eval_at(ins.lhs.0, fuel - 1);
                let ghost c1 = g1@;
                let l = match rl {
                    Ok(v) => v,
                    Err(e) => {
                        proof {
                            assert forall|rest: Seq<Dispatch>|
                                eval_oracle(m, vals, idx as int, fuel as nat, c1 + rest) == (
                                Err::<Value, Error>(e),
                                rest,
                            ) by {
                                assert(eval_oracle(
                                    m,
                                    vals,
                                    ins.lhs.0 as int,
                                    (fuel - 1) as nat,
                                    c1 + rest,
                                ) == (Err::<Value, Error>(e), rest));
                            }
                        }
                        return (Err(e), Ghost(c1));
                    },
                };
                let (rr, g2) = self.eval_at(ins.rhs.0, fuel - 1);
                let ghost c2 = g2@;
                let rv = match rr {
                    Ok(v) => v,
                    Err(e) => {
                        proof {
                            assert forall|rest: Seq<Dispatch>|
                                eval_oracle(m, vals, idx as int, fuel as nat, (c1 + c2) + rest) == (
                                Err::<Value, Error>(e),
                                rest,
                            ) by {
                                assert((c1 + c2) + rest =~= c1 + (c2 + rest));
                                assert(eval_oracle(
                                    m,
                                    vals,
                                    ins.lhs.0 as int,
                                    (fuel - 1) as nat,
                                    c1 + (c2 + rest),
                                ) == (Ok::<Value, Error>(l), c2 + rest));
                                assert(eval_oracle(
                                    m,
                                    vals,
                                    ins.rhs.0 as int,
                                    (fuel - 1) as nat,
                                    c2 + rest,
                                ) == (Err::<Value, Error>(e), rest));
                            }
                        }
                        return (Err(e), Ghost(c1 + c2));
                    },
                };
                let r0 = ins.operator.eval(l, rv);
                proof {
                    assert forall|rest: Seq<Dispatch>|
                        eval_oracle(m, vals, idx as int, fuel as nat, (c1 + c2) + rest) == (r0, rest) by {
                        assert((c1 + c2) + rest =~= c1 + (c2 + rest));
                        assert(eval_oracle(m, vals, ins.lhs.0 as int, (fuel - 1) as nat, c1 + (c2
                            + rest)) == (Ok::<Value, Error>(l), c2 + rest));
                        assert(eval_oracle(m, vals, ins.rhs.0 as int, (fuel - 1) as nat, c2 + rest)
                            == (Ok::<Value, Error>(rv), rest));
                    }
                }
                (r0, Ghost(c1 + c2))
            },
            Element::Node(Node::Function(f)) => {
                proof {
                    assert(!no_function_node(elems_model(self.elements@)));
                }
                let ghost fargs = f.args@;
                let n = f.args.len();
                let mut argv: Vec<Value> = Vec::with_capacity(T::max_args());
                let ghost mut calls_acc: Seq<Dispatch> = Seq::empty();
                let mut k: usize = 0;
                proof {
                    assert forall|rest: Seq<Dispatch>|
                        eval_args(m, vals, fargs, 0, (fuel - 1) as nat, Seq::<Value>::empty(), calls_acc
                            + rest) == eval_args(
                            m,
                            vals,
                            fargs,
                            0,
                            (fuel - 1) as nat,
                            Seq::<Value>::empty(),
                            rest,
                        ) by {
                        assert(calls_acc + rest =~= rest);
                    }
                    assert(argv@ =~= Seq::<Value>::empty());
                }
                while k < n
                    invariant
                        k <= n,
                        n == fargs.len(),
                        fuel >= 1,
                        m == elems_model(self.elements@),
                        vals == self.variables.values@,
                        fargs == f.args@,
                        idx < m.len(),
                        (m[idx as int] matches ElemModel::Fun(ff, aa) && aa == fargs),
                        !no_function_node(elems_model(self.elements@)),
                        argv@.len() == k,
                        forall|rest: Seq<Dispatch>|
                            eval_args(
                                m,
                                vals,
                                fargs,
                                0,
                                (fuel - 1) as nat,
                                Seq::<Value>::empty(),
                                calls_acc + rest,
                            ) == eval_args(m, vals, fargs, k as int, (fuel - 1) as nat, argv@, rest),
                    decreases n - k,
                {
                    let (r0, gk) = self.eval_at(f.args[k].0, fuel - 1);
                    let ghost ck = gk@;
                    let ghost argv_in = argv@;
                    let ghost acc_in = calls_acc;
                    let v = match r0 {
                        Ok(v) => v,
                        Err(e) => {
                            proof {
                                assert forall|rest: Seq<Dispatch>|
                                    eval_oracle(m, vals, idx as int, fuel as nat, (acc_in + ck)
                                        + rest) == (Err::<Value, Error>(e), rest) by {
                                    assert((acc_in + ck) + rest =~= acc_in + (ck + rest));
                                    assert(eval_args(
                                        m,
                                        vals,
                                        fargs,
                                        0,
                                        (fuel - 1) as nat,
                                        Seq::<Value>::empty(),
                                        acc_in + (ck + rest),
                                    ) == eval_args(
                                        m,
                                        vals,
                                        fargs,
                                        k as int,
                                        (fuel - 1) as nat,
                                        argv_in,
                                        ck + rest,
                                    ));
                                    assert(eval_oracle(
                                        m,
                                        vals,
                                        fargs[k as int].0 as int,
                                        (fuel - 1) as nat,
                                        ck + rest,
                                    ) == (Err::<Value, Error>(e), rest));
                                }
                            }
                            return (Err(e), Ghost(acc_in + ck));
                        },
                    };
                    argv.push(v);
                    proof {
                        calls_acc = acc_in + ck;
                        assert forall|rest: Seq<Dispatch>|
                            eval_args(
                                m,
                                vals,
                                fargs,
                                0,
                                (fuel - 1) as nat,
                                Seq::<Value>::empty(),
                                calls_acc + rest,
                            ) == eval_args(
                            m,
                            vals,
                            fargs,
                            k as int + 1,
                            (fuel - 1) as nat,
                            argv@,
                            rest,
                        ) by {
                            assert(calls_acc + rest =~= acc_in + (ck + rest));
                            assert(eval_args(
                                m,
                                vals,
                                fargs,
                                0,
                                (fuel - 1) as nat,
                                Seq::<Value>::empty(),
                                acc_in + (ck + rest),
                            ) == eval_args(
                                m,
                                vals,
                                fargs,
                                k as int,
                                (fuel - 1) as nat,
                                argv_in,
                                ck + rest,
                            ));
                            assert(eval_oracle(
                                m,
                                vals,
                                fargs[k as int].0 as int,
                                (fuel - 1) as nat,
                                ck + rest,
                            ) == (Ok::<Value, Error>(v), rest));
                            assert(argv@ =~= argv_in.push(v));
                        }
                    }
                    k = k + 1;
                }
                let res = f.function.call(argv.as_slice());
                proof {
                    let entry: Dispatch = (argv@, res);
                    assert forall|rest: Seq<Dispatch>|
                        eval_oracle(m, vals, idx as int, fuel as nat, calls_acc.push(entry) + rest)
                            == (res, rest) by {
                        assert(calls_acc.push(entry) + rest =~= calls_acc + (seq![entry] + rest));
                        assert(eval_args(
                            m,
                            vals,
                            fargs,
                            0,
                            (fuel - 1) as nat,
                            Seq::<Value>::empty(),
                            calls_acc + (seq![entry] + rest),
                        ) == eval_args(
                            m,
                            vals,
                            fargs,
                            n as int,
                            (fuel - 1) as nat,
                            argv@,
                            seq![entry] + rest,
                        ));
                        assert((seq![entry] + rest).first() == entry);
                        assert((seq![entry] + rest).drop_first() =~= rest);
                    }
                }
                (res, Ghost(calls_acc.push((argv@, res))))
            },
        }
    }
}

} // verus!
