use vstd::prelude::*;

use crate::element::{
    elem_model, elems_model, lemma_model_update, ElemModel, Element, ElementIndex, FunctionNode,
    Instruction, Node,
};
use crate::error::Error;
use crate::storage::ExpressionStorage;
use crate::token::{op_weight_spec, Bracket, Special, Token, TokenKind};
use vstd::pervasive::VecAdditionalExecFns;

verus! {

/// One function call whose argument list the scan is still collecting.
#[derive(Debug, Clone)]
pub struct FnCtx {
    /// The arena slot of the function node.
    pub fn_idx: usize,
    /// The roots of the arguments finished so far.
    pub args: Vec<ElementIndex>,
    /// The bracket depth just before the call's own opening bracket.
    pub entry_depth: usize,
    /// How deep the operator stack stood when the call began: the call's
    /// arguments never fold operators below this line.
    pub ops_floor: usize,
}

/// The specification-level picture of one pending call.
pub struct CtxModel {
    pub fn_idx: usize,
    pub args: Seq<ElementIndex>,
    pub entry_depth: usize,
    pub ops_floor: usize,
}

/// The model of one pending call.
pub open spec fn ctx_model(c: FnCtx) -> CtxModel {
    CtxModel { fn_idx: c.fn_idx, args: c.args@, entry_depth: c.entry_depth, ops_floor: c.ops_floor }
}

/// The model of the whole stack of pending calls.
pub open spec fn ctxs_model(s: Seq<FnCtx>) -> Seq<CtxModel> {
    s.map_values(|c: FnCtx| ctx_model(c))
}

/// Fold the operator stack down into a single subtree root: pop every stacked
/// operator above `floor` whose weight is at least `w`, each time wiring the
/// popped instruction's right child to the subtree finished so far. The
/// result is the rewired arena, the remaining stack, and the root of the
/// folded subtree. A stack entry that does not address an instruction slot is
/// refused.
pub open spec fn pop_ge<T>(
    m: Seq<ElemModel<T>>,
    ops: Seq<(usize, i128)>,
    floor: int,
    w: i128,
    operand: usize,
) -> Result<(Seq<ElemModel<T>>, Seq<(usize, i128)>, usize), Error>
    decreases ops.len(),
{
    if ops.len() <= floor || ops.len() == 0 {
        Ok((m, ops, operand))
    } else {
        let (oi, ow) = ops.last();
        if ow < w {
            Ok((m, ops, operand))
        } else {
            if oi < m.len() && (m[oi as int] matches ElemModel::Instr(_)) {
                match m[oi as int] {
                    ElemModel::Instr(ins) => pop_ge(
                        m.update(
                            oi as int,
                            ElemModel::Instr(
                                Instruction {
                                    operator: ins.operator,
                                    lhs: ins.lhs,
                                    rhs: ElementIndex(operand),
                                },
                            ),
                        ),
                        ops.drop_last(),
                        floor,
                        w,
                        oi,
                    ),
                    _ => Err(Error::InvalidIndex),
                }
            } else {
                Err(Error::InvalidIndex)
            }
        }
    }
}

/// The comparison weight of an operator standing at bracket depth `depth`:
/// its precedence weight plus one bracket offset per nesting level, so that
/// everything inside a bracket outweighs everything outside it.
pub open spec fn weight_at(op: crate::token::Operator, depth: usize) -> i128 {
    (op_weight_spec(op) as int + 100 * (depth as int)) as i128
}

/// The single left-to-right weight-resolution scan, from slot `i` on.
///
/// The scan tracks the bracket depth, a stack of operators not yet wired to
/// their right children (weights strictly increase upward), the root of the
/// last finished operand subtree, and a stack of pending calls. A literal,
/// variable or function node is an operand, and two operands in a row are
/// refused; a function node also opens a pending call that collects one
/// argument root per comma, and closes at its matching bracket, whereupon the
/// whole call becomes the operand. An instruction first folds every stacked
/// operator at least as heavy as itself — so equal weights bind left to
/// right — takes the folded subtree as its left child, and goes on the stack;
/// whoever folds it later wires its right child. Opening a bracket deepens
/// every weight inside; a close below depth zero, or a depth left open at the
/// end, is refused as unbalanced. The slot that folds out last is the root of
/// the whole expression.
pub open spec fn scan_from<T>(
    m: Seq<ElemModel<T>>,
    i: int,
    depth: usize,
    ops: Seq<(usize, i128)>,
    operand: Option<usize>,
    fns: Seq<CtxModel>,
) -> Result<(Seq<ElemModel<T>>, usize), Error>
    decreases m.len() - i,
{
    if i < 0 {
        Err(Error::InvalidIndex)
    } else if i >= m.len() {
        if depth != 0 || fns.len() > 0 {
            Err(Error::UnbalancedBracket)
        } else {
            match operand {
                None => Err(Error::UnexpectedToken),
                Some(od) => match pop_ge(m, ops, 0, i128::MIN, od) {
                    Ok((m2, ops2, root)) => Ok((m2, root)),
                    Err(e) => Err(e),
                },
            }
        }
    } else {
        match m[i] {
            ElemModel::Tok(t) => match t.token_kind {
                TokenKind::Bracket(Bracket::Opened) => scan_from(
                    m,
                    i + 1,
                    (depth + 1) as usize,
                    ops,
                    operand,
                    fns,
                ),
                TokenKind::Bracket(Bracket::Closed) => {
                    if depth == 0 {
                        Err(Error::UnbalancedBracket)
                    } else if fns.len() > 0 && depth as int == fns.last().entry_depth as int + 1 {
                        match operand {
                            None => Err(Error::UnexpectedToken),
                            Some(od) => match pop_ge(m, ops, fns.last().ops_floor as int, i128::MIN, od) {
                                Err(e) => Err(e),
                                Ok((m2r, ops2, root)) => {
                                    // sequence updates keep the length; pin it for the measure
                                    let m2 = if m2r.len() == m.len() { m2r } else { m };
                                    let ctx = fns.last();
                                    if ctx.fn_idx < m2.len() && (m2[ctx.fn_idx as int] matches ElemModel::Fun(_, _)) {
                                        match m2[ctx.fn_idx as int] {
                                            ElemModel::Fun(f, _) => scan_from(
                                                m2.update(
                                                    ctx.fn_idx as int,
                                                    ElemModel::Fun(
                                                        f,
                                                        ctx.args.push(ElementIndex(root)),
                                                    ),
                                                ),
                                                i + 1,
                                                (depth - 1) as usize,
                                                ops2,
                                                Some(ctx.fn_idx),
                                                fns.drop_last(),
                                            ),
                                            _ => Err(Error::InvalidIndex),
                                        }
                                    } else {
                                        Err(Error::InvalidIndex)
                                    }
                                },
                            },
                        }
                    } else {
                        scan_from(m, i + 1, (depth - 1) as usize, ops, operand, fns)
                    }
                },
                TokenKind::Special(Special::Comma) => {
                    if fns.len() > 0 && depth as int == fns.last().entry_depth as int + 1 {
                        match operand {
                            None => Err(Error::UnexpectedToken),
                            Some(od) => match pop_ge(m, ops, fns.last().ops_floor as int, i128::MIN, od) {
                                Err(e) => Err(e),
                                Ok((m2r, ops2, root)) => {
                                    let m2 = if m2r.len() == m.len() { m2r } else { m };
                                    let ctx = fns.last();
                                    scan_from(
                                        m2,
                                        i + 1,
                                        depth,
                                        ops2,
                                        None,
                                        fns.drop_last().push(
                                            CtxModel {
                                                args: ctx.args.push(ElementIndex(root)),
                                                ..ctx
                                            },
                                        ),
                                    )
                                },
                            },
                        }
                    } else {
                        Err(Error::UnexpectedToken)
                    }
                },
                _ => scan_from(m, i + 1, depth, ops, operand, fns),
            },
            ElemModel::Lit(_) | ElemModel::Var(_) => {
                if operand is Some {
                    Err(Error::UnexpectedToken)
                } else {
                    scan_from(m, i + 1, depth, ops, Some(i as usize), fns)
                }
            },
            ElemModel::Fun(_, _) => {
                if operand is Some {
                    Err(Error::UnexpectedToken)
                } else {
                    scan_from(
                        m,
                        i + 1,
                        depth,
                        ops,
                        None,
                        fns.push(
                            CtxModel {
                                fn_idx: i as usize,
                                args: Seq::empty(),
                                entry_depth: depth,
                                ops_floor: ops.len() as usize,
                            },
                        ),
                    )
                }
            },
            ElemModel::Instr(ins) => {
                match operand {
                    None => Err(Error::UnexpectedToken),
                    Some(od) => {
                        let w = weight_at(ins.operator, depth);
                        let floor: int = if fns.len() > 0 {
                            fns.last().ops_floor as int
                        } else {
                            0
                        };
                        match pop_ge(m, ops, floor, w, od) {
                            Err(e) => Err(e),
                            Ok((m2r, ops2, root)) => scan_from(
                                (if m2r.len() == m.len() { m2r } else { m }).update(
                                    i,
                                    ElemModel::Instr(
                                        Instruction {
                                            operator: ins.operator,
                                            lhs: ElementIndex(root),
                                            rhs: ins.rhs,
                                        },
                                    ),
                                ),
                                i + 1,
                                depth,
                                ops2.push((i as usize, w)),
                                None,
                                fns,
                            ),
                        }
                    },
                }
            },
        }
    }
}

/// Folding the operator stack only rewires instruction slots: an arena
/// without function nodes stays without them.
pub proof fn lemma_pop_ge_no_function_node<T>(
    m: Seq<ElemModel<T>>,
    ops: Seq<(usize, i128)>,
    floor: int,
    w: i128,
    operand: usize,
)
    requires
        crate::element::no_function_node(m),
    ensures
        pop_ge(m, ops, floor, w, operand) matches Ok(res)
            ==> crate::element::no_function_node(res.0),
    decreases ops.len(),
{
    if !(ops.len() <= floor || ops.len() == 0) {
        let (oi, ow) = ops.last();
        if !(ow < w) {
            if oi < m.len() && (m[oi as int] matches ElemModel::Instr(_)) {
                if let ElemModel::Instr(ins) = m[oi as int] {
                    let m2 = m.update(
                        oi as int,
                        ElemModel::Instr(
                            Instruction {
                                operator: ins.operator,
                                lhs: ins.lhs,
                                rhs: ElementIndex(operand),
                            },
                        ),
                    );
                    lemma_pop_ge_no_function_node(m2, ops.drop_last(), floor, w, oi);
                }
            }
        }
    }
}

/// On an arena without function nodes the scan never opens a pending call,
/// and everything it rewires is an instruction: the result is again without
/// function nodes.
pub proof fn lemma_scan_no_function_node<T>(
    m: Seq<ElemModel<T>>,
    i: int,
    depth: usize,
    ops: Seq<(usize, i128)>,
    operand: Option<usize>,
)
    requires
        crate::element::no_function_node(m),
    ensures
        scan_from(m, i, depth, ops, operand, Seq::<CtxModel>::empty()) matches Ok(res)
            ==> crate::element::no_function_node(res.0),
    decreases m.len() - i,
{
    let fns = Seq::<CtxModel>::empty();
    if i >= m.len() {
        if depth == 0 && fns.len() == 0 {
            if let Some(od) = operand {
                lemma_pop_ge_no_function_node(m, ops, 0, i128::MIN, od);
            }
        }
    } else if 0 <= i {
        match m[i] {
            ElemModel::Tok(t) => match t.token_kind {
                TokenKind::Bracket(Bracket::Opened) => {
                    lemma_scan_no_function_node(m, i + 1, (depth + 1) as usize, ops, operand);
                },
                TokenKind::Bracket(Bracket::Closed) => {
                    if depth != 0 {
                        lemma_scan_no_function_node(m, i + 1, (depth - 1) as usize, ops, operand);
                    }
                },
                _ => {
                    lemma_scan_no_function_node(m, i + 1, depth, ops, operand);
                },
            },
            ElemModel::Lit(_) | ElemModel::Var(_) => {
                if operand is None {
                    lemma_scan_no_function_node(m, i + 1, depth, ops, Some(i as usize));
                }
            },
            ElemModel::Fun(_, _) => {
                assert(false);
            },
            ElemModel::Instr(ins) => {
                if let Some(od) = operand {
                    let w = weight_at(ins.operator, depth);
                    lemma_pop_ge_no_function_node(m, ops, 0, w, od);
                    if let Ok((m2r, ops2, root)) = pop_ge(m, ops, 0, w, od) {
                        let m3 = (if m2r.len() == m.len() {
                            m2r
                        } else {
                            m
                        }).update(
                            i,
                            ElemModel::Instr(
                                Instruction {
                                    operator: ins.operator,
                                    lhs: ElementIndex(root),
                                    rhs: ins.rhs,
                                },
                            ),
                        );
                        lemma_scan_no_function_node(
                            m3,
                            i + 1,
                            depth,
                            ops2.push((i as usize, w)),
                            None,
                        );
                    }
                }
            },
        }
    }
}

impl<T> ExpressionStorage<T> {
    /// Fold the operator stack down to `floor`, wiring right children,
    /// exactly as `pop_ge` says.
    fn pop_fold(&mut self, ops: &mut Vec<(usize, i128)>, floor: usize, w: i128, operand: usize) -> (r:
        Result<usize, Error>)
        ensures
            final(self).variables == old(self).variables,
            final(self).elements@.len() == old(self).elements@.len(),
            match pop_ge(elems_model(old(self).elements@), old(ops)@, floor as int, w, operand) {
                Ok((m2, ops2, root)) => r matches Ok(rt) && rt == root && elems_model(
                    final(self).elements@,
                ) == m2 && final(ops)@ == ops2,
                Err(e) => r == Err::<usize, Error>(e),
            },
    {
        let mut cur = operand;
        loop
            invariant
                self.variables == old(self).variables,
                self.elements@.len() == old(self).elements@.len(),
                pop_ge(elems_model(old(self).elements@), old(ops)@, floor as int, w, operand)
                    == pop_ge(elems_model(self.elements@), ops@, floor as int, w, cur),
            decreases ops@.len(),
        {
            if ops.len() <= floor {
                return Ok(cur);
            }
            let (oi, ow) = ops[ops.len() - 1];
            if ow < w {
                return Ok(cur);
            }
            let ghost elems_in = self.elements@;
            if oi >= self.elements.len() {
                return Err(Error::InvalidIndex);
            }
            assert(elems_model(elems_in)[oi as int] == elem_model(elems_in[oi as int]));
            let ins: Instruction = match &self.elements[oi] {
                Element::Node(Node::Instruction(ins)) => *ins,
                _ => {
                    return Err(Error::InvalidIndex);
                },
            };
            ops.pop();
            self.elements[oi] = Element::Node(
                Node::Instruction(
                    Instruction { operator: ins.operator, lhs: ins.lhs, rhs: ElementIndex(cur) },
                ),
            );
            proof {
                lemma_model_update(elems_in, oi as int, self.elements@[oi as int]);
            }
            cur = oi;
        }
    }

    /// The weight-resolution pass: wire every instruction and call in the
    /// arena to its children and find the root, exactly as `scan_from` says,
    /// started on the whole arena at depth zero. On an error the arena may be
    /// left partly wired; a failed compilation is never evaluated, because
    /// the caller leaves the expression without a root.
    pub fn set_indices(&mut self) -> (r: Result<ElementIndex, Error>)
        ensures
            final(self).variables == old(self).variables,
            final(self).elements@.len() == old(self).elements@.len(),
            match scan_from(
                elems_model(old(self).elements@),
                0,
                0,
                Seq::<(usize, i128)>::empty(),
                None,
                Seq::<CtxModel>::empty(),
            ) {
                Ok((m2, root)) => r matches Ok(ri) && ri == ElementIndex(root) && elems_model(
                    final(self).elements@,
                ) == m2,
                Err(e) => r == Err::<ElementIndex, Error>(e),
            },
    {
        let ghost m0 = elems_model(old(self).elements@);
        let n = self.elements.len();
        let mut depth: usize = 0;
        let mut ops: Vec<(usize, i128)> = Vec::new();
        let mut operand: Option<usize> = None;
        let mut fns: Vec<FnCtx> = Vec::new();
        proof {
            assert(ctxs_model(fns@) =~= Seq::<CtxModel>::empty());
        }
        let mut i: usize = 0;
        while i < n
            invariant
                self.variables == old(self).variables,
                n == self.elements@.len(),
                n == old(self).elements@.len(),
                m0 == elems_model(old(self).elements@),
                i <= n,
                depth <= i,
                scan_from(m0, 0, 0, Seq::<(usize, i128)>::empty(), None, Seq::<CtxModel>::empty())
                    == scan_from(
                    elems_model(self.elements@),
                    i as int,
                    depth,
                    ops@,
                    operand,
                    ctxs_model(fns@),
                ),
            decreases n - i,
        {
            let ghost elems_in = self.elements@;
            let ghost fns_in = fns@;
            assert(elems_model(elems_in)[i as int] == elem_model(elems_in[i as int]));
            match &self.elements[i] {
                Element::Token(t) => {
                    let kind = t.token_kind;
                    match kind {
                        TokenKind::Bracket(Bracket::Opened) => {
                            depth = depth + 1;
                        },
                        TokenKind::Bracket(Bracket::Closed) => {
                            if depth == 0 {
                                return Err(Error::UnbalancedBracket);
                            }
                            let close_call = if fns.len() > 0 {
                                fns[fns.len() - 1].entry_depth == depth - 1
                            } else {
                                false
                            };
                            if close_call {
                                let od = match operand {
                                    Some(od) => od,
                                    None => {
                                        return Err(Error::UnexpectedToken);
                                    },
                                };
                                let ctx = match fns.pop() {
                                    Some(c) => c,
                                    None => {
                                        return Err(Error::UnexpectedToken);
                                    },
                                };
                                proof {
                                    assert(ctxs_model(fns_in).last() == ctx_model(ctx));
                                    assert(ctxs_model(fns@) =~= ctxs_model(fns_in).drop_last());
                                }
                                let root = match self.pop_fold(&mut ops, ctx.ops_floor, i128::MIN, od) {
                                    Ok(rt) => rt,
                                    Err(e) => {
                                        return Err(e);
                                    },
                                };
                                let ghost m2 = elems_model(self.elements@);
                                if ctx.fn_idx >= self.elements.len() {
                                    return Err(Error::InvalidIndex);
                                }
                                assert(m2[ctx.fn_idx as int] == elem_model(
                                    self.elements@[ctx.fn_idx as int],
                                ));
                                let mut tmp: Element<T> = Element::Token(Token::new_neg_zero());
                                self.elements.set_and_swap(ctx.fn_idx, &mut tmp);
                                let fnode: FunctionNode<T> = match tmp {
                                    Element::Node(Node::Function(f)) => f,
                                    _ => {
                                        return Err(Error::InvalidIndex);
                                    },
                                };
                                let mut args = ctx.args;
                                args.push(ElementIndex(root));
                                self.elements.set(
                                    ctx.fn_idx,
                                    Element::Node(
                                        Node::Function(
                                            FunctionNode { function: fnode.function, args },
                                        ),
                                    ),
                                );
                                proof {
                                    assert(elems_model(self.elements@) =~= m2.update(
                                        ctx.fn_idx as int,
                                        elem_model(self.elements@[ctx.fn_idx as int]),
                                    ));
                                }
                                operand = Some(ctx.fn_idx);
                                depth = depth - 1;
                            } else {
                                depth = depth - 1;
                            }
                        },
                        TokenKind::Special(Special::Comma) => {
                            let arg_sep = if fns.len() > 0 && depth > 0 {
                                fns[fns.len() - 1].entry_depth == depth - 1
                            } else {
                                false
                            };
                            if !arg_sep {
                                return Err(Error::UnexpectedToken);
                            }
                            let od = match operand {
                                Some(od) => od,
                                None => {
                                    return Err(Error::UnexpectedToken);
                                },
                            };
                            let mut ctx = match fns.pop() {
                                Some(c) => c,
                                None => {
                                    return Err(Error::UnexpectedToken);
                                },
                            };
                            proof {
                                assert(ctxs_model(fns_in).last() == ctx_model(ctx));
                                assert(ctxs_model(fns@) =~= ctxs_model(fns_in).drop_last());
                            }
                            let root = match self.pop_fold(&mut ops, ctx.ops_floor, i128::MIN, od) {
                                Ok(rt) => rt,
                                Err(e) => {
                                    return Err(e);
                                },
                            };
                            let ghost fns_mid = ctxs_model(fns@);
                            ctx.args.push(ElementIndex(root));
                            fns.push(ctx);
                            proof {
                                assert(ctxs_model(fns@) =~= fns_mid.push(ctx_model(ctx)));
                            }
                            operand = None;
                        },
                        _ => {},
                    }
                },
                Element::Node(Node::Literal(_)) | Element::Node(Node::Variable(_)) => {
                    if operand.is_some() {
                        return Err(Error::UnexpectedToken);
                    }
                    operand = Some(i);
                },
                Element::Node(Node::Function(_)) => {
                    if operand.is_some() {
                        return Err(Error::UnexpectedToken);
                    }
                    let ctx = FnCtx {
                        fn_idx: i,
                        args: Vec::new(),
                        entry_depth: depth,
                        ops_floor: ops.len(),
                    };
                    proof {
                        assert(ctx.args@ =~= Seq::<ElementIndex>::empty());
                    }
                    fns.push(ctx);
                    proof {
                        assert(ctxs_model(fns@) =~= ctxs_model(fns_in).push(
                            CtxModel {
                                fn_idx: i as usize,
                                args: Seq::empty(),
                                entry_depth: depth,
                                ops_floor: ops@.len() as usize,
                            },
                        ));
                    }
                    operand = None;
                },
                Element::Node(Node::Instruction(ins)) => {
                    let ins: Instruction = *ins;
                    let od = match operand {
                        Some(od) => od,
                        None => {
                            return Err(Error::UnexpectedToken);
                        },
                    };
                    let w: i128 = (ins.operator.weight() as i128) + 100 * (depth as i128);
                    assert(w == weight_at(ins.operator, depth));
                    let floor: usize = if fns.len() > 0 {
                        let fl = fns[fns.len() - 1].ops_floor;
                        proof {
                            assert(ctxs_model(fns@).last() == ctx_model(fns@.last()));
                        }
                        fl
                    } else {
                        0
                    };
                    let root = match self.pop_fold(&mut ops, floor, w, od) {
                        Ok(rt) => rt,
                        Err(e) => {
                            return Err(e);
                        },
                    };
                    let ghost pre = self.elements@;
                    self.elements[i] = Element::Node(
                        Node::Instruction(
                            Instruction {
                                operator: ins.operator,
                                lhs: ElementIndex(root),
                                rhs: ins.rhs,
                            },
                        ),
                    );
                    proof {
                        lemma_model_update(pre, i as int, self.elements@[i as int]);
                    }
                    ops.push((i, w));
                    operand = None;
                },
            }
            i = i + 1;
        }
        if depth != 0 {
            return Err(Error::UnbalancedBracket);
        }
        if fns.len() > 0 {
            return Err(Error::UnbalancedBracket);
        }
        let od = match operand {
            Some(od) => od,
            None => {
                return Err(Error::UnexpectedToken);
            },
        };
        let root = match self.pop_fold(&mut ops, 0, i128::MIN, od) {
            Ok(rt) => rt,
            Err(e) => {
                return Err(e);
            },
        };
        Ok(ElementIndex(root))
    }
}

} // verus!
