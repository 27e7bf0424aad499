use vstd::prelude::*;

use crate::compile::{promote_from, promotes_to, Resolution};
use crate::element::{elems_model, no_function_token, ElemModel, Element, ElementIndex};
use crate::error::Error;
use crate::eval::{eval_from, eval_oracle, evaluates_to, Dispatch};
use crate::lex::{push_spec, spans_wf};
use crate::library::Library;
use crate::scan::{scan_from, CtxModel};
use crate::storage::ExpressionStorage;
use crate::value::Value;
use crate::variables::{intern_spec, name_views, VariableIndex};
use vstd::string::{StrSliceExecFns, StringExecFns};

verus! {

/// The expression text with every space removed, from position `i` on.
pub open spec fn strip_from(s: Seq<char>, i: int) -> Seq<char>
    decreases s.len() - i,
{
    if i < 0 || i >= s.len() {
        Seq::empty()
    } else if s[i] == ' ' {
        strip_from(s, i + 1)
    } else {
        seq![s[i]] + strip_from(s, i + 1)
    }
}

/// Remove every space, exactly as `strip_from` says.
fn strip_spaces(s: &str) -> (r: String)
    ensures
        r@ == strip_from(s@, 0),
{
    let n = s.unicode_len();
    let mut out = String::new();
    let mut i: usize = 0;
    while i < n
        invariant
            i <= n,
            n == s@.len(),
            out@ + strip_from(s@, i as int) == strip_from(s@, 0),
        decreases n - i,
    {
        let c = s.get_char(i);
        if c != ' ' {
            let piece = s.substring_char(i, i + 1);
            assert(piece@ =~= seq![s@[i as int]]);
            let ghost out_in = out@;
            out.append(piece);
            proof {
                assert(out@ + strip_from(s@, i + 1) =~= out_in + strip_from(s@, i as int));
            }
        }
        i = i + 1;
    }
    proof {
        assert(out@ + strip_from(s@, n as int) =~= out@);
    }
    out
}

/// Lexing the text from position `i` on into the arena `elems`: each
/// character in turn does what `push_spec` says, and the first refusal stops
/// everything.
pub open spec fn lex_from<T>(src: Seq<char>, i: int, elems: Seq<Element<T>>) -> Result<
    Seq<Element<T>>,
    Error,
>
    decreases src.len() - i,
{
    if i < 0 || i >= src.len() {
        Ok(elems)
    } else {
        match push_spec(elems, i as usize, src[i]) {
            Ok(e2) => lex_from(src, i + 1, e2),
            Err(e) => Err(e),
        }
    }
}

/// What compiling the expression text yields, given the library's answers
/// `calls` to the resolution requests promotion makes: the text with spaces
/// removed is lexed from an empty arena, the tokens are promoted starting
/// from an empty variable table, and the weight scan wires the children and
/// picks the root. The result is the compiled arena, the root slot, the
/// interned names and their initial values. Empty text is refused before
/// anything else runs.
pub open spec fn compile_with<T>(text: Seq<char>, calls: Seq<Resolution<T>>) -> Result<
    (Seq<ElemModel<T>>, usize, Seq<Seq<char>>, Seq<Value>),
    Error,
> {
    let src = strip_from(text, 0);
    if src.len() == 0 {
        Err(Error::EmptyExpression)
    } else {
        match lex_from::<T>(src, 0, Seq::empty()) {
            Err(e) => Err(e),
            Ok(toks) => match promote_from(
                elems_model(toks),
                src,
                0,
                Seq::empty(),
                Seq::empty(),
                Seq::empty(),
                calls,
            ) {
                Err(e) => Err(e),
                Ok((m1, ns, vs)) => match scan_from(
                    m1,
                    0,
                    0,
                    Seq::<(usize, i128)>::empty(),
                    None,
                    Seq::<CtxModel>::empty(),
                ) {
                    Err(e) => Err(e),
                    Ok((m2, root)) => Ok((m2, root, ns, vs)),
                },
            },
        }
    }
}

/// What compiling function-free text yields: no resolution request is ever
/// made, so no library answers are needed.
pub open spec fn compile_spec<T>(text: Seq<char>) -> Result<
    (Seq<ElemModel<T>>, usize, Seq<Seq<char>>, Seq<Value>),
    Error,
> {
    compile_with(text, Seq::<Resolution<T>>::empty())
}

/// How one compilation of `text` relates its outcome, root and storage to the
/// library answers `calls`.
pub open spec fn compiles_to<T>(
    text: Seq<char>,
    calls: Seq<Resolution<T>>,
    outcome: Result<(), Error>,
    root: Option<ElementIndex>,
    m2: Seq<ElemModel<T>>,
    ns2: Seq<Seq<char>>,
    vs2: Seq<Value>,
) -> bool {
    match compile_with::<T>(text, calls) {
        Ok((mr, rootr, nsr, vsr)) => outcome is Ok && root == Some(ElementIndex(rootr)) && mr == m2
            && nsr == ns2 && vsr == vs2,
        Err(e) => outcome == Err::<(), Error>(e),
    }
}

/// True of expression text whose token stream holds no function identifier,
/// so that compiling and evaluating it never consults the library.
pub open spec fn function_free<T>(text: Seq<char>) -> bool {
    match lex_from::<T>(strip_from(text, 0), 0, Seq::<Element<T>>::empty()) {
        Ok(toks) => no_function_token(elems_model(toks)),
        Err(_) => true,
    }
}

/// The depth budget evaluation starts from: one more than the arena length,
/// which no acyclically wired arena can exhaust.
pub open spec fn eval_fuel(len: nat) -> nat {
    if len < usize::MAX {
        (len + 1) as nat
    } else {
        len
    }
}

/// An expression: the original text, the compiled arena with its variable
/// table, and the root slot a successful compilation picked. Compiled once,
/// it can be evaluated any number of times, with variable values changed
/// freely in between.
#[derive(Debug, Clone)]
pub struct Expression<T> {
    /// The expression text, exactly as given.
    pub string: String,
    /// The root slot of the compiled tree; unset until a compilation
    /// succeeds, and cleared again by a failed one.
    pub root: Option<ElementIndex>,
    /// The arena and the variable table.
    pub storage: ExpressionStorage<T>,
}

impl<T: Library> Expression<T> {
    /// A fresh, uncompiled expression holding `expression` as its text.
    pub fn new(expression: String) -> (r: Expression<T>)
        ensures
            r.string@ == expression@,
            r.root is None,
            r.storage.elements@ == Seq::<Element<T>>::empty(),
            r.storage.variables.names@ == Seq::<String>::empty(),
            r.storage.variables.values@ == Seq::<Value>::empty(),
    {
        Expression { string: expression, root: None, storage: ExpressionStorage::new() }
    }

    /// Replace the expression text. The compiled form is dropped with it:
    /// evaluation reports `NotCompiled` until the new text is compiled.
    pub fn set_expression(&mut self, expression: String)
        ensures
            final(self).string@ == expression@,
            final(self).root is None,
    {
        self.string = expression;
        self.root = None;
    }

    /// Compile the expression text: lex it, promote the tokens to nodes and
    /// resolve the weights, exactly as `compile_with` says under the library
    /// answers that `Library::from_string` actually gave — one per function
    /// identifier, each to the namespace texts and identifier text of that
    /// call, with a resolution error becoming the result unchanged. On
    /// function-free text `compile_spec` pins the outcome with no answers at
    /// all. On success the root is set; on a refusal the root stays unset and
    /// the error says what was refused, `EmptyExpression` for text that holds
    /// at most spaces.
    pub fn parse(&mut self) -> (r: Result<(), Error>)
        ensures
            final(self).string@ == old(self).string@,
            r is Err ==> final(self).root is None,
            r is Ok ==> final(self).root is Some,
            strip_from(old(self).string@, 0).len() == 0 ==> r == Err::<(), Error>(
                Error::EmptyExpression,
            ) && final(self).storage.elements@ == Seq::<Element<T>>::empty()
                && final(self).storage.variables.names@ == Seq::<String>::empty()
                && final(self).storage.variables.values@ == Seq::<Value>::empty(),
            exists|calls: Seq<Resolution<T>>|
                compiles_to(
                    old(self).string@,
                    calls,
                    r,
                    final(self).root,
                    elems_model(final(self).storage.elements@),
                    name_views(final(self).storage.variables.names@),
                    final(self).storage.variables.values@,
                ),
            strip_from(old(self).string@, 0).len() > 0 ==> match lex_from::<T>(
                strip_from(old(self).string@, 0),
                0,
                Seq::empty(),
            ) {
                Err(e) => r == Err::<(), Error>(e),
                Ok(_) => true,
            },
            function_free::<T>(old(self).string@) ==> match compile_spec::<T>(old(self).string@) {
                Ok((m2, root, ns, vs)) => r is Ok && final(self).root == Some(ElementIndex(root))
                    && elems_model(final(self).storage.elements@) == m2
                    && name_views(final(self).storage.variables.names@) == ns
                    && final(self).storage.variables.values@ == vs,
                Err(e) => r == Err::<(), Error>(e),
            },
    {
        self.root = None;
        self.storage.clear();
        let src = strip_spaces(self.string.as_str());
        let n = src.as_str().unicode_len();
        if n == 0 {
            proof {
                assert(compiles_to(
                    old(self).string@,
                    Seq::<Resolution<T>>::empty(),
                    Err::<(), Error>(Error::EmptyExpression),
                    None,
                    elems_model(self.storage.elements@),
                    name_views(self.storage.variables.names@),
                    self.storage.variables.values@,
                ));
            }
            return Err(Error::EmptyExpression);
        }
        let mut i: usize = 0;
        while i < n
            invariant
                i <= n,
                n == src@.len(),
                src@ == strip_from(old(self).string@, 0),
                self.string == old(self).string,
                self.root is None,
                self.storage.variables.names@ == Seq::<String>::empty(),
                self.storage.variables.values@ == Seq::<Value>::empty(),
                spans_wf(self.storage.elements@, i),
                lex_from::<T>(src@, 0, Seq::empty()) == lex_from::<T>(
                    src@,
                    i as int,
                    self.storage.elements@,
                ),
            decreases n - i,
        {
            let c = src.as_str().get_char(i);
            let ghost elems_in = self.storage.elements@;
            match self.storage.push(i, c) {
                Ok(()) => {},
                Err(e) => {
                    proof {
                        assert(lex_from::<T>(src@, i as int, elems_in) == Err::<
                            Seq<Element<T>>,
                            Error,
                        >(e));
                        assert(compiles_to(
                            old(self).string@,
                            Seq::<Resolution<T>>::empty(),
                            Err::<(), Error>(e),
                            None,
                            elems_model(self.storage.elements@),
                            name_views(self.storage.variables.names@),
                            self.storage.variables.values@,
                        ));
                    }
                    return Err(e);
                },
            }
            i = i + 1;
        }
        let ghost toks = self.storage.elements@;
        let ghost toks_model = elems_model(toks);
        let ghost pre_names = name_views(self.storage.variables.names@);
        let ghost pre_values = self.storage.variables.values@;
        proof {
            assert(lex_from::<T>(src@, 0, Seq::empty()) == Ok::<Seq<Element<T>>, Error>(toks));
            assert(pre_names =~= Seq::<Seq<char>>::empty());
            assert(pre_values =~= Seq::<Value>::empty());
        }
        let (promoted, w_g) = self.storage.to_nodes(src.as_str());
        let ghost w = w_g@;
        match promoted {
            Ok(()) => {},
            Err(e) => {
                proof {
                    assert(compiles_to(
                        old(self).string@,
                        w,
                        Err::<(), Error>(e),
                        None,
                        elems_model(self.storage.elements@),
                        name_views(self.storage.variables.names@),
                        self.storage.variables.values@,
                    ));
                }
                return Err(e);
            },
        }
        let ghost m1 = elems_model(self.storage.elements@);
        let ghost ns1 = name_views(self.storage.variables.names@);
        let ghost vs1 = self.storage.variables.values@;
        proof {
            assert(promote_from(
                toks_model,
                src@,
                0,
                pre_names,
                pre_values,
                Seq::<Seq<char>>::empty(),
                w,
            ) == Ok::<(Seq<ElemModel<T>>, Seq<Seq<char>>, Seq<Value>), Error>((m1, ns1, vs1)));
        }
        let root = match self.storage.set_indices() {
            Ok(root) => root,
            Err(e) => {
                proof {
                    assert(compiles_to(
                        old(self).string@,
                        w,
                        Err::<(), Error>(e),
                        None,
                        elems_model(self.storage.elements@),
                        name_views(self.storage.variables.names@),
                        self.storage.variables.values@,
                    ));
                }
                return Err(e);
            },
        };
        self.root = Some(root);
        proof {
            assert(compiles_to(
                old(self).string@,
                w,
                Ok::<(), Error>(()),
                self.root,
                elems_model(self.storage.elements@),
                name_views(self.storage.variables.names@),
                self.storage.variables.values@,
            ));
        }
        Ok(())
    }

    /// Evaluate the compiled expression against the current variable values,
    /// starting at the stored root with a depth budget the arena cannot
    /// exhaust: exactly as `eval_from` says on an arena without function
    /// nodes, and exactly as `eval_oracle` says under the answers
    /// `Library::call` actually gave — one per function node, each to that
    /// node's evaluated argument values in order, handed on as the node's
    /// result unchanged. Without a successful compilation the answer is
    /// `NotCompiled`.
    pub fn eval(&self) -> (r: Result<Value, Error>)
        ensures
            self.root is None ==> r == Err::<Value, Error>(Error::NotCompiled),
            match self.root {
                None => r == Err::<Value, Error>(Error::NotCompiled),
                Some(ri) => crate::element::no_function_node(elems_model(self.storage.elements@))
                    ==> r == eval_from(
                    elems_model(self.storage.elements@),
                    self.storage.variables.values@,
                    ri.0 as int,
                    eval_fuel(self.storage.elements@.len()),
                ),
            },
            self.root matches Some(ri) ==> exists|calls: Seq<Dispatch>|
                evaluates_to(
                    elems_model(self.storage.elements@),
                    self.storage.variables.values@,
                    ri.0 as int,
                    eval_fuel(self.storage.elements@.len()),
                    calls,
                    r,
                ),
    {
        let root = match self.root {
            Some(root) => root,
            None => {
                return Err(Error::NotCompiled);
            },
        };
        let len = self.storage.elements.len();
        let fuel = if len < usize::MAX {
            len + 1
        } else {
            len
        };
        let (r0, w_g) = self.storage.eval_at(root.0, fuel);
        proof {
            assert(fuel as nat == eval_fuel(self.storage.elements@.len()));
            assert(evaluates_to(
                elems_model(self.storage.elements@),
                self.storage.variables.values@,
                root.0 as int,
                eval_fuel(self.storage.elements@.len()),
                w_g@,
                r0,
            ));
        }
        r0
    }

    /// Set a variable's value by name, interning the name if it is new, and
    /// hand back its slot. The slot is stable: the same name always answers
    /// with the same slot, so a compiled expression picks the change up on
    /// its next evaluation without being recompiled.
    pub fn set_variable(&mut self, identifier: &str, value: Value) -> (r: VariableIndex)
        ensures
            final(self).string == old(self).string,
            final(self).root == old(self).root,
            final(self).storage.elements@ == old(self).storage.elements@,
            ({
                let (names, values, j) = intern_spec(
                    name_views(old(self).storage.variables.names@),
                    old(self).storage.variables.values@,
                    identifier@,
                );
                name_views(final(self).storage.variables.names@) == names && r == VariableIndex(
                    j as usize,
                ) && final(self).storage.variables.values@ == (if j < values.len() {
                    values.update(j, value)
                } else {
                    values
                })
            }),
    {
        let idx = self.storage.variables.find_or_set(identifier);
        let _ = self.storage.variables.set(idx, value);
        idx
    }
}

/// Function-free text compiles to an arena without function nodes: the lexer
/// leaves only tokens, promotion of a stream without function identifiers
/// makes no function node, and the weight scan only rewires what is already
/// there. So for everything `parse` accepts of such text, `eval`'s exact
/// description applies.
pub proof fn lemma_function_free_compile<T>(text: Seq<char>)
    requires
        function_free::<T>(text),
    ensures
        compile_spec::<T>(text) matches Ok(res) ==> crate::element::no_function_node(res.0),
{
    let src = strip_from(text, 0);
    if src.len() > 0 {
        lemma_lex_all_tokens::<T>(src, 0, Seq::empty());
        if let Ok(toks) = lex_from::<T>(src, 0, Seq::empty()) {
            crate::element::lemma_all_tokens_no_function_node(toks);
            crate::compile::lemma_promote_no_function_node(
                elems_model(toks),
                src,
                0,
                Seq::empty(),
                Seq::empty(),
                Seq::empty(),
                Seq::<Resolution<T>>::empty(),
            );
            if let Ok((m1, ns, vs)) = promote_from(
                elems_model(toks),
                src,
                0,
                Seq::<Seq<char>>::empty(),
                Seq::<Value>::empty(),
                Seq::<Seq<char>>::empty(),
                Seq::<Resolution<T>>::empty(),
            ) {
                crate::scan::lemma_scan_no_function_node(
                    m1,
                    0,
                    0,
                    Seq::<(usize, i128)>::empty(),
                    None,
                );
            }
        }
    }
}

/// The lexer only pushes and reshapes tokens: what it hands promotion is an
/// arena of raw tokens.
pub proof fn lemma_lex_all_tokens<T>(src: Seq<char>, i: int, elems: Seq<Element<T>>)
    requires
        crate::element::all_tokens(elems),
    ensures
        lex_from::<T>(src, i, elems) matches Ok(toks) ==> crate::element::all_tokens(toks),
    decreases src.len() - i,
{
    if 0 <= i < src.len() {
        if let Ok(e2) = push_spec(elems, i as usize, src[i]) {
            assert(crate::element::all_tokens(e2));
            lemma_lex_all_tokens::<T>(src, i + 1, e2);
        }
    }
}

/// A variable read twice reads one slot: `a+b+a` compiles with `a` and `b`
/// interned first-seen, and against a table holding `Int(x)` for `a` and
/// `Int(y)` for `b` it evaluates to `(x + y) + x` with wrapping addition —
/// for the current values, whatever they are, with no recompilation.
pub proof fn lemma_variable_reuse(x: i64, y: i64)
    ensures
        compile_spec::<crate::library::Std>("a+b+a"@) matches Ok(c) && c.2 == seq!["a"@, "b"@]
            && eval_from(
            c.0,
            seq![Value::Int(x), Value::Int(y)],
            c.1 as int,
            eval_fuel(c.0.len()),
        ) == Ok::<Value, Error>(Value::Int(x.wrapping_add(y).wrapping_add(x))),
{
    reveal_strlit("a+b+a");
    reveal_strlit("a");
    reveal_strlit("b");
    let s = "a+b+a"@;
    reveal_with_fuel(strip_from, 7);
    assert(strip_from(s, 0) =~= s);
    reveal_with_fuel(lex_from, 7);
    reveal_with_fuel(crate::compile::promote_from, 7);
    reveal_with_fuel(crate::variables::find_from, 4);
    reveal_with_fuel(crate::scan::scan_from, 7);
    reveal_with_fuel(crate::scan::pop_ge, 4);
    reveal_with_fuel(eval_from, 7);
    assert(s.subrange(0, 1) =~= "a"@);
    assert(s.subrange(2, 3) =~= "b"@);
    assert(s.subrange(4, 5) =~= "a"@);
    assert("a"@ != "b"@) by {
        assert("a"@[0] == 'a' && "b"@[0] == 'b');
    }
    let toks = lex_from::<crate::library::Std>(s, 0, Seq::empty());
    assert(toks is Ok);
}

/// Multiplication binds tighter than addition, checked through the whole
/// pipeline: the expression `1+2*3` compiles and evaluates to `7` against any
/// variable table.
#[verifier::rlimit(100)]
pub proof fn lemma_precedence(vals: Seq<Value>)
    ensures
        compile_spec::<crate::library::Std>("1+2*3"@) matches Ok(c) && eval_from(
            c.0,
            vals,
            c.1 as int,
            eval_fuel(c.0.len()),
        ) == Ok::<Value, Error>(Value::Int(7)),
{
    reveal_strlit("1+2*3");
    let s = "1+2*3"@;
    reveal_with_fuel(strip_from, 7);
    assert(strip_from(s, 0) =~= s);
    reveal_with_fuel(lex_from, 7);
    reveal_with_fuel(crate::compile::promote_from, 7);
    reveal_with_fuel(crate::compile::int_parse_from, 3);
    reveal_with_fuel(crate::scan::scan_from, 7);
    reveal_with_fuel(crate::scan::pop_ge, 4);
    reveal_with_fuel(eval_from, 4);
}

/// Bracket grouping overrides precedence, checked through the whole
/// pipeline: the expression `(1+2)*3` compiles and evaluates to `9` against
/// any variable table.
#[verifier::rlimit(100)]
pub proof fn lemma_grouping(vals: Seq<Value>)
    ensures
        compile_spec::<crate::library::Std>("(1+2)*3"@) matches Ok(c) && eval_from(
            c.0,
            vals,
            c.1 as int,
            eval_fuel(c.0.len()),
        ) == Ok::<Value, Error>(Value::Int(9)),
{
    reveal_strlit("(1+2)*3");
    let s = "(1+2)*3"@;
    reveal_with_fuel(strip_from, 9);
    assert(strip_from(s, 0) =~= s);
    reveal_with_fuel(lex_from, 9);
    reveal_with_fuel(crate::compile::promote_from, 9);
    reveal_with_fuel(crate::compile::int_parse_from, 3);
    reveal_with_fuel(crate::scan::scan_from, 9);
    reveal_with_fuel(crate::scan::pop_ge, 4);
    reveal_with_fuel(eval_from, 5);
}

/// Compiling the same text twice gives the same compiled arena, the same
/// root, and the same variable table, and evaluating the two against equal
/// variable values gives the same result: the whole pipeline is a function of
/// the text, the variable values, and the answers the library gave — and of
/// nothing else. For text without a function call the answer sequences are
/// empty and the determinism is unconditional.
pub proof fn lemma_round_trip<T>(
    text: Seq<char>,
    calls: Seq<Resolution<T>>,
    m1: Seq<ElemModel<T>>,
    root1: usize,
    m2: Seq<ElemModel<T>>,
    root2: usize,
    vals1: Seq<Value>,
    vals2: Seq<Value>,
    dispatches: Seq<Dispatch>,
)
    requires
        compile_with::<T>(text, calls) matches Ok(c1) && c1.0 == m1 && c1.1 == root1,
        compile_with::<T>(text, calls) matches Ok(c2) && c2.0 == m2 && c2.1 == root2,
        vals1 == vals2,
    ensures
        m1 == m2,
        root1 == root2,
        eval_from(m1, vals1, root1 as int, eval_fuel(m1.len())) == eval_from(
            m2,
            vals2,
            root2 as int,
            eval_fuel(m2.len()),
        ),
        eval_oracle(m1, vals1, root1 as int, eval_fuel(m1.len()), dispatches) == eval_oracle(
            m2,
            vals2,
            root2 as int,
            eval_fuel(m2.len()),
            dispatches,
        ),
{
}

} // verus!
