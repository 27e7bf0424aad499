use vstd::prelude::*;

use crate::element::Element;
use crate::error::Error;
use crate::storage::ExpressionStorage;
use crate::token::{Bracket, Identifier, Literal, Operator, Special, Token, TokenKind};

verus! {

/// An ASCII decimal digit.
pub open spec fn is_digit(c: char) -> bool {
    48 <= c as int <= 57
}

/// An ASCII letter.
pub open spec fn is_letter(c: char) -> bool {
    (97 <= c as int <= 122) || (65 <= c as int <= 90)
}

/// The operator a single character denotes, if any.
pub open spec fn op_of_char(c: char) -> Option<Operator> {
    if c == '+' {
        Some(Operator::Add)
    } else if c == '-' {
        Some(Operator::Sub)
    } else if c == '*' {
        Some(Operator::Mul)
    } else if c == '/' {
        Some(Operator::Div)
    } else if c == '%' {
        Some(Operator::Rem)
    } else if c == '^' {
        Some(Operator::Pow)
    } else if c == '&' {
        Some(Operator::And)
    } else if c == '|' {
        Some(Operator::Or)
    } else if c == '#' {
        Some(Operator::Xor)
    } else if c == '!' {
        Some(Operator::Not)
    } else if c == '=' {
        Some(Operator::Eq)
    } else if c == '<' {
        Some(Operator::Lt)
    } else if c == '>' {
        Some(Operator::Gt)
    } else {
        None
    }
}

/// The kind of the fresh token a character opens when no context extends it.
pub open spec fn new_token_kind(c: char) -> Option<TokenKind> {
    if is_digit(c) {
        Some(TokenKind::Literal(Literal::Int))
    } else if is_letter(c) {
        Some(TokenKind::Identifier(Identifier::Variable))
    } else if c == '.' {
        Some(TokenKind::Literal(Literal::Float))
    } else if c == '(' {
        Some(TokenKind::Bracket(Bracket::Opened))
    } else if c == ')' {
        Some(TokenKind::Bracket(Bracket::Closed))
    } else if c == ',' {
        Some(TokenKind::Special(Special::Comma))
    } else {
        match op_of_char(c) {
            Some(op) => Some(TokenKind::Operator(op)),
            None => None,
        }
    }
}

/// A one-character token at `pos`.
pub open spec fn tok_at(kind: TokenKind, pos: usize) -> Token {
    Token { token_kind: kind, start: pos, end: (pos + 1) as usize }
}

/// The two tokens a unary minus synthesizes: a zero-width zero literal,
/// then an ordinary subtraction.
pub open spec fn insert_neg_spec<T>(elems: Seq<Element<T>>, pos: usize) -> Seq<Element<T>> {
    elems.push(
        Element::Token(Token { token_kind: TokenKind::Special(Special::NegZero), start: 0, end: 0 }),
    ).push(Element::Token(tok_at(TokenKind::Operator(Operator::Sub), pos)))
}

/// One step of the contextual lexer: what pushing the character `c`, standing
/// at position `pos` of the expression text, does to the element arena. The
/// lexer keeps no state besides the kind of the most recently pushed token.
///
/// A space changes nothing. A `:` narrows an identifier to a namespace
/// marker, in two steps. A digit extends a literal or identifier and
/// otherwise opens an integer literal; a letter extends an identifier and
/// otherwise opens one; a `.` converts an integer literal to a float literal
/// and otherwise opens one. A `(` after an identifier reclassifies it as a
/// function call. A `-` at the start of the input or after an operator or
/// bracket synthesizes `0 -`. A `=` merges into a preceding `>`, `<` or `!`.
/// Everything else becomes its own one-character token, and a character with
/// no token at all is refused.
pub open spec fn push_spec<T>(elems: Seq<Element<T>>, pos: usize, c: char) -> Result<
    Seq<Element<T>>,
    Error,
> {
    if c == ' ' {
        Ok(elems)
    } else if elems.len() == 0 {
        if c == '-' {
            Ok(insert_neg_spec(elems, pos))
        } else {
            match new_token_kind(c) {
                Some(kind) => Ok(elems.push(Element::Token(tok_at(kind, pos)))),
                None => Err(Error::UnkownCharacter(c)),
            }
        }
    } else {
        match elems.last() {
            Element::Node(_) => Err(Error::AlreadyCompiled),
            Element::Token(t) => {
                let k = t.token_kind;
                if c == ':' {
                    if k matches TokenKind::Identifier(_) {
                        Ok(
                            elems.update(
                                elems.len() - 1,
                                Element::Token(
                                    Token {
                                        token_kind: TokenKind::Special(Special::NamespacePartial),
                                        ..t
                                    },
                                ),
                            ),
                        )
                    } else if k == TokenKind::Special(Special::NamespacePartial) {
                        Ok(
                            elems.update(
                                elems.len() - 1,
                                Element::Token(
                                    Token { token_kind: TokenKind::Special(Special::Namespace), ..t },
                                ),
                            ),
                        )
                    } else {
                        Err(Error::UnexpectedToken)
                    }
                } else if c == '.' {
                    if k == TokenKind::Literal(Literal::Int) {
                        Ok(
                            elems.update(
                                elems.len() - 1,
                                Element::Token(
                                    Token {
                                        token_kind: TokenKind::Literal(Literal::Float),
                                        start: t.start,
                                        end: (t.end + 1) as usize,
                                    },
                                ),
                            ),
                        )
                    } else {
                        Ok(
                            elems.push(
                                Element::Token(tok_at(TokenKind::Literal(Literal::Float), pos)),
                            ),
                        )
                    }
                } else if is_digit(c) {
                    if (k matches TokenKind::Identifier(_)) || (k matches TokenKind::Literal(_)) {
                        Ok(
                            elems.update(
                                elems.len() - 1,
                                Element::Token(Token { end: (t.end + 1) as usize, ..t }),
                            ),
                        )
                    } else {
                        Ok(
                            elems.push(Element::Token(tok_at(TokenKind::Literal(Literal::Int), pos))),
                        )
                    }
                } else if is_letter(c) {
                    if k matches TokenKind::Identifier(_) {
                        Ok(
                            elems.update(
                                elems.len() - 1,
                                Element::Token(Token { end: (t.end + 1) as usize, ..t }),
                            ),
                        )
                    } else {
                        Ok(
                            elems.push(
                                Element::Token(
                                    tok_at(TokenKind::Identifier(Identifier::Variable), pos),
                                ),
                            ),
                        )
                    }
                } else if c == '(' {
                    if k matches TokenKind::Identifier(_) {
                        Ok(
                            elems.update(
                                elems.len() - 1,
                                Element::Token(
                                    Token {
                                        token_kind: TokenKind::Identifier(Identifier::Function),
                                        ..t
                                    },
                                ),
                            ).push(Element::Token(tok_at(TokenKind::Bracket(Bracket::Opened), pos))),
                        )
                    } else {
                        Ok(
                            elems.push(
                                Element::Token(tok_at(TokenKind::Bracket(Bracket::Opened), pos)),
                            ),
                        )
                    }
                } else if c == '-' && ((k matches TokenKind::Operator(_)) || (
                k matches TokenKind::Bracket(_))) {
                    Ok(insert_neg_spec(elems, pos))
                } else if c == '=' && k == TokenKind::Operator(Operator::Gt) {
                    Ok(
                        elems.update(
                            elems.len() - 1,
                            Element::Token(
                                Token {
                                    token_kind: TokenKind::Operator(Operator::GEq),
                                    start: t.start,
                                    end: (t.end + 1) as usize,
                                },
                            ),
                        ),
                    )
                } else if c == '=' && k == TokenKind::Operator(Operator::Lt) {
                    Ok(
                        elems.update(
                            elems.len() - 1,
                            Element::Token(
                                Token {
                                    token_kind: TokenKind::Operator(Operator::LEq),
                                    start: t.start,
                                    end: (t.end + 1) as usize,
                                },
                            ),
                        ),
                    )
                } else if c == '=' && k == TokenKind::Operator(Operator::Not) {
                    Ok(
                        elems.update(
                            elems.len() - 1,
                            Element::Token(
                                Token {
                                    token_kind: TokenKind::Operator(Operator::NEq),
                                    start: t.start,
                                    end: (t.end + 1) as usize,
                                },
                            ),
                        ),
                    )
                } else {
                    match new_token_kind(c) {
                        Some(kind) => Ok(elems.push(Element::Token(tok_at(kind, pos)))),
                        None => Err(Error::UnkownCharacter(c)),
                    }
                }
            },
        }
    }
}

/// Every token span in the arena closes at or before `bound`.
pub open spec fn spans_wf<T>(elems: Seq<Element<T>>, bound: usize) -> bool {
    forall|i: int|
        0 <= i < elems.len() ==> match #[trigger] elems[i] {
            Element::Token(t) => t.start <= t.end <= bound,
            Element::Node(_) => true,
        }
}

/// An ASCII decimal digit.
fn is_digit_exec(c: char) -> (b: bool)
    ensures
        b == is_digit(c),
{
    let u = c as u32;
    48 <= u && u <= 57
}

/// An ASCII letter.
fn is_letter_exec(c: char) -> (b: bool)
    ensures
        b == is_letter(c),
{
    let u = c as u32;
    (97 <= u && u <= 122) || (65 <= u && u <= 90)
}

/// The kind of the fresh token a character opens, as `new_token_kind` says.
fn new_token_kind_exec(c: char) -> (r: Option<TokenKind>)
    ensures
        r == new_token_kind(c),
{
    if is_digit_exec(c) {
        Some(TokenKind::Literal(Literal::Int))
    } else if is_letter_exec(c) {
        Some(TokenKind::Identifier(Identifier::Variable))
    } else {
        match c {
            '.' => Some(TokenKind::Literal(Literal::Float)),
            '(' => Some(TokenKind::Bracket(Bracket::Opened)),
            ')' => Some(TokenKind::Bracket(Bracket::Closed)),
            ',' => Some(TokenKind::Special(Special::Comma)),
            '+' => Some(TokenKind::Operator(Operator::Add)),
            '-' => Some(TokenKind::Operator(Operator::Sub)),
            '*' => Some(TokenKind::Operator(Operator::Mul)),
            '/' => Some(TokenKind::Operator(Operator::Div)),
            '%' => Some(TokenKind::Operator(Operator::Rem)),
            '^' => Some(TokenKind::Operator(Operator::Pow)),
            '&' => Some(TokenKind::Operator(Operator::And)),
            '|' => Some(TokenKind::Operator(Operator::Or)),
            '#' => Some(TokenKind::Operator(Operator::Xor)),
            '!' => Some(TokenKind::Operator(Operator::Not)),
            '=' => Some(TokenKind::Operator(Operator::Eq)),
            '<' => Some(TokenKind::Operator(Operator::Lt)),
            '>' => Some(TokenKind::Operator(Operator::Gt)),
            _ => None,
        }
    }
}

impl<T> ExpressionStorage<T> {
    /// Append the two tokens of a synthesized unary minus.
    fn insert_neg(&mut self, index: usize)
        requires
            index < usize::MAX,
        ensures
            final(self).elements@ == insert_neg_spec(old(self).elements@, index),
            final(self).variables == old(self).variables,
    {
        self.elements.push(Element::Token(Token::new_neg_zero()));
        self.elements.push(Element::Token(Token::new(TokenKind::Operator(Operator::Sub), index)));
    }

    /// Append the fresh one-character token `c` opens, or refuse the
    /// character.
    fn new_token(&mut self, chr: char, start: usize) -> (r: Result<(), Error>)
        requires
            start < usize::MAX,
        ensures
            final(self).variables == old(self).variables,
            match new_token_kind(chr) {
                Some(kind) => r is Ok && final(self).elements@ == old(self).elements@.push(
                    Element::Token(tok_at(kind, start)),
                ),
                None => r == Err::<(), Error>(Error::UnkownCharacter(chr)) && *final(self) == *old(
                    self,
                ),
            },
    {
        match new_token_kind_exec(chr) {
            Some(kind) => {
                self.elements.push(Element::Token(Token::new(kind, start)));
                Ok(())
            },
            None => Err(Error::UnkownCharacter(chr)),
        }
    }

    /// Lex one character into the arena, exactly as `push_spec` says. On an
    /// error nothing has changed.
    pub fn push(&mut self, index: usize, chr: char) -> (r: Result<(), Error>)
        requires
            index < usize::MAX,
            spans_wf(old(self).elements@, index),
        ensures
            final(self).variables == old(self).variables,
            match push_spec(old(self).elements@, index, chr) {
                Ok(s) => r is Ok && final(self).elements@ == s,
                Err(e) => r == Err::<(), Error>(e) && *final(self) == *old(self),
            },
            r is Ok ==> spans_wf(final(self).elements@, (index + 1) as usize),
    {
        if chr == ' ' {
            return Ok(());
        }
        let n = self.elements.len();
        if n == 0 {
            if chr == '-' {
                self.insert_neg(index);
                return Ok(());
            }
            let r = self.new_token(chr, index);
            return r;
        }
        let t: Token = match &self.elements[n - 1] {
            Element::Token(t) => *t,
            Element::Node(_) => {
                return Err(Error::AlreadyCompiled);
            },
        };
        let k = t.token_kind;
        assert(t.start <= t.end <= index);
        if chr == ':' {
            match k {
                TokenKind::Identifier(_) => {
                    self.elements[n - 1] = Element::Token(
                        Token { token_kind: TokenKind::Special(Special::NamespacePartial), ..t },
                    );
                    Ok(())
                },
                TokenKind::Special(Special::NamespacePartial) => {
                    self.elements[n - 1] = Element::Token(
                        Token { token_kind: TokenKind::Special(Special::Namespace), ..t },
                    );
                    Ok(())
                },
                _ => Err(Error::UnexpectedToken),
            }
        } else if chr == '.' {
            if k == TokenKind::Literal(Literal::Int) {
                self.elements[n - 1] = Element::Token(
                    Token {
                        token_kind: TokenKind::Literal(Literal::Float),
                        start: t.start,
                        end: t.end + 1,
                    },
                );
                Ok(())
            } else {
                self.elements.push(
                    Element::Token(Token::new(TokenKind::Literal(Literal::Float), index)),
                );
                Ok(())
            }
        } else if is_digit_exec(chr) {
            match k {
                TokenKind::Identifier(_) | TokenKind::Literal(_) => {
                    self.elements[n - 1] = Element::Token(Token { end: t.end + 1, ..t });
                    Ok(())
                },
                _ => {
                    self.elements.push(
                        Element::Token(Token::new(TokenKind::Literal(Literal::Int), index)),
                    );
                    Ok(())
                },
            }
        } else if is_letter_exec(chr) {
            match k {
                TokenKind::Identifier(_) => {
                    self.elements[n - 1] = Element::Token(Token { end: t.end + 1, ..t });
                    Ok(())
                },
                _ => {
                    self.elements.push(
                        Element::Token(
                            Token::new(TokenKind::Identifier(Identifier::Variable), index),
                        ),
                    );
                    Ok(())
                },
            }
        } else if chr == '(' {
            match k {
                TokenKind::Identifier(_) => {
                    self.elements[n - 1] = Element::Token(
                        Token { token_kind: TokenKind::Identifier(Identifier::Function), ..t },
                    );
                    self.elements.push(
                        Element::Token(Token::new(TokenKind::Bracket(Bracket::Opened), index)),
                    );
                    Ok(())
                },
                _ => {
                    self.elements.push(
                        Element::Token(Token::new(TokenKind::Bracket(Bracket::Opened), index)),
                    );
                    Ok(())
                },
            }
        } else if chr == '-' && (match k {
            TokenKind::Operator(_) => true,
            TokenKind::Bracket(_) => true,
            _ => false,
        }) {
            self.insert_neg(index);
            Ok(())
        } else if chr == '=' && k == TokenKind::Operator(Operator::Gt) {
            self.elements[n - 1] = Element::Token(
                Token {
                    token_kind: TokenKind::Operator(Operator::GEq),
                    start: t.start,
                    end: t.end + 1,
                },
            );
            Ok(())
        } else if chr == '=' && k == TokenKind::Operator(Operator::Lt) {
            self.elements[n - 1] = Element::Token(
                Token {
                    token_kind: TokenKind::Operator(Operator::LEq),
                    start: t.start,
                    end: t.end + 1,
                },
            );
            Ok(())
        } else if chr == '=' && k == TokenKind::Operator(Operator::Not) {
            self.elements[n - 1] = Element::Token(
                Token {
                    token_kind: TokenKind::Operator(Operator::NEq),
                    start: t.start,
                    end: t.end + 1,
                },
            );
            Ok(())
        } else {
            let r = self.new_token(chr, index);
            r
        }
    }
}

} // verus!
