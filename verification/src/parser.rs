//! Precedence-climbing parser for the boolean expression grammar.

use vstd::prelude::*;

use crate::tokenizer::{spec_tokens, SpecToken, Token, Tokenizer};

verus! {

/// An expression tree.  Each internal node owns its children outright;
/// trees are finite and acyclic by construction.
#[derive(Debug)]
pub enum Node {
    Boolean(bool),
    Or(Box<Node>, Box<Node>),
    And(Box<Node>, Box<Node>),
    Not(Box<Node>),
}

/// The distinguishable ways a parse can fail.
#[derive(Debug, Clone, Copy, PartialEq, Eq, Structural)]
pub enum ParseError {
    /// A token that cannot begin or continue an expression stood where
    /// an atom was required: a bare operator, a closing parenthesis, or
    /// a variable (the grammar recognizes variables but assigns them no
    /// truth value, so one reaching atom position is an error).
    UnexpectedToken,
    /// The input ended where an atom was required.
    UnexpectedEndOfInput,
    /// A parenthesized sub-expression was not closed by `)`.
    ExpectedClosingParen,
}

/// The binding power of a prefix operator, for the only prefix
/// operator of the grammar: NOT binds tighter than both infix
/// operators.
pub open spec fn spec_prefix_bp(token: SpecToken) -> Option<u8> {
    match token {
        SpecToken::Not => Some(5u8),
        _ => None,
    }
}

/// The (left, right) binding powers of the infix operators.  Higher
/// binds tighter; the `(n, n + 1)` pattern makes both operators
/// left-associative, and AND binds tighter than OR.
pub open spec fn spec_infix_bp(token: SpecToken) -> Option<(u8, u8)> {
    match token {
        SpecToken::Or => Some((1u8, 2u8)),
        SpecToken::And => Some((3u8, 4u8)),
        _ => None,
    }
}

/// Drop one leading whitespace token, if there is one.  The tokenizer
/// folds each whitespace run into a single token, so one step uncovers
/// the next meaningful token.
pub open spec fn skip_leading_ws(ts: Seq<SpecToken>) -> Seq<SpecToken> {
    if ts.len() > 0 && ts[0] is Whitespace {
        ts.skip(1)
    } else {
        ts
    }
}

/// Precedence-climbing parse of one expression from the front of `ts`,
/// every operator of binding power at least `min_bp` included: parse
/// one atom, then fold operators onto it with `spec_expr_rest`.  On
/// success the result holds the tree and the tokens left over.
///
/// The `rem.len() < ts.len()` tests guard the recursion; they always
/// hold, as `lemma_spec_expr_consumes` shows, so the error they would
/// return is never the result.
pub open spec fn spec_expr(ts: Seq<SpecToken>, min_bp: u8) -> Result<
    (Node, Seq<SpecToken>),
    ParseError,
>
    decreases ts.len(), 0int,
{
    if ts.len() == 0 {
        Err(ParseError::UnexpectedEndOfInput)
    } else {
        let rest = ts.skip(1);
        match ts[0] {
            SpecToken::True => spec_expr_rest(Node::Boolean(true), rest, min_bp),
            SpecToken::False => spec_expr_rest(Node::Boolean(false), rest, min_bp),
            SpecToken::Not => match spec_expr(skip_leading_ws(rest), 5) {
                Ok((operand, rem)) => if rem.len() < ts.len() {
                    spec_expr_rest(Node::Not(Box::new(operand)), rem, min_bp)
                } else {
                    Err(ParseError::UnexpectedToken)
                },
                Err(e) => Err(e),
            },
            SpecToken::LeftParen => match spec_expr(skip_leading_ws(rest), 0) {
                Ok((inner, rem)) => if rem.len() > 0 && rem[0] is RightParen {
                    if rem.skip(1).len() < ts.len() {
                        spec_expr_rest(inner, rem.skip(1), min_bp)
                    } else {
                        Err(ParseError::UnexpectedToken)
                    }
                } else {
                    Err(ParseError::ExpectedClosingParen)
                },
                Err(e) => Err(e),
            },
            _ => Err(ParseError::UnexpectedToken),
        }
    }
}

/// The operator loop of precedence climbing: with `left` parsed, as
/// long as the next meaningful token is an infix operator whose left
/// binding power reaches `min_bp`, parse its right operand at the
/// operator's right binding power and fold the pair into `left`.
pub open spec fn spec_expr_rest(left: Node, ts: Seq<SpecToken>, min_bp: u8) -> Result<
    (Node, Seq<SpecToken>),
    ParseError,
>
    decreases ts.len(), 1int,
{
    let r = skip_leading_ws(ts);
    if r.len() == 0 {
        Ok((left, r))
    } else {
        match spec_infix_bp(r[0]) {
            None => Ok((left, r)),
            Some(bp) => if bp.0 < min_bp {
                Ok((left, r))
            } else {
                match spec_expr(skip_leading_ws(r.skip(1)), bp.1) {
                    Ok((right, rem)) => {
                        let combined = if r[0] is And {
                            Node::And(Box::new(left), Box::new(right))
                        } else {
                            Node::Or(Box::new(left), Box::new(right))
                        };
                        if rem.len() < ts.len() {
                            spec_expr_rest(combined, rem, min_bp)
                        } else {
                            Err(ParseError::UnexpectedToken)
                        }
                    },
                    Err(e) => Err(e),
                }
            },
        }
    }
}

/// A successful parse step always consumes at least one token: the
/// parser makes forward progress, so parsing terminates on every
/// input.
pub proof fn lemma_spec_expr_consumes(ts: Seq<SpecToken>, min_bp: u8)
    ensures
        spec_expr(ts, min_bp) matches Ok(nr) ==> nr.1.len() < ts.len(),
    decreases ts.len(), 0int,
{
    if ts.len() > 0 {
        let rest = ts.skip(1);
        match ts[0] {
            SpecToken::True => lemma_spec_expr_rest_consumes(Node::Boolean(true), rest, min_bp),
            SpecToken::False => lemma_spec_expr_rest_consumes(Node::Boolean(false), rest, min_bp),
            SpecToken::Not => {
                lemma_spec_expr_consumes(skip_leading_ws(rest), 5);
                if let Ok((operand, rem)) = spec_expr(skip_leading_ws(rest), 5) {
                    lemma_spec_expr_rest_consumes(Node::Not(Box::new(operand)), rem, min_bp);
                }
            },
            SpecToken::LeftParen => {
                lemma_spec_expr_consumes(skip_leading_ws(rest), 0);
                if let Ok((inner, rem)) = spec_expr(skip_leading_ws(rest), 0) {
                    if rem.len() > 0 && rem[0] is RightParen {
                        lemma_spec_expr_rest_consumes(inner, rem.skip(1), min_bp);
                    }
                }
            },
            _ => {},
        }
    }
}

/// The operator loop never adds tokens back: what it leaves over is a
/// suffix of what it was given.
pub proof fn lemma_spec_expr_rest_consumes(left: Node, ts: Seq<SpecToken>, min_bp: u8)
    ensures
        spec_expr_rest(left, ts, min_bp) matches Ok(nr) ==> nr.1.len() <= ts.len(),
    decreases ts.len(), 1int,
{
    let r = skip_leading_ws(ts);
    if r.len() > 0 {
        if let Some(bp) = spec_infix_bp(r[0]) {
            if bp.0 >= min_bp {
                lemma_spec_expr_consumes(skip_leading_ws(r.skip(1)), bp.1);
                if let Ok((right, rem)) = spec_expr(skip_leading_ws(r.skip(1)), bp.1) {
                    let combined = if r[0] is And {
                        Node::And(Box::new(left), Box::new(right))
                    } else {
                        Node::Or(Box::new(left), Box::new(right))
                    };
                    if rem.len() < ts.len() {
                        lemma_spec_expr_rest_consumes(combined, rem, min_bp);
                    }
                }
            }
        }
    }
}

/// A cursor over the token stream with one token of lookahead, and
/// the parsing routines on top of it.
pub struct Parser {
    tokens: Tokenizer,
}

impl Parser {
    pub closed spec fn wf(self) -> bool {
        self.tokens.wf()
    }

    /// The tokens not yet consumed.
    pub closed spec fn toks(self) -> Seq<SpecToken> {
        spec_tokens(self.tokens.remaining())
    }

    pub fn new(input: &str) -> (parser: Parser)
        ensures
            parser.wf(),
            parser.toks() == spec_tokens(input@),
    {
        Parser { tokens: Tokenizer::new(input) }
    }

    /// The next token, without consuming it.
    fn peek(&self) -> (r: Option<Token>)
        requires
            self.wf(),
        ensures
            (match r {
                None => self.toks().len() == 0,
                Some(t) => self.toks().len() > 0 && t@ == self.toks()[0],
            }),
    {
        self.tokens.peek()
    }

    /// The next token, consuming it.
    fn next(&mut self) -> (r: Option<Token>)
        requires
            old(self).wf(),
        ensures
            final(self).wf(),
            (match r {
                None => {
                    &&& old(self).toks().len() == 0
                    &&& final(self).toks() == old(self).toks()
                },
                Some(t) => {
                    &&& old(self).toks().len() > 0
                    &&& t@ == old(self).toks()[0]
                    &&& final(self).toks() == old(self).toks().skip(1)
                },
            }),
    {
        let r = self.tokens.next();
        proof {
            let rem = old(self).tokens.remaining();
            if rem.len() > 0 {
                assert(self.toks() =~= old(self).toks().skip(1));
            }
        }
        r
    }

    /// Consume one whitespace token, if one is next.
    fn whitespace(&mut self)
        requires
            old(self).wf(),
        ensures
            final(self).wf(),
            final(self).toks() == skip_leading_ws(old(self).toks()),
    {
        match self.peek() {
            Some(Token::Whitespace) => {
                let _ = self.next();
            },
            _ => {},
        }
    }

    fn get_prefix_precedence(operator: &Token) -> (r: Option<u8>)
        ensures
            r == spec_prefix_bp(operator@),
    {
        match operator {
            Token::Not => Some(5),
            _ => None,
        }
    }

    fn get_operator_precedence(operator: &Token) -> (r: Option<(u8, u8)>)
        ensures
            r == spec_infix_bp(operator@),
    {
        match operator {
            Token::Or => Some((1, 2)),
            Token::And => Some((3, 4)),
            _ => None,
        }
    }

    /// Parse one expression: an atom, then every following operator of
    /// binding power at least `min_bp`, folded left.
    fn expression(&mut self, min_bp: u8) -> (result: Result<Node, ParseError>)
        requires
            old(self).wf(),
        ensures
            final(self).wf(),
            (match spec_expr(old(self).toks(), min_bp) {
                Ok(nr) => result matches Ok(node) && node == nr.0 && final(self).toks() == nr.1,
                Err(e) => result matches Err(e2) && e2 == e,
            }),
        decreases old(self).toks().len(), 0int,
    {
        let token = match self.next() {
            Some(token) => token,
            None => {
                return Err(ParseError::UnexpectedEndOfInput);
            },
        };
        let left: Node = match &token {
            Token::True => Node::Boolean(true),
            Token::False => Node::Boolean(false),
            Token::Not => {
                self.whitespace();
                let precedence = match Self::get_prefix_precedence(&token) {
                    Some(precedence) => precedence,
                    None => vstd::pervasive::unreached(),
                };
                proof {
                    lemma_spec_expr_consumes(self.toks(), precedence);
                }
                let operand = match self.expression(precedence) {
                    Ok(node) => node,
                    Err(e) => {
                        return Err(e);
                    },
                };
                Node::Not(Box::new(operand))
            },
            Token::LeftParen => {
                self.whitespace();
                proof {
                    lemma_spec_expr_consumes(self.toks(), 0);
                }
                let inner = match self.expression(0) {
                    Ok(node) => node,
                    Err(e) => {
                        return Err(e);
                    },
                };
                match self.next() {
                    Some(Token::RightParen) => {},
                    _ => {
                        return Err(ParseError::ExpectedClosingParen);
                    },
                }
                inner
            },
            _ => {
                return Err(ParseError::UnexpectedToken);
            },
        };
        self.expression_rest(left, min_bp)
    }

    /// The operator loop: fold infix operators of sufficient binding
    /// power onto `left`, each right operand parsed at the operator's
    /// right binding power.
    fn expression_rest(&mut self, left: Node, min_bp: u8) -> (result: Result<Node, ParseError>)
        requires
            old(self).wf(),
        ensures
            final(self).wf(),
            (match spec_expr_rest(left, old(self).toks(), min_bp) {
                Ok(nr) => result matches Ok(node) && node == nr.0 && final(self).toks() == nr.1,
                Err(e) => result matches Err(e2) && e2 == e,
            }),
        decreases old(self).toks().len(), 1int,
    {
        self.whitespace();
        let operator = match self.peek() {
            Some(operator) => operator,
            None => {
                return Ok(left);
            },
        };
        let precedence = match Self::get_operator_precedence(&operator) {
            Some(precedence) => precedence,
            None => {
                return Ok(left);
            },
        };
        if precedence.0 < min_bp {
            return Ok(left);
        }
        let _ = self.next();
        self.whitespace();
        proof {
            lemma_spec_expr_consumes(self.toks(), precedence.1);
        }
        let right = match self.expression(precedence.1) {
            Ok(node) => node,
            Err(e) => {
                return Err(e);
            },
        };
        let combined = match operator {
            Token::And => Node::And(Box::new(left), Box::new(right)),
            Token::Or => Node::Or(Box::new(left), Box::new(right)),
            _ => vstd::pervasive::unreached(),
        };
        self.expression_rest(combined, min_bp)
    }

    /// Parse the whole input: `Ok(None)` on empty (all-whitespace)
    /// input, `Ok(Some(tree))` when an expression stands at the front,
    /// and the error naming the reason otherwise.  The result is a
    /// function of the input string alone.
    pub fn parse(&mut self) -> (result: Result<Option<Node>, ParseError>)
        requires
            old(self).wf(),
        ensures
            final(self).wf(),
            result == spec_parse(old(self).toks()),
    {
        self.whitespace();
        match self.peek() {
            None => Ok(None),
            Some(_) => match self.expression(0) {
                Ok(node) => Ok(Some(node)),
                Err(e) => Err(e),
            },
        }
    }
}

/// What parsing a whole token sequence yields: the distinguished
/// "no expression" outcome `Ok(None)` when nothing but whitespace is
/// there, otherwise one expression parsed at the lowest binding power,
/// with any tokens after it ignored.
pub open spec fn spec_parse(ts: Seq<SpecToken>) -> Result<Option<Node>, ParseError> {
    let r = skip_leading_ws(ts);
    if r.len() == 0 {
        Ok(None)
    } else {
        match spec_expr(r, 0) {
            Ok((node, _)) => Ok(Some(node)),
            Err(e) => Err(e),
        }
    }
}

} // verus!
