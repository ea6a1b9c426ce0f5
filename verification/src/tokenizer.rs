//! Longest-match tokenizer for the boolean expression language.
//!
//! The input is scanned left to right.  At each position the first
//! definition that matches is taken, in this order: whitespace, AND,
//! OR, NOT, TRUE, FALSE, parentheses, and last the variable catch-all,
//! each definition matching as many characters as it can.  The
//! catch-all can always consume at least one character, so tokenizing
//! never fails; all rejection happens later, in parsing.

use vstd::prelude::*;

verus! {

/// A lexical token.  Only `Variable` carries a payload: the exact
/// matched substring.
#[derive(Debug)]
pub enum Token {
    Whitespace,
    And,
    Or,
    Not,
    True,
    False,
    LeftParen,
    RightParen,
    Variable(String),
}

/// The mathematical counterpart of `Token`: a variable's text is a
/// sequence of characters.
pub enum SpecToken {
    Whitespace,
    And,
    Or,
    Not,
    True,
    False,
    LeftParen,
    RightParen,
    Variable(Seq<char>),
}

impl View for Token {
    type V = SpecToken;

    open spec fn view(&self) -> SpecToken {
        match self {
            Token::Whitespace => SpecToken::Whitespace,
            Token::And => SpecToken::And,
            Token::Or => SpecToken::Or,
            Token::Not => SpecToken::Not,
            Token::True => SpecToken::True,
            Token::False => SpecToken::False,
            Token::LeftParen => SpecToken::LeftParen,
            Token::RightParen => SpecToken::RightParen,
            Token::Variable(text) => SpecToken::Variable(text@),
        }
    }
}

/// Whitespace is a space or a tab.
pub open spec fn is_space_char(c: char) -> bool {
    c == ' ' || c == '\t'
}

/// The characters that form single-symbol operators or parentheses;
/// `\u{2227}` is the conjunction sign, `\u{2228}` the disjunction
/// sign, `\u{ac}` the negation sign.
pub open spec fn is_symbol_char(c: char) -> bool {
    ||| c == '*'
    ||| c == '\u{2227}'
    ||| c == '&'
    ||| c == '+'
    ||| c == '\u{2228}'
    ||| c == '|'
    ||| c == '!'
    ||| c == '\u{ac}'
    ||| c == '('
    ||| c == ')'
}

/// A variable may contain any character that neither is whitespace nor
/// begins an operator or parenthesis.
pub open spec fn is_variable_char(c: char) -> bool {
    !is_space_char(c) && !is_symbol_char(c)
}

/// Length of the longest whitespace prefix of `s`.
pub open spec fn space_run_len(s: Seq<char>) -> nat
    decreases s.len(),
{
    if s.len() > 0 && is_space_char(s[0]) {
        (1 + space_run_len(s.skip(1))) as nat
    } else {
        0
    }
}

/// Length of the longest variable-character prefix of `s`.
pub open spec fn variable_run_len(s: Seq<char>) -> nat
    decreases s.len(),
{
    if s.len() > 0 && is_variable_char(s[0]) {
        (1 + variable_run_len(s.skip(1))) as nat
    } else {
        0
    }
}

/// How many characters an AND spelling matches at the head of `s`
/// (0 if none does): `and`, `&&`, `*`, the conjunction sign, or `&`.
pub open spec fn and_len(s: Seq<char>) -> nat {
    if s.len() >= 3 && s[0] == 'a' && s[1] == 'n' && s[2] == 'd' {
        3
    } else if s.len() >= 2 && s[0] == '&' && s[1] == '&' {
        2
    } else if s.len() >= 1 && (s[0] == '*' || s[0] == '\u{2227}' || s[0] == '&') {
        1
    } else {
        0
    }
}

/// How many characters an OR spelling matches at the head of `s`:
/// `or`, `||`, `+`, the disjunction sign, or `|`.
pub open spec fn or_len(s: Seq<char>) -> nat {
    if s.len() >= 2 && s[0] == 'o' && s[1] == 'r' {
        2
    } else if s.len() >= 2 && s[0] == '|' && s[1] == '|' {
        2
    } else if s.len() >= 1 && (s[0] == '+' || s[0] == '\u{2228}' || s[0] == '|') {
        1
    } else {
        0
    }
}

/// How many characters a NOT spelling matches at the head of `s`:
/// `not`, `!`, or the negation sign.
pub open spec fn not_len(s: Seq<char>) -> nat {
    if s.len() >= 3 && s[0] == 'n' && s[1] == 'o' && s[2] == 't' {
        3
    } else if s.len() >= 1 && (s[0] == '!' || s[0] == '\u{ac}') {
        1
    } else {
        0
    }
}

/// How many characters a TRUE literal matches at the head of `s`:
/// `true` or `1`.
pub open spec fn true_len(s: Seq<char>) -> nat {
    if s.len() >= 4 && s[0] == 't' && s[1] == 'r' && s[2] == 'u' && s[3] == 'e' {
        4
    } else if s.len() >= 1 && s[0] == '1' {
        1
    } else {
        0
    }
}

/// How many characters a FALSE literal matches at the head of `s`:
/// `false` or `0`.
pub open spec fn false_len(s: Seq<char>) -> nat {
    if s.len() >= 5 && s[0] == 'f' && s[1] == 'a' && s[2] == 'l' && s[3] == 's' && s[4] == 'e' {
        5
    } else if s.len() >= 1 && s[0] == '0' {
        1
    } else {
        0
    }
}

/// The length of the token at the head of a nonempty `s`, following
/// the matching order of the definitions.
pub open spec fn head_token_len(s: Seq<char>) -> nat {
    if space_run_len(s) > 0 {
        space_run_len(s)
    } else if and_len(s) > 0 {
        and_len(s)
    } else if or_len(s) > 0 {
        or_len(s)
    } else if not_len(s) > 0 {
        not_len(s)
    } else if true_len(s) > 0 {
        true_len(s)
    } else if false_len(s) > 0 {
        false_len(s)
    } else if s.len() > 0 && (s[0] == '(' || s[0] == ')') {
        1
    } else if variable_run_len(s) > 0 {
        variable_run_len(s)
    } else {
        1
    }
}

/// The token at the head of a nonempty `s`.
pub open spec fn head_token(s: Seq<char>) -> SpecToken {
    if space_run_len(s) > 0 {
        SpecToken::Whitespace
    } else if and_len(s) > 0 {
        SpecToken::And
    } else if or_len(s) > 0 {
        SpecToken::Or
    } else if not_len(s) > 0 {
        SpecToken::Not
    } else if true_len(s) > 0 {
        SpecToken::True
    } else if false_len(s) > 0 {
        SpecToken::False
    } else if s.len() > 0 && s[0] == '(' {
        SpecToken::LeftParen
    } else if s.len() > 0 && s[0] == ')' {
        SpecToken::RightParen
    } else {
        SpecToken::Variable(s.take(variable_run_len(s) as int))
    }
}

pub proof fn lemma_space_run_len_le(s: Seq<char>)
    ensures
        space_run_len(s) <= s.len(),
    decreases s.len(),
{
    if s.len() > 0 && is_space_char(s[0]) {
        lemma_space_run_len_le(s.skip(1));
    }
}

pub proof fn lemma_variable_run_len_le(s: Seq<char>)
    ensures
        variable_run_len(s) <= s.len(),
    decreases s.len(),
{
    if s.len() > 0 && is_variable_char(s[0]) {
        lemma_variable_run_len_le(s.skip(1));
    }
}

/// Every token of a nonempty input has at least one character and no
/// more than the input holds: a whitespace or variable run is nonempty
/// in its branch, every other definition matches a fixed short prefix,
/// and a head that matches no definition at all is a variable
/// character, so the catch-all applies.
pub proof fn lemma_head_token_len_bounds(s: Seq<char>)
    requires
        s.len() > 0,
    ensures
        1 <= head_token_len(s) <= s.len(),
{
    lemma_space_run_len_le(s);
    lemma_variable_run_len_le(s);
    if space_run_len(s) == 0 && and_len(s) == 0 && or_len(s) == 0 && not_len(s) == 0
        && true_len(s) == 0 && false_len(s) == 0 && s[0] != '(' && s[0] != ')' {
        assert(!is_space_char(s[0]));
        assert(!is_symbol_char(s[0]));
        assert(variable_run_len(s) > 0);
    }
}

/// The token sequence of an input string: the head token, then the
/// tokens of what follows it.
pub open spec fn spec_tokens(s: Seq<char>) -> Seq<SpecToken>
    decreases s.len(),
{
    if s.len() == 0 {
        Seq::empty()
    } else {
        proof {
            lemma_head_token_len_bounds(s);
        }
        seq![head_token(s)] + spec_tokens(s.skip(head_token_len(s) as int))
    }
}

/// If the first `k` characters of `s` are whitespace and the next one,
/// if any, is not, then the whitespace run is exactly `k` long.
pub proof fn lemma_space_run_len_eq(s: Seq<char>, k: int)
    requires
        0 <= k <= s.len(),
        forall|i: int| 0 <= i < k ==> is_space_char(s[i]),
        k == s.len() || !is_space_char(s[k]),
    ensures
        space_run_len(s) == k,
    decreases k,
{
    if k == 0 {
    } else {
        assert(is_space_char(s[0]));
        lemma_space_run_len_eq(s.skip(1), k - 1);
    }
}

/// The variable-character analogue of `lemma_space_run_len_eq`.
proof fn lemma_variable_run_len_eq(s: Seq<char>, k: int)
    requires
        0 <= k <= s.len(),
        forall|i: int| 0 <= i < k ==> is_variable_char(s[i]),
        k == s.len() || !is_variable_char(s[k]),
    ensures
        variable_run_len(s) == k,
    decreases k,
{
    if k == 0 {
    } else {
        assert(is_variable_char(s[0]));
        lemma_variable_run_len_eq(s.skip(1), k - 1);
    }
}

fn is_space(c: char) -> (r: bool)
    ensures
        r == is_space_char(c),
{
    c == ' ' || c == '\t'
}

fn is_variable(c: char) -> (r: bool)
    ensures
        r == is_variable_char(c),
{
    !(c == ' ' || c == '\t' || c == '*' || c == '\u{2227}' || c == '&' || c == '+'
        || c == '\u{2228}' || c == '|' || c == '!' || c == '\u{ac}' || c == '(' || c == ')')
}

/// A restartable, forward-only cursor over the input: `peek` reads the
/// token at the cursor, `next` reads it and advances past it.
pub struct Tokenizer {
    text: String,
    chars: Vec<char>,
    pos: usize,
}

impl Tokenizer {
    /// The cursor stands inside the input, and the owned character
    /// vector spells the same text the string does.
    pub closed spec fn wf(self) -> bool {
        self.pos <= self.chars.len() && self.text@ == self.chars@
    }

    /// The characters not yet consumed.
    pub closed spec fn remaining(self) -> Seq<char> {
        self.chars@.skip(self.pos as int)
    }

    pub fn new(input: &str) -> (tokenizer: Tokenizer)
        ensures
            tokenizer.wf(),
            tokenizer.remaining() == input@,
    {
        let n = input.unicode_len();
        let mut chars: Vec<char> = Vec::new();
        let mut i: usize = 0;
        while i < n
            invariant
                i <= n,
                n == input@.len(),
                chars@ == input@.take(i as int),
            decreases n - i,
        {
            chars.push(input.get_char(i));
            i = i + 1;
            proof {
                assert(chars@ =~= input@.take(i as int));
            }
        }
        proof {
            assert(input@.take(n as int) =~= input@);
        }
        let tokenizer = Tokenizer { text: input.to_owned(), chars, pos: 0 };
        proof {
            assert(tokenizer.remaining() =~= input@);
        }
        tokenizer
    }

    /// Read the token at the cursor and its length in characters,
    /// without advancing.
    fn scan(&self) -> (r: (Token, usize))
        requires
            self.wf(),
            self.pos < self.chars.len(),
        ensures
            r.0@ == head_token(self.remaining()),
            r.1 == head_token_len(self.remaining()),
            self.pos + r.1 <= self.chars.len(),
    {
        let ghost rem = self.remaining();
        let n = self.chars.len();
        let pos = self.pos;
        proof {
            assert(rem.len() == n - pos);
        }

        // Whitespace: the longest run of space characters.
        let mut k: usize = 0;
        while pos + k < n && is_space(self.chars[pos + k])
            invariant
                pos == self.pos,
                n == self.chars.len(),
                pos < n,
                pos + k <= n,
                rem == self.remaining(),
                rem.len() == n - pos,
                forall|i: int| 0 <= i < k ==> is_space_char(rem[i]),
            decreases n - pos - k,
        {
            k = k + 1;
            proof {
                assert(rem[k - 1] == self.chars@[pos + (k - 1)]);
            }
        }
        proof {
            lemma_space_run_len_eq(rem, k as int);
        }
        if k > 0 {
            return (Token::Whitespace, k);
        }

        // AND: `and`, `&&`, `*`, the conjunction sign, `&`.
        if n - pos >= 3 && self.chars[pos] == 'a' && self.chars[pos + 1] == 'n'
            && self.chars[pos + 2] == 'd' {
            return (Token::And, 3);
        }
        if n - pos >= 2 && self.chars[pos] == '&' && self.chars[pos + 1] == '&' {
            return (Token::And, 2);
        }
        let c0 = self.chars[pos];
        if c0 == '*' || c0 == '\u{2227}' || c0 == '&' {
            return (Token::And, 1);
        }

        // OR: `or`, `||`, `+`, the disjunction sign, `|`.
        if n - pos >= 2 && self.chars[pos] == 'o' && self.chars[pos + 1] == 'r' {
            return (Token::Or, 2);
        }
        if n - pos >= 2 && self.chars[pos] == '|' && self.chars[pos + 1] == '|' {
            return (Token::Or, 2);
        }
        if c0 == '+' || c0 == '\u{2228}' || c0 == '|' {
            return (Token::Or, 1);
        }

        // NOT: `not`, `!`, the negation sign.
        if n - pos >= 3 && self.chars[pos] == 'n' && self.chars[pos + 1] == 'o'
            && self.chars[pos + 2] == 't' {
            return (Token::Not, 3);
        }
        if c0 == '!' || c0 == '\u{ac}' {
            return (Token::Not, 1);
        }

        // TRUE: `true`, `1`.
        if n - pos >= 4 && self.chars[pos] == 't' && self.chars[pos + 1] == 'r'
            && self.chars[pos + 2] == 'u' && self.chars[pos + 3] == 'e' {
            return (Token::True, 4);
        }
        if c0 == '1' {
            return (Token::True, 1);
        }

        // FALSE: `false`, `0`.
        if n - pos >= 5 && self.chars[pos] == 'f' && self.chars[pos + 1] == 'a'
            && self.chars[pos + 2] == 'l' && self.chars[pos + 3] == 's'
            && self.chars[pos + 4] == 'e' {
            return (Token::False, 5);
        }
        if c0 == '0' {
            return (Token::False, 1);
        }

        if c0 == '(' {
            return (Token::LeftParen, 1);
        }
        if c0 == ')' {
            return (Token::RightParen, 1);
        }

        // Variable: the longest run of catch-all characters.  The head
        // character matched no definition above, so the run is nonempty.
        let mut v: usize = 1;
        while pos + v < n && is_variable(self.chars[pos + v])
            invariant
                pos == self.pos,
                n == self.chars.len(),
                pos < n,
                pos + v <= n,
                v >= 1,
                rem == self.remaining(),
                rem.len() == n - pos,
                forall|i: int| 0 <= i < v ==> is_variable_char(rem[i]),
            decreases n - pos - v,
        {
            v = v + 1;
            proof {
                assert(rem[v - 1] == self.chars@[pos + (v - 1)]);
            }
        }
        proof {
            lemma_variable_run_len_eq(rem, v as int);
            assert(self.text@.subrange(pos as int, pos + v) =~= rem.take(v as int));
        }
        let var_text = self.text.as_str().substring_char(pos, pos + v).to_owned();
        (Token::Variable(var_text), v)
    }

    /// The token at the cursor, or `None` at the end of the input.
    pub fn peek(&self) -> (r: Option<Token>)
        requires
            self.wf(),
        ensures
            (match r {
                None => self.remaining().len() == 0,
                Some(t) => self.remaining().len() > 0 && t@ == head_token(self.remaining()),
            }),
    {
        if self.pos < self.chars.len() {
            let (token, _) = self.scan();
            Some(token)
        } else {
            None
        }
    }

    /// The token at the cursor, advancing past it; `None` at and past
    /// the end of the input, without error.
    pub fn next(&mut self) -> (r: Option<Token>)
        requires
            old(self).wf(),
        ensures
            final(self).wf(),
            (match r {
                None => {
                    &&& old(self).remaining().len() == 0
                    &&& final(self).remaining() == old(self).remaining()
                },
                Some(t) => {
                    &&& old(self).remaining().len() > 0
                    &&& t@ == head_token(old(self).remaining())
                    &&& final(self).remaining() == old(self).remaining().skip(
                        head_token_len(old(self).remaining()) as int,
                    )
                },
            }),
    {
        if self.pos < self.chars.len() {
            let (token, len) = self.scan();
            self.pos = self.pos + len;
            proof {
                assert(self.remaining() =~= old(self).remaining().skip(
                    head_token_len(old(self).remaining()) as int,
                ));
            }
            Some(token)
        } else {
            None
        }
    }
}

} // verus!
