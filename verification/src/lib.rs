//! A verified evaluator for textual boolean-logic expressions.
//!
//! The input language admits several spellings per operator (symbolic,
//! C-style and word forms).  A longest-match tokenizer turns the input
//! into a token stream, a precedence-climbing parser builds an
//! expression tree from it, and `eval` folds the tree to a boolean.

use vstd::prelude::*;

pub mod tokenizer;
pub mod parser;

use crate::parser::{spec_parse, Node, ParseError};
use crate::tokenizer::{is_space_char, lemma_space_run_len_eq, spec_tokens, SpecToken};

verus! {

/// The value of an expression tree: literals stand for themselves,
/// the connectives are the boolean connectives.
pub open spec fn spec_eval(node: Node) -> bool
    decreases node,
{
    match node {
        Node::Boolean(value) => value,
        Node::And(left, right) => spec_eval(*left) && spec_eval(*right),
        Node::Or(left, right) => spec_eval(*left) || spec_eval(*right),
        Node::Not(operand) => !spec_eval(*operand),
    }
}

/// Evaluate an expression tree to its boolean value.
///
/// Evaluation is total: every tree variant has a case, so no input
/// tree can fail to evaluate.
pub fn eval(expression: Node) -> (result: bool)
    ensures
        result == spec_eval(expression),
    decreases expression,
{
    match expression {
        Node::Boolean(value) => value,
        Node::And(left, right) => eval(*left) && eval(*right),
        Node::Or(left, right) => eval(*left) || eval(*right),
        Node::Not(node) => !eval(*node),
    }
}

/// Parsing and evaluating are deterministic: `Parser::parse` promises
/// its result equals `spec_parse` of the input's tokens, and `eval`
/// promises its result equals `spec_eval` of its tree, so any number
/// of runs over the same string yield the same outcome.  There is no
/// hidden state.
pub proof fn lemma_parse_deterministic(
    input: Seq<char>,
    first: Result<Option<Node>, ParseError>,
    second: Result<Option<Node>, ParseError>,
)
    requires
        first == spec_parse(spec_tokens(input)),
        second == spec_parse(spec_tokens(input)),
    ensures
        first == second,
{
}

/// An empty input, including one of nothing but whitespace, parses to
/// the distinguished "no expression" outcome: not an error, and not a
/// boolean.
pub proof fn lemma_empty_input_no_expression(input: Seq<char>)
    requires
        forall|i: int| 0 <= i < input.len() ==> is_space_char(input[i]),
    ensures
        spec_parse(spec_tokens(input)) == Ok::<Option<Node>, ParseError>(None),
{
    if input.len() == 0 {
        assert(spec_tokens(input) =~= Seq::<SpecToken>::empty());
    } else {
        lemma_space_run_len_eq(input, input.len() as int);
        assert(crate::tokenizer::head_token_len(input) == input.len());
        assert(crate::tokenizer::head_token(input) == SpecToken::Whitespace);
        assert(spec_tokens(input.skip(input.len() as int)) =~= Seq::<SpecToken>::empty());
        assert(spec_tokens(input) =~= seq![SpecToken::Whitespace]);
        assert(crate::parser::skip_leading_ws(spec_tokens(input)) =~= Seq::<SpecToken>::empty());
    }
}

} // verus!
