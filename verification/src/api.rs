use vstd::prelude::*;
use crate::ann::Ann;
use crate::error::{Error, ErrorView};
use crate::eval::env::{Env, EnvView};
use crate::eval::machine::{Machine, MachineView};
use crate::expr::{AnnView, Expr};
use crate::lexer::{lex_spec, Lexer};
use crate::lexer::laws::lemma_tokens_in_order;
use crate::parser::{errors_view, parse_outcome, parse_tokens_spec, Parser};
use crate::parser::laws::{all_nested, lemma_parse_ranges_nested};
use crate::range::{Range, Ranged};

verus! {

/// The top-level expressions of a source text, or the errors in it: the
/// first lexical error alone, or else all the errors that parsing found.
pub open spec fn parse_text_spec(input: Seq<char>) -> Result<
    Seq<AnnView>,
    Seq<(ErrorView, Range)>,
> {
    match lex_spec(input) {
        Ok(tokens) => parse_tokens_spec(tokens),
        Err(e) => Err(seq![e]),
    }
}

/// Parses a source text into its top-level expressions. A text that does
/// not parse has at least one error.
pub fn parse_string(input: &str) -> (r: Result<Vec<Ann<Expr>>, Vec<Ranged<Error>>>)
    ensures
        parse_outcome(r) == parse_text_spec(input@),
        r matches Err(errors) ==> errors.len() > 0,
{
    let mut lexer = Lexer::new(input);
    let tokens = match lexer.lex() {
        Ok(tokens) => tokens,
        Err(e) => {
            let mut errors: Vec<Ranged<Error>> = Vec::new();
            let ghost error = e@;
            errors.push(e);
            assert(errors_view(errors@) =~= seq![error]);
            return Err(errors);
        },
    };
    let mut parser = Parser::new(tokens);
    let r = parser.parse();
    proof {
        if r is Err {
            assert(errors_view(r->Err_0@).len() == r->Err_0.len());
        }
    }
    r
}

/// The first of `errors`.
pub fn first_error(errors: Vec<Ranged<Error>>) -> (e: Ranged<Error>)
    requires
        errors.len() > 0,
    ensures
        e@ == errors_view(errors@)[0],
{
    let mut errors = errors;
    errors.swap_remove(0)
}

/// The machine that evaluates a source text in `env`: where the text
/// parses, the machine that is about to evaluate its top-level forms in
/// order, whose result is the value of the last form, or the unit value
/// where there is none; else the machine that has ended with the first
/// error of the text.
pub open spec fn eval_text_spec(input: Seq<char>, env: EnvView) -> MachineView {
    match parse_text_spec(input) {
        Ok(exprs) => MachineView::start_forms(exprs, env),
        Err(errors) => MachineView::failed(errors[0].0, errors[0].1, env),
    }
}

/// Starts the evaluation of a source text in `env`: parses the text and
/// returns the machine that evaluates its top-level forms in order. The
/// host takes the machine's steps. A text that does not parse gives a
/// machine that has ended with the first error.
pub fn eval_string(input: &str, env: Env) -> (m: Machine)
    ensures
        m@ == eval_text_spec(input@, env@),
{
    match parse_string(input) {
        Ok(exprs) => Machine::with_forms(exprs, env),
        Err(errors) => Machine::failed(first_error(errors), env),
    }
}

/// Range containment for source text: every expression that is parsed from
/// a text has a range, and the range of every term of a list lies within
/// the range of the list, at every depth.
pub proof fn lemma_parsed_ranges_nested(input: Seq<char>)
    requires
        input.len() <= usize::MAX,
    ensures
        parse_text_spec(input) matches Ok(exprs) ==> all_nested(exprs),
{
    lemma_tokens_in_order(input);
    match lex_spec(input) {
        Ok(tokens) => {
            lemma_parse_ranges_nested(tokens);
        },
        Err(_) => {},
    }
}

} // verus!
