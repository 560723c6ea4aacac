pub mod laws;

use vstd::prelude::*;
use crate::ann::Ann;
use crate::error::{Error, ErrorView};
use crate::expr::{assoc_insert, AnnView, DictView, Expr, ExprView};
use crate::expr::format::format_value_spec;
use crate::expr::{
    anns_view, exprs_view, lemma_anns_view, lemma_anns_view_push, lemma_exprs_view, Dict,
};
use crate::expr::format::format_value;
use crate::lexer::{lex_spec, tokens_view, Lexer};
use crate::lexer::laws::{annotations_below, lemma_lex_from_annotations};
use crate::lexer::token::{Token, TokenView};
use crate::range::{Range, Ranged};
use crate::text::{
    char_is_uppercase, chars_of, contains_char, decimal_numeral, int_from_str_radix,
    int_from_text, is_decimal_numeral, same_text, starts_with, starts_with_pair, text_of,
};

verus! {

/// The `NonRecoverableError` is returned when the parser cannot synchronize
/// to continue parsing to detect more errors. Parsing is stopped
/// immediately.
#[derive(Debug, Clone, Copy, PartialEq, Eq, Structural)]
pub struct NonRecoverableError {}

impl NonRecoverableError {
    /// The text that names this signal.
    pub fn to_string(&self) -> (s: String)
        ensures
            s@ == "NRE"@,
    {
        String::from_str("NRE")
    }
}

/// The mathematical value of a [`Parser`].
pub ghost struct ParserView {
    /// The tokens to parse.
    pub tokens: Seq<(TokenView, Range)>,
    /// The position of the next token to read.
    pub cursor: int,
    /// The annotations that wait for the next expression, each with the
    /// range of its token.
    pub buffered: Option<Seq<(Seq<char>, Range)>>,
    /// Where the expression that is being read, or was last read, starts.
    pub start: usize,
    /// Where the last token that was read ends.
    pub index: usize,
    /// The errors found so far.
    pub errors: Seq<(ErrorView, Range)>,
}

/// The length of the longest annotation text among `tokens`.
pub open spec fn longest_annotation(tokens: Seq<(TokenView, Range)>) -> nat
    decreases tokens.len(),
{
    if tokens.len() == 0 {
        0
    } else {
        let rest = longest_annotation(tokens.drop_last());
        match tokens.last().0 {
            TokenView::Annotation(text) => if text.len() > rest {
                text.len()
            } else {
                rest
            },
            _ => rest,
        }
    }
}

/// The length of the longest text among the buffered annotations.
pub open spec fn longest_buffered(buffered: Seq<(Seq<char>, Range)>) -> nat
    decreases buffered.len(),
{
    if buffered.len() == 0 {
        0
    } else {
        let rest = longest_buffered(buffered.drop_last());
        if buffered.last().0.len() > rest {
            buffered.last().0.len()
        } else {
            rest
        }
    }
}

impl ParserView {
    /// A parser that has read nothing of `tokens` yet.
    pub open spec fn initial(tokens: Seq<(TokenView, Range)>) -> ParserView {
        ParserView {
            tokens,
            cursor: 0,
            buffered: None,
            start: 0,
            index: 0,
            errors: Seq::empty(),
        }
    }

    /// The range from the start of the current expression to the end of the
    /// last token that was read.
    pub open spec fn range(self) -> Range {
        Range { start: self.start, end: self.index }
    }

    /// The parser after it has recorded the error `e` at `r`.
    pub open spec fn with_error(self, e: ErrorView, r: Range) -> ParserView {
        ParserView { errors: self.errors.push((e, r)), ..self }
    }

    /// The parser after it has read the token at the cursor.
    pub open spec fn advanced(self) -> ParserView {
        ParserView { cursor: self.cursor + 1, index: self.tokens[self.cursor].1.end, ..self }
    }

    /// The parser with the current expression starting at `start`.
    pub open spec fn starting_at(self, start: usize) -> ParserView {
        ParserView { start, ..self }
    }

    /// Whether this parser reads the same tokens as `before` and has gone
    /// on from where `before` stands, not past the last token.
    pub open spec fn follows(self, before: ParserView) -> bool {
        self.tokens == before.tokens && before.cursor < self.cursor <= self.tokens.len()
    }

    /// Whether this parser reads the same tokens as `before` and stands
    /// where `before` stands.
    pub open spec fn stands_at(self, before: ParserView) -> bool {
        self.tokens == before.tokens && self.cursor == before.cursor
    }

    /// A number that every annotation text, among the tokens and in the
    /// buffer, is shorter than.
    pub open spec fn bound(self) -> nat {
        let t = longest_annotation(self.tokens);
        let b = match self.buffered {
            Some(buffered) => longest_buffered(buffered),
            None => 0,
        };
        if t > b {
            t + 1
        } else {
            b + 1
        }
    }
}

/// The number of buffered annotations.
pub open spec fn buffered_len(buffered: Option<Seq<(Seq<char>, Range)>>) -> nat {
    match buffered {
        Some(b) => b.len(),
        None => 0,
    }
}

/// The expression that a symbol token with text `s` stands for.
pub open spec fn symbol_expr(s: Seq<char>) -> ExprView {
    if s.len() > 0 && s[0] == ':' {
        ExprView::KeySymbol(s.skip(1))
    } else if s == "true"@ {
        ExprView::Bool(true)
    } else if s == "false"@ {
        ExprView::Bool(false)
    } else {
        ExprView::Symbol(s)
    }
}

/// The expression that a number token with text `s` stands for, or the
/// error that it gives. A text with a `.` is a floating-point number, which
/// has to be a decimal numeral. Another text is an integer, in base 16, 2 or
/// 8 where it starts with `0x`, `0b` or `0o`, else in base 10.
pub open spec fn number_expr(s: Seq<char>) -> Result<ExprView, ErrorView> {
    if s.contains('.') {
        if decimal_numeral(s) {
            Ok(ExprView::Float(s))
        } else {
            Err(ErrorView::MalformedFloat)
        }
    } else {
        let parsed = if starts_with(s, seq!['0', 'x']) {
            int_from_text(s.skip(2), 16)
        } else if starts_with(s, seq!['0', 'b']) {
            int_from_text(s.skip(2), 2)
        } else if starts_with(s, seq!['0', 'o']) {
            int_from_text(s.skip(2), 8)
        } else {
            int_from_text(s, 10)
        };
        match parsed {
            Some(n) => Ok(ExprView::Int(n)),
            None => Err(ErrorView::MalformedInt),
        }
    }
}

/// The dict made of the first `pairs` pairs of `terms`: of each pair the
/// first term, as a value text, is the key and the second is the value. A
/// later pair with the same key replaces the earlier value.
pub open spec fn dict_of_terms(terms: Seq<AnnView>, pairs: int) -> DictView
    decreases pairs,
{
    if pairs <= 0 {
        Seq::empty()
    } else {
        assoc_insert(
            dict_of_terms(terms, pairs - 1),
            format_value_spec(terms[2 * pairs - 2].expr),
            terms[2 * pairs - 1].expr,
        )
    }
}

/// The expressions of `terms`, without their annotations and ranges.
pub open spec fn bare_terms(terms: Seq<AnnView>) -> Seq<ExprView> {
    terms.map_values(|a: AnnView| a.expr)
}

/// The symbol `quot` read from `range`.
pub open spec fn quot_symbol(range: Range) -> AnnView {
    AnnView {
        expr: ExprView::Symbol("quot"@),
        annotations: None,
        range: Some(range),
    }
}

/// What one annotation, parsed to the expression `e`, adds to the
/// annotated expression `a`: a symbol that starts with an uppercase letter
/// is the type; another symbol is a flag that is set to `true`; a list that
/// starts with a symbol is stored under that symbol. Anything else is
/// malformed.
pub open spec fn apply_annotation(a: AnnView, e: ExprView) -> Option<AnnView> {
    match e {
        ExprView::Symbol(sym) => if sym.len() == 0 {
            None
        } else if char_is_uppercase(sym[0]) {
            Some(a.annotate("type"@, e))
        } else {
            Some(a.annotate(sym, ExprView::Bool(true)))
        },
        ExprView::List(list) => if list.len() > 0 && list[0].expr is Symbol {
            Some(a.annotate(list[0].expr->Symbol_0, e))
        } else {
            None
        },
        _ => None,
    }
}

/// What reading one expression gives: the parser afterwards, and the
/// expression, nothing (after a comment, an annotation or a recoverable
/// error), or the sign that parsing cannot go on.
pub type ExprStep = (ParserView, Result<Option<ExprView>, NonRecoverableError>);

/// What reading the terms up to a closing delimiter gives.
pub type TermsStep = (ParserView, Result<Seq<AnnView>, NonRecoverableError>);

/// Reads one expression. `bound` limits the length of the annotation texts
/// that are parsed in turn.
///
/// A token that is an expression by itself gives that expression. A
/// comment gives nothing, and so does an annotation, which goes into the
/// buffer. An opening delimiter gives the list, array or dict of the terms
/// up to its closing delimiter; the empty list is the unit value. A
/// closing delimiter where an expression should begin, and a number that
/// cannot be read, are recorded as errors and give nothing. A quote stands
/// for the list of `quot` and the expression that follows it directly:
/// what gives nothing after a quote, a comment and an annotation too,
/// makes the quote invalid, which is recorded.
pub open spec fn parse_expr_spec(p: ParserView, bound: nat) -> ExprStep
    decreases bound, p.tokens.len() - p.cursor, 1int, 0int,
{
    if p.cursor < 0 || p.cursor >= p.tokens.len() {
        (p, Err(NonRecoverableError {  }))
    } else {
        let (token, range) = p.tokens[p.cursor];
        let q = p.advanced();
        match token {
            TokenView::Comment(_) => (q, Ok(None)),
            TokenView::String(s) => (q.starting_at(range.start), Ok(Some(ExprView::String(s)))),
            TokenView::Symbol(s) => (q.starting_at(range.start), Ok(Some(symbol_expr(s)))),
            TokenView::Number(s) => match number_expr(s) {
                Ok(e) => (q.starting_at(range.start), Ok(Some(e))),
                Err(e) => (q.with_error(e, range), Ok(None)),
            },
            TokenView::Annotation(s) => {
                let buffered = match q.buffered {
                    Some(b) => b,
                    None => Seq::empty(),
                };
                (ParserView { buffered: Some(buffered.push((s, range))), ..q }, Ok(None))
            },
            TokenView::Quote => {
                let (q1, target) = parse_expr_spec(q, bound);
                match target {
                    Ok(Some(e)) => {
                        let quoted = AnnView {
                            expr: e,
                            annotations: None,
                            range: Some(q1.range()),
                        };
                        (
                            q1.starting_at(range.start),
                            Ok(Some(ExprView::List(seq![quot_symbol(range), quoted]))),
                        )
                    },
                    _ => (q1.with_error(ErrorView::InvalidQuote, range), Ok(None)),
                }
            },
            TokenView::LeftParen => {
                let (q1, terms) = parse_many_spec(
                    q.starting_at(range.start),
                    TokenView::RightParen,
                    bound,
                );
                match terms {
                    Ok(terms) => (
                        q1.starting_at(range.start),
                        Ok(
                            Some(
                                if terms.len() == 0 {
                                    ExprView::One
                                } else {
                                    ExprView::List(terms)
                                },
                            ),
                        ),
                    ),
                    Err(e) => (q1, Err(e)),
                }
            },
            TokenView::LeftBracket => {
                let (q1, terms) = parse_many_spec(
                    q.starting_at(range.start),
                    TokenView::RightBracket,
                    bound,
                );
                match terms {
                    Ok(terms) => (
                        q1.starting_at(range.start),
                        Ok(Some(ExprView::Array(bare_terms(terms)))),
                    ),
                    Err(e) => (q1, Err(e)),
                }
            },
            TokenView::LeftBrace => {
                let (q1, terms) = parse_many_spec(
                    q.starting_at(range.start),
                    TokenView::RightBrace,
                    bound,
                );
                match terms {
                    Ok(terms) => (
                        q1.starting_at(range.start),
                        Ok(Some(ExprView::Dict(dict_of_terms(terms, terms.len() as int / 2)))),
                    ),
                    Err(e) => (q1, Err(e)),
                }
            },
            _ => (q.with_error(ErrorView::UnexpectedToken(token), range), Ok(None)),
        }
    }
}

/// Reads the terms of a list, an array or a dict, up to and including the
/// token `closing`. Each term gets the buffered annotations and its range.
/// Where the tokens end before `closing`, the error `UnterminatedList` is
/// recorded, from the start of the list to the end of the last token, and
/// parsing cannot go on.
///
/// The cases in which the parser has not moved forward make the
/// definition well-founded and never apply: see
/// `laws::lemma_expr_moves_forward` and `laws::lemma_attach_keeps`.
pub open spec fn parse_many_spec(p: ParserView, closing: TokenView, bound: nat) -> TermsStep
    decreases bound, p.tokens.len() - p.cursor, 2int, 0int,
{
    if p.cursor < 0 || p.cursor >= p.tokens.len() {
        (p.with_error(ErrorView::UnterminatedList, p.range()), Err(NonRecoverableError {  }))
    } else if p.tokens[p.cursor].0 == closing {
        (p.advanced(), Ok(Seq::empty()))
    } else {
        let (q, e) = parse_expr_spec(p, bound);
        if !q.follows(p) {
            (q, Err(NonRecoverableError {  }))
        } else {
            match e {
                Err(e) => (q, Err(e)),
                Ok(None) => parse_many_spec(q.starting_at(p.start), closing, bound),
                Ok(Some(e)) => {
                    let (q1, term) = attach_spec(q, e, bound);
                    if !q1.stands_at(q) {
                        (q1, Err(NonRecoverableError {  }))
                    } else {
                        let (q2, rest) = parse_many_spec(q1.starting_at(p.start), closing, bound);
                        match rest {
                            Ok(rest) => (q2, Ok(seq![term] + rest)),
                            Err(e) => (q2, Err(e)),
                        }
                    }
                },
            }
        }
    }
}

/// Gives the expression `e`, which has just been read, its range and the
/// buffered annotations, which leave the buffer.
pub open spec fn attach_spec(p: ParserView, e: ExprView, bound: nat) -> (ParserView, AnnView)
    decreases bound, 0int, 0int, buffered_len(p.buffered) + 1,
{
    let a = AnnView { expr: e, annotations: None, range: Some(p.range()) };
    match p.buffered {
        None => (p, a),
        Some(buffered) => attach_each_spec(
            ParserView { buffered: None, ..p },
            a,
            buffered,
            0,
            bound,
        ),
    }
}

/// Adds to `a` the annotations `buffered[i..]`, one after the other. Each
/// text is lexed and parsed as source code, and its first expression is the
/// annotation. At the first annotation that fails, its errors are recorded
/// and the rest of the annotations are dropped.
///
/// An annotation text can hold annotations in turn, which are shorter than
/// the text. The case of a text that is not shorter than `bound` makes the
/// definition well-founded and never applies where the parser is within
/// `bound`, as every parser is within its own bound
/// (`lemma_within_bound`).
pub open spec fn attach_each_spec(
    p: ParserView,
    a: AnnView,
    buffered: Seq<(Seq<char>, Range)>,
    i: int,
    bound: nat,
) -> (ParserView, AnnView)
    decreases bound, 0int, 0int, buffered.len() - i,
{
    if i < 0 || i >= buffered.len() {
        (p, a)
    } else {
        let (text, range) = buffered[i];
        let malformed = (p.with_error(ErrorView::MalformedAnnotation(text), range), a);
        if text.len() >= bound {
            malformed
        } else {
            match lex_spec(text) {
                Err(_) => malformed,
                Ok(tokens) => match parse_spec(ParserView::initial(tokens), text.len()).1 {
                    Err(errors) => (ParserView { errors: p.errors + errors, ..p }, a),
                    Ok(exprs) => if exprs.len() == 0 {
                        malformed
                    } else {
                        match apply_annotation(a, exprs[0].expr) {
                            None => malformed,
                            Some(a1) => attach_each_spec(p, a1, buffered, i + 1, bound),
                        }
                    },
                },
            }
        }
    }
}

/// What parsing the tokens gives: the parser afterwards, and the top-level
/// expressions or the errors.
pub type ParseStep = (ParserView, Result<Seq<AnnView>, Seq<(ErrorView, Range)>>);

/// The expressions that are read before parsing stops, and the parser
/// there. Parsing stops where no expression can be read any more, and at
/// the first expression that is read after an error was recorded. (The
/// cases in which the parser has not moved forward never apply, as in
/// `parse_many_spec`.)
pub open spec fn parse_loop_spec(p: ParserView, bound: nat) -> (ParserView, Seq<AnnView>)
    decreases bound, p.tokens.len() - p.cursor, 3int, 0int,
{
    if p.cursor < 0 || p.cursor >= p.tokens.len() {
        (p, Seq::empty())
    } else {
        let (q, e) = parse_expr_spec(p, bound);
        match e {
            Err(_) => (q, Seq::empty()),
            Ok(found) => if !q.follows(p) {
                (q, Seq::empty())
            } else {
                match found {
                    None => parse_loop_spec(q, bound),
                    Some(e) => {
                        let (q1, term) = attach_spec(q, e, bound);
                        if q1.errors.len() > 0 || !q1.stands_at(q) {
                            (q1, Seq::empty())
                        } else {
                            let (q2, rest) = parse_loop_spec(q1, bound);
                            (q2, seq![term] + rest)
                        }
                    },
                }
            },
        }
    }
}

/// Parses the tokens from the cursor on into top-level expressions. Where
/// any error was recorded, the errors are the result and leave the parser.
pub open spec fn parse_spec(p: ParserView, bound: nat) -> ParseStep
    decreases bound, p.tokens.len() - p.cursor, 4int, 0int,
{
    let (q, exprs) = parse_loop_spec(p, bound);
    if q.errors.len() == 0 {
        (q, Ok(exprs))
    } else {
        (ParserView { errors: Seq::empty(), ..q }, Err(q.errors))
    }
}

/// The top-level expressions of a token sequence, or the errors in it.
pub open spec fn parse_tokens_spec(tokens: Seq<(TokenView, Range)>) -> Result<
    Seq<AnnView>,
    Seq<(ErrorView, Range)>,
> {
    let p = ParserView::initial(tokens);
    parse_spec(p, p.bound()).1
}

/// The values of a sequence of buffered annotations, one by one.
pub open spec fn buffered_view(buffered: Seq<Ranged<String>>) -> Seq<(Seq<char>, Range)> {
    buffered.map_values(|a: Ranged<String>| a@)
}

/// The values of a sequence of errors with their ranges, one by one.
pub open spec fn errors_view(errors: Seq<Ranged<Error>>) -> Seq<(ErrorView, Range)> {
    errors.map_values(|e: Ranged<Error>| e@)
}

/// Whether every buffered annotation text is shorter than `bound`.
pub open spec fn buffered_below(buffered: Option<Seq<(Seq<char>, Range)>>, bound: int) -> bool {
    match buffered {
        Some(b) => texts_below(b, bound),
        None => true,
    }
}

/// Whether every annotation text in `buffered` is shorter than `bound`.
pub open spec fn texts_below(buffered: Seq<(Seq<char>, Range)>, bound: int) -> bool {
    forall|i: int| 0 <= i < buffered.len() ==> (#[trigger] buffered[i]).0.len() < bound
}

impl ParserView {
    /// Whether every annotation text, among the tokens and in the buffer,
    /// is shorter than `bound`.
    pub open spec fn within(self, bound: nat) -> bool {
        annotations_below(self.tokens, bound as int) && buffered_below(self.buffered, bound as int)
    }
}

proof fn lemma_longest_annotation(tokens: Seq<(TokenView, Range)>)
    ensures
        annotations_below(tokens, (longest_annotation(tokens) + 1) as int),
    decreases tokens.len(),
{
    if tokens.len() > 0 {
        lemma_longest_annotation(tokens.drop_last());
        assert forall|i: int| 0 <= i < tokens.len() implies ((
        #[trigger] tokens[i]).0 matches TokenView::Annotation(text) ==> text.len()
            < longest_annotation(tokens) + 1) by {
            if i < tokens.len() - 1 {
                assert(tokens[i] == tokens.drop_last()[i]);
            }
        }
    }
}

proof fn lemma_longest_buffered(buffered: Seq<(Seq<char>, Range)>)
    ensures
        texts_below(buffered, (longest_buffered(buffered) + 1) as int),
    decreases buffered.len(),
{
    if buffered.len() > 0 {
        let shorter = buffered.drop_last();
        lemma_longest_buffered(shorter);
        assert forall|i: int| 0 <= i < buffered.len() implies (#[trigger] buffered[i]).0.len()
            < longest_buffered(buffered) + 1 by {
            if i < buffered.len() - 1 {
                assert(buffered[i] == shorter[i]);
            }
        }
    }
}

/// Every annotation text of a parser is shorter than the parser's bound.
pub proof fn lemma_within_bound(p: ParserView)
    ensures
        p.within(p.bound()),
{
    lemma_longest_annotation(p.tokens);
    match p.buffered {
        Some(b) => lemma_longest_buffered(b),
        None => {},
    }
}

/// The value of what reading one expression returned.
pub open spec fn expr_outcome(r: Result<Option<Expr>, NonRecoverableError>) -> Result<
    Option<ExprView>,
    NonRecoverableError,
> {
    match r {
        Ok(Some(e)) => Ok(Some(e@)),
        Ok(None) => Ok(None),
        Err(e) => Err(e),
    }
}

/// The value of what reading terms returned.
pub open spec fn terms_outcome(r: Result<Vec<Ann<Expr>>, NonRecoverableError>) -> Result<
    Seq<AnnView>,
    NonRecoverableError,
> {
    match r {
        Ok(terms) => Ok(anns_view(terms@)),
        Err(e) => Err(e),
    }
}

/// The value of what parsing returned.
pub open spec fn parse_outcome(r: Result<Vec<Ann<Expr>>, Vec<Ranged<Error>>>) -> Result<
    Seq<AnnView>,
    Seq<(ErrorView, Range)>,
> {
    match r {
        Ok(exprs) => Ok(anns_view(exprs@)),
        Err(errors) => Err(errors_view(errors@)),
    }
}

/// The expression that a symbol token with text `s` stands for.
fn symbol_of(s: String) -> (e: Expr)
    ensures
        e@ == symbol_expr(s@),
{
    let chars = chars_of(s.as_str());
    if chars.len() > 0 && chars[0] == ':' {
        let name = text_of(&chars, 1, chars.len());
        assert(name@ =~= s@.skip(1));
        Expr::KeySymbol(name)
    } else if same_text(s.as_str(), "true") {
        Expr::Bool(true)
    } else if same_text(s.as_str(), "false") {
        Expr::Bool(false)
    } else {
        Expr::Symbol(s)
    }
}

/// The expression that a number token with text `s` stands for, or the
/// error that it gives.
fn number_of(s: String) -> (r: Result<Expr, Error>)
    ensures
        match r {
            Ok(e) => number_expr(s@) == Ok::<ExprView, ErrorView>(e@),
            Err(e) => number_expr(s@) == Err::<ExprView, ErrorView>(e@),
        },
{
    let chars = chars_of(s.as_str());
    if contains_char(&chars, '.') {
        if is_decimal_numeral(s.as_str()) {
            Ok(Expr::Float(s))
        } else {
            Err(Error::MalformedFloat)
        }
    } else {
        let parsed = if starts_with_pair(&chars, '0', 'x') {
            let digits = text_of(&chars, 2, chars.len());
            assert(digits@ =~= s@.skip(2));
            int_from_str_radix(digits.as_str(), 16)
        } else if starts_with_pair(&chars, '0', 'b') {
            let digits = text_of(&chars, 2, chars.len());
            assert(digits@ =~= s@.skip(2));
            int_from_str_radix(digits.as_str(), 2)
        } else if starts_with_pair(&chars, '0', 'o') {
            let digits = text_of(&chars, 2, chars.len());
            assert(digits@ =~= s@.skip(2));
            int_from_str_radix(digits.as_str(), 8)
        } else {
            int_from_str_radix(s.as_str(), 10)
        };
        match parsed {
            Some(n) => Ok(Expr::Int(n)),
            None => Err(Error::MalformedInt),
        }
    }
}

/// The expressions of `terms`, without their annotations and ranges.
fn array_of(terms: &Vec<Ann<Expr>>) -> (items: Vec<Expr>)
    ensures
        exprs_view(items@) == bare_terms(anns_view(terms@)),
{
    let mut items: Vec<Expr> = Vec::new();
    let mut i: usize = 0;
    while i < terms.len()
        invariant
            i <= terms.len(),
            items.len() == i,
            forall|j: int| 0 <= j < i ==> items@[j]@ == terms@[j]@.expr,
        decreases terms.len() - i,
    {
        items.push(terms[i].0.clone());
        i += 1;
    }
    proof {
        lemma_anns_view(terms@);
        lemma_exprs_view(items@);
        assert(exprs_view(items@) =~= bare_terms(anns_view(terms@)));
    }
    items
}

/// The dict whose keys and values are the terms, taken in pairs.
fn dict_of(terms: &Vec<Ann<Expr>>) -> (dict: Dict)
    ensures
        dict@ == dict_of_terms(anns_view(terms@), terms.len() as int / 2),
{
    let mut dict = Dict::new();
    let pairs = terms.len() / 2;
    let mut k: usize = 0;
    proof {
        lemma_anns_view(terms@);
    }
    while k < pairs
        invariant
            k <= pairs,
            pairs == terms.len() / 2,
            dict@ == dict_of_terms(anns_view(terms@), k as int),
            anns_view(terms@).len() == terms.len(),
            forall|j: int| 0 <= j < terms.len() ==> #[trigger] anns_view(terms@)[j] == terms@[j]@,
        decreases pairs - k,
    {
        let key = format_value(&terms[2 * k].0);
        let value = terms[2 * k + 1].0.clone();
        dict.insert(key, value);
        k += 1;
    }
    dict
}

/// The Parser performs the syntactic analysis stage of the compilation
/// pipeline. The input token stream is reduced into an Abstract Syntax Tree
/// (AST). The nodes of the AST are associated with annotations.
pub struct Parser {
    tokens: Vec<Ranged<Token>>,
    cursor: usize,
    buffered_annotations: Option<Vec<Ranged<String>>>,
    start: usize,
    index: usize,
    errors: Vec<Ranged<Error>>,
}

impl View for Parser {
    type V = ParserView;

    closed spec fn view(&self) -> ParserView {
        ParserView {
            tokens: tokens_view(self.tokens@),
            cursor: self.cursor as int,
            buffered: match self.buffered_annotations {
                Some(b) => Some(buffered_view(b@)),
                None => None,
            },
            start: self.start,
            index: self.index,
            errors: errors_view(self.errors@),
        }
    }
}

impl Parser {
    /// Makes a parser that will read `tokens`.
    pub fn new(tokens: Vec<Ranged<Token>>) -> (parser: Parser)
        ensures
            parser@ == ParserView::initial(tokens_view(tokens@)),
    {
        let parser = Parser {
            tokens,
            cursor: 0,
            buffered_annotations: None,
            start: 0,
            index: 0,
            errors: Vec::new(),
        };
        assert(parser@.errors =~= Seq::empty());
        parser
    }

    /// The token at the cursor, if any; the parser moves past it.
    fn next_token(&mut self) -> (t: Option<Ranged<Token>>)
        ensures
            match t {
                Some(token) => {
                    &&& 0 <= old(self)@.cursor < old(self)@.tokens.len()
                    &&& token@ == old(self)@.tokens[old(self)@.cursor]
                    &&& final(self)@ == old(self)@.advanced()
                },
                None => old(self)@.cursor >= old(self)@.tokens.len() && final(self)@ == old(self)@,
            },
    {
        if self.cursor < self.tokens.len() {
            let token = Ranged(self.tokens[self.cursor].0.clone(), self.tokens[self.cursor].1);
            self.cursor += 1;
            self.index = token.1.end;
            Some(token)
        } else {
            None
        }
    }

    /// Whether the token at the cursor is `token`.
    fn at_token(&self, token: &Token) -> (b: bool)
        requires
            0 <= self@.cursor < self@.tokens.len(),
        ensures
            b == (self@.tokens[self@.cursor].0 == token@),
    {
        self.tokens[self.cursor].0.same(token)
    }

    /// The range from the start of the current expression to the end of the
    /// last token that was read.
    fn range(&self) -> (r: Range)
        ensures
            r == self@.range(),
    {
        Range { start: self.start, end: self.index }
    }

    /// Records the error `error` at `range`.
    fn push_error(&mut self, error: Error, range: Range)
        ensures
            final(self)@ == old(self)@.with_error(error@, range),
    {
        self.errors.push(Ranged(error, range));
        assert(self@.errors =~= old(self)@.errors.push((error@, range)));
    }

    /// Puts an annotation into the buffer, where it waits for the next
    /// expression.
    fn buffer_annotation(&mut self, text: String, range: Range)
        ensures
            final(self)@ == (ParserView {
                buffered: Some(
                    (match old(self)@.buffered {
                        Some(b) => b,
                        None => Seq::empty(),
                    }).push((text@, range)),
                ),
                ..old(self)@
            }),
    {
        let mut buffered = match self.buffered_annotations.take() {
            Some(b) => b,
            None => Vec::new(),
        };
        let ghost before = buffered_view(buffered@);
        buffered.push(Ranged(text, range));
        assert(buffered_view(buffered@) =~= before.push((text@, range)));
        assert(before =~= match old(self)@.buffered {
            Some(b) => b,
            None => Seq::empty(),
        });
        self.buffered_annotations = Some(buffered);
    }

    /// Reads one expression. Every annotation text is shorter than
    /// `bound`.
    fn read_expr(&mut self, Ghost(bound): Ghost<nat>) -> (r: Result<
        Option<Expr>,
        NonRecoverableError,
    >)
        requires
            old(self)@.within(bound),
        ensures
            (final(self)@, expr_outcome(r)) == parse_expr_spec(old(self)@, bound),
            final(self)@.within(bound),
            final(self)@.tokens == old(self)@.tokens,
            old(self)@.cursor <= final(self)@.cursor,
            old(self)@.cursor <= old(self)@.tokens.len() ==> final(self)@.cursor
                <= old(self)@.tokens.len(),
            r is Ok ==> final(self)@.follows(old(self)@),
        decreases bound, old(self)@.tokens.len() - old(self)@.cursor, 1int, 0int,
    {
        let Some(token) = self.next_token() else {
            return Err(NonRecoverableError {  });
        };
        let Ranged(t, range) = token;
        match t {
            Token::Comment(_) => Ok(None),
            Token::String(s) => {
                self.start = range.start;
                Ok(Some(Expr::String(s)))
            },
            Token::Symbol(s) => {
                self.start = range.start;
                Ok(Some(symbol_of(s)))
            },
            Token::Number(lexeme) => match number_of(lexeme) {
                Ok(e) => {
                    self.start = range.start;
                    Ok(Some(e))
                },
                Err(error) => {
                    self.push_error(error, range);
                    Ok(None)
                },
            },
            Token::Annotation(s) => {
                self.buffer_annotation(s, range);
                Ok(None)
            },
            Token::Quote => {
                match self.read_expr(Ghost(bound)) {
                    Ok(Some(target)) => {
                        let quoted = Ann::with_range(target, self.range());
                        let quot = Ann::with_range(Expr::symbol("quot"), range);
                        self.start = range.start;
                        let list = vec![quot, quoted];
                        proof {
                            lemma_anns_view(list@);
                            assert(anns_view(list@) =~= seq![quot@, quoted@]);
                        }
                        Ok(Some(Expr::List(list)))
                    },
                    _ => {
                        self.push_error(Error::InvalidQuote, range);
                        Ok(None)
                    },
                }
            },
            Token::LeftParen => {
                self.start = range.start;
                match self.read_terms(&Token::RightParen, Ghost(bound)) {
                    Ok(terms) => {
                        self.start = range.start;
                        proof {
                            lemma_anns_view(terms@);
                        }
                        if terms.len() == 0 {
                            Ok(Some(Expr::One))
                        } else {
                            Ok(Some(Expr::List(terms)))
                        }
                    },
                    Err(e) => Err(e),
                }
            },
            Token::LeftBracket => {
                self.start = range.start;
                match self.read_terms(&Token::RightBracket, Ghost(bound)) {
                    Ok(terms) => {
                        self.start = range.start;
                        Ok(Some(Expr::Array(array_of(&terms))))
                    },
                    Err(e) => Err(e),
                }
            },
            Token::LeftBrace => {
                self.start = range.start;
                match self.read_terms(&Token::RightBrace, Ghost(bound)) {
                    Ok(terms) => {
                        self.start = range.start;
                        proof {
                            lemma_anns_view(terms@);
                        }
                        Ok(Some(Expr::Dict(dict_of(&terms))))
                    },
                    Err(e) => Err(e),
                }
            },
            _ => {
                self.push_error(Error::UnexpectedToken(t), range);
                Ok(None)
            },
        }
    }

    /// Reads the terms of a list up to the token `closing`. Every
    /// annotation text is shorter than `bound`.
    fn read_terms(&mut self, closing: &Token, Ghost(bound): Ghost<nat>) -> (r: Result<
        Vec<Ann<Expr>>,
        NonRecoverableError,
    >)
        requires
            old(self)@.within(bound),
        ensures
            (final(self)@, terms_outcome(r)) == parse_many_spec(old(self)@, closing@, bound),
            final(self)@.within(bound),
            final(self)@.tokens == old(self)@.tokens,
            old(self)@.cursor <= final(self)@.cursor,
            old(self)@.cursor <= old(self)@.tokens.len() ==> final(self)@.cursor
                <= old(self)@.tokens.len(),
            r is Ok ==> final(self)@.follows(old(self)@),
        decreases bound, old(self)@.tokens.len() - old(self)@.cursor, 2int, 0int,
    {
        let list_start = self.start;
        let mut exprs: Vec<Ann<Expr>> = Vec::new();
        let ghost origin = self@;
        proof {
            lemma_anns_view(exprs@);
            lemma_terms_onto_empty(parse_many_spec(origin, closing@, bound));
        }
        loop
            invariant
                origin == old(self)@,
                self@.within(bound),
                self@.tokens == origin.tokens,
                origin.cursor <= self@.cursor,
                origin.cursor <= origin.tokens.len() ==> self@.cursor <= origin.tokens.len(),
                exprs.len() > 0 ==> self@.follows(origin),
                self@.start == list_start,
                parse_many_spec(origin, closing@, bound) == terms_onto(
                    anns_view(exprs@),
                    parse_many_spec(self@, closing@, bound),
                ),
            decreases self@.tokens.len() - self@.cursor,
        {
            if self.cursor >= self.tokens.len() {
                let range = self.range();
                self.push_error(Error::UnterminatedList, range);
                return Err(NonRecoverableError {  });
            }
            if self.at_token(closing) {
                self.next_token();
                proof {
                    assert(anns_view(exprs@) + Seq::<AnnView>::empty() =~= anns_view(exprs@));
                }
                return Ok(exprs);
            }
            match self.read_expr(Ghost(bound)) {
                Err(e) => {
                    return Err(e);
                },
                Ok(None) => {
                    self.start = list_start;
                },
                Ok(Some(e)) => {
                    let term = self.attach_annotations(e, Ghost(bound));
                    self.start = list_start;
                    proof {
                        let rest = parse_many_spec(self@, closing@, bound);
                        lemma_anns_view_push(exprs@, term);
                        lemma_terms_onto_push(anns_view(exprs@), term@, rest);
                    }
                    exprs.push(term);
                },
            }
        }
    }

    /// Wraps `expr`, which has just been read, with the buffered (prefix)
    /// annotations. The annotations are parsed into expressions. Also
    /// attaches the range of the expression.
    fn attach_annotations(&mut self, expr: Expr, Ghost(bound): Ghost<nat>) -> (a: Ann<Expr>)
        requires
            old(self)@.within(bound),
        ensures
            (final(self)@, a@) == attach_spec(old(self)@, expr@, bound),
            final(self)@.within(bound),
            final(self)@.stands_at(old(self)@),
            final(self)@.start == old(self)@.start,
            final(self)@.index == old(self)@.index,
        decreases bound, 0int, 0int, buffered_len(old(self)@.buffered) + 1,
    {
        let mut a = Ann::with_range(expr, self.range());
        let Some(annotations) = self.buffered_annotations.take() else {
            return a;
        };
        let ghost origin = old(self)@;
        let ghost buffered = buffered_view(annotations@);
        let mut i: usize = 0;
        while i < annotations.len()
            invariant
                i <= annotations.len(),
                origin == old(self)@,
                buffered == buffered_view(annotations@),
                texts_below(buffered, bound as int),
                self@.within(bound),
                self@.buffered is None,
                self@.stands_at(origin),
                self@.start == origin.start,
                self@.index == origin.index,
                attach_spec(origin, expr@, bound) == attach_each_spec(
                    self@,
                    a@,
                    buffered,
                    i as int,
                    bound,
                ),
            decreases annotations.len() - i,
        {
            let text = annotations[i].0.clone();
            let range = annotations[i].1;
            assert(buffered[i as int] == (text@, range));
            assert(text@.len() < bound);
            let mut lexer = Lexer::new(text.as_str());
            let Ok(tokens) = lexer.lex() else {
                self.push_error(Error::MalformedAnnotation(text), range);
                return a;
            };
            proof {
                lemma_lex_from_annotations(text@, 0);
            }
            let mut parser = Parser::new(tokens);
            match parser.parse_all(Ghost(text@.len())) {
                Err(mut errors) => {
                    let ghost before = self@.errors;
                    let ghost added = errors_view(errors@);
                    self.errors.append(&mut errors);
                    assert(self@.errors =~= before + added);
                    return a;
                },
                Ok(exprs) => {
                    proof {
                        lemma_anns_view(exprs@);
                    }
                    if exprs.len() == 0 {
                        self.push_error(Error::MalformedAnnotation(text), range);
                        return a;
                    }
                    let annotation = exprs[0].0.clone();
                    if !apply(&mut a, annotation) {
                        self.push_error(Error::MalformedAnnotation(text), range);
                        return a;
                    }
                },
            }
            i += 1;
        }
        a
    }

    /// Parses the tokens into top-level expressions. Every annotation text
    /// is shorter than `bound`.
    fn parse_all(&mut self, Ghost(bound): Ghost<nat>) -> (r: Result<
        Vec<Ann<Expr>>,
        Vec<Ranged<Error>>,
    >)
        requires
            old(self)@.within(bound),
        ensures
            (final(self)@, parse_outcome(r)) == parse_spec(old(self)@, bound),
        decreases bound, old(self)@.tokens.len() - old(self)@.cursor, 4int, 0int,
    {
        let mut exprs: Vec<Ann<Expr>> = Vec::new();
        let ghost origin = self@;
        proof {
            lemma_anns_view(exprs@);
            assert(anns_view(exprs@) + parse_loop_spec(origin, bound).1 =~= parse_loop_spec(
                origin,
                bound,
            ).1);
        }
        loop
            invariant_except_break
                parse_loop_spec(origin, bound) == (
                    parse_loop_spec(self@, bound).0,
                    anns_view(exprs@) + parse_loop_spec(self@, bound).1,
                ),
            invariant
                origin == old(self)@,
                self@.within(bound),
                self@.tokens == origin.tokens,
                origin.cursor <= self@.cursor,
            ensures
                parse_loop_spec(origin, bound) == (self@, anns_view(exprs@)),
            decreases self@.tokens.len() - self@.cursor,
        {
            if self.cursor >= self.tokens.len() {
                assert(anns_view(exprs@) + Seq::<AnnView>::empty() =~= anns_view(exprs@));
                break ;
            }
            match self.read_expr(Ghost(bound)) {
                Err(_) => {
                    assert(anns_view(exprs@) + Seq::<AnnView>::empty() =~= anns_view(exprs@));
                    break ;
                },
                Ok(None) => {},
                Ok(Some(e)) => {
                    let term = self.attach_annotations(e, Ghost(bound));
                    if self.errors.len() > 0 {
                        assert(anns_view(exprs@) + Seq::<AnnView>::empty() =~= anns_view(exprs@));
                        break ;
                    }
                    proof {
                        let rest = parse_loop_spec(self@, bound).1;
                        lemma_anns_view_push(exprs@, term);
                        assert(anns_view(exprs@) + (seq![term@] + rest) =~= anns_view(
                            exprs@,
                        ).push(term@) + rest);
                    }
                    exprs.push(term);
                },
            }
        }
        if self.errors.len() == 0 {
            Ok(exprs)
        } else {
            let mut errors: Vec<Ranged<Error>> = Vec::new();
            let ghost found = self@.errors;
            errors.append(&mut self.errors);
            assert(errors_view(errors@) =~= found);
            assert(self@.errors =~= Seq::empty());
            Err(errors)
        }
    }

    /// Reads one expression. Returns the expression; nothing after a
    /// comment, an annotation, which is kept for the next expression, or an
    /// error after which parsing can go on, which is recorded; or the sign
    /// that parsing cannot go on, at the end of the tokens or inside a list
    /// that is not closed.
    pub fn parse_expr(&mut self) -> (r: Result<Option<Expr>, NonRecoverableError>)
        ensures
            (final(self)@, expr_outcome(r)) == parse_expr_spec(old(self)@, old(self)@.bound()),
    {
        proof {
            lemma_within_bound(self@);
        }
        self.read_expr(Ghost(self@.bound()))
    }

    /// Reads the terms of a list up to the token `delimiter`, which closes
    /// it. The terms carry their annotations and ranges.
    pub fn parse_many(&mut self, delimiter: Token) -> (r: Result<
        Vec<Ann<Expr>>,
        NonRecoverableError,
    >)
        ensures
            (final(self)@, terms_outcome(r)) == parse_many_spec(
                old(self)@,
                delimiter@,
                old(self)@.bound(),
            ),
    {
        proof {
            lemma_within_bound(self@);
        }
        self.read_terms(&delimiter, Ghost(self@.bound()))
    }

    /// Parses the input tokens into expressions.
    /// The parser tries to return as many errors as possible.
    pub fn parse(&mut self) -> (r: Result<Vec<Ann<Expr>>, Vec<Ranged<Error>>>)
        ensures
            (final(self)@, parse_outcome(r)) == parse_spec(old(self)@, old(self)@.bound()),
    {
        proof {
            lemma_within_bound(self@);
        }
        self.parse_all(Ghost(self@.bound()))
    }
}

/// `rest` with the terms `done` in front of what it read.
pub open spec fn terms_onto(done: Seq<AnnView>, rest: TermsStep) -> TermsStep {
    match rest.1 {
        Ok(terms) => (rest.0, Ok(done + terms)),
        Err(e) => (rest.0, Err(e)),
    }
}

proof fn lemma_terms_onto_empty(rest: TermsStep)
    ensures
        terms_onto(Seq::empty(), rest) == rest,
{
    match rest.1 {
        Ok(terms) => {
            assert(Seq::<AnnView>::empty() + terms =~= terms);
        },
        Err(_) => {},
    }
}

proof fn lemma_terms_onto_push(done: Seq<AnnView>, term: AnnView, rest: TermsStep)
    ensures
        terms_onto(
            done,
            (
                rest.0,
                match rest.1 {
                    Ok(terms) => Ok(seq![term] + terms),
                    Err(e) => Err(e),
                },
            ),
        ) == terms_onto(done.push(term), rest),
{
    match rest.1 {
        Ok(terms) => {
            assert(done + (seq![term] + terms) =~= done.push(term) + terms);
        },
        Err(_) => {},
    }
}

/// Adds to `a` what the annotation `e` says. Returns whether `e` is of a
/// known form.
fn apply(a: &mut Ann<Expr>, e: Expr) -> (ok: bool)
    ensures
        match apply_annotation(old(a)@, e@) {
            Some(annotated) => ok && final(a)@ == annotated,
            None => !ok && final(a)@ == old(a)@,
        },
{
    match &e {
        Expr::Symbol(sym) => {
            let chars = chars_of(sym.as_str());
            if chars.len() == 0 {
                return false;
            }
            if chars[0].is_uppercase() {
                a.set_annotation(String::from_str("type"), e);
            } else {
                let name = sym.clone();
                a.set_annotation(name, Expr::Bool(true));
            }
            true
        },
        Expr::List(list) => {
            proof {
                lemma_anns_view(list@);
            }
            if list.len() == 0 {
                return false;
            }
            match &list[0].0 {
                Expr::Symbol(sym) => {
                    let name = sym.clone();
                    a.set_annotation(name, e);
                    true
                },
                _ => false,
            }
        },
        _ => false,
    }
}


} // verus!
