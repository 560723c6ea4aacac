use vstd::prelude::*;
use crate::lexer::{
    annotation_end, eol, lemma_lex_at_advances, lemma_scan_bounds, lex_at, lex_from, lex_spec,
    line_end, quote_end, range_of, whitespace, without_separators, Lexed,
};
use crate::lexer::token::TokenView;
use crate::range::Range;

verus! {

/// Whether the token `t` with range `r` is what the source text `s` holds
/// in that range: a punctuation token is its character; a symbol is the
/// text itself; a number is the text without `_` separators; a string is
/// the text between the quotes; an annotation is the text after the `#`; a
/// comment is the text up to the end of the line, which the range may
/// include.
pub open spec fn token_matches_source(s: Seq<char>, t: TokenView, r: Range) -> bool {
    let text = s.subrange(r.start as int, r.end as int);
    &&& r.start <= r.end <= s.len()
    &&& match t {
        TokenView::LeftParen => text == seq!['('],
        TokenView::RightParen => text == seq![')'],
        TokenView::LeftBracket => text == seq!['['],
        TokenView::RightBracket => text == seq![']'],
        TokenView::LeftBrace => text == seq!['{'],
        TokenView::RightBrace => text == seq!['}'],
        TokenView::Quote => text == seq!['\''],
        TokenView::Comment(c) => text == c || text == c.push('\n'),
        TokenView::String(c) => text == seq!['"'] + c.push('"'),
        TokenView::Symbol(c) => text == c,
        TokenView::Number(c) => without_separators(text) == c,
        TokenView::Annotation(c) => text == seq!['#'] + c,
    }
}

/// Whether the tokens stand one after the other: no range is empty or
/// reversed, and each token ends before the next one starts.
pub open spec fn tokens_in_order(tokens: Seq<(TokenView, Range)>) -> bool {
    &&& forall|i: int| 0 <= i < tokens.len() ==> (#[trigger] tokens[i]).1.start < tokens[i].1.end
    &&& forall|i: int, j: int|
        0 <= i < j < tokens.len() ==> (#[trigger] tokens[i]).1.end <= (#[trigger] tokens[j]).1.start
}

/// Whether every annotation token's text is shorter than `bound`.
pub open spec fn annotations_below(tokens: Seq<(TokenView, Range)>, bound: int) -> bool {
    forall|i: int|
        0 <= i < tokens.len() ==> ((#[trigger] tokens[i]).0 matches TokenView::Annotation(text)
            ==> text.len() < bound)
}

proof fn lemma_token_at(s: Seq<char>, pos: int)
    requires
        0 <= pos < s.len() <= usize::MAX,
    ensures
        lex_at(s, pos) matches Lexed::Token(t, r, next) ==> {
            &&& token_matches_source(s, t, r)
            &&& r.start == pos
            &&& r.end == next
            &&& pos < next <= s.len()
            &&& t matches TokenView::Annotation(text) ==> text.len() < s.len() - pos
        },
{
    lemma_lex_at_advances(s, pos);
    lemma_scan_bounds(s, pos + 1);
    let c = s[pos];
    match lex_at(s, pos) {
        Lexed::Token(t, r, next) => {
            let text = s.subrange(r.start as int, r.end as int);
            assert(r == range_of(pos, next));
            assert(text == s.subrange(pos, next));
            if c == ';' {
                let end = line_end(s, pos + 1);
                lemma_line_end_holds_eol(s, pos + 1);
                if end < s.len() {
                    assert(text =~= s.subrange(pos, end).push('\n'));
                }
            } else if c == '"' {
                let end = quote_end(s, pos + 1);
                lemma_quote_end_holds_quote(s, pos + 1);
                assert(text =~= seq!['"'] + s.subrange(pos + 1, end).push('"'));
            } else if c == '#' {
                let end = annotation_end(s, pos + 1, 0).0;
                assert(text =~= seq!['#'] + s.subrange(pos + 1, end));
            } else if !(t is Symbol || t is Number) {
                assert(text =~= seq![c]);
            }
        },
        _ => {},
    }
}

proof fn lemma_line_end_holds_eol(s: Seq<char>, pos: int)
    requires
        0 <= pos <= s.len(),
    ensures
        line_end(s, pos) < s.len() ==> s[line_end(s, pos)] == '\n',
    decreases s.len() - pos,
{
    if pos < s.len() && s[pos] != '\n' {
        lemma_line_end_holds_eol(s, pos + 1);
    }
}

proof fn lemma_quote_end_holds_quote(s: Seq<char>, pos: int)
    requires
        0 <= pos <= s.len(),
    ensures
        quote_end(s, pos) < s.len() ==> s[quote_end(s, pos)] == '"',
    decreases s.len() - pos,
{
    if pos < s.len() && s[pos] != '"' {
        lemma_quote_end_holds_quote(s, pos + 1);
    }
}

/// The tokens read from position `pos` on each lie at or after `pos`, match
/// the source text in their range, stand in order, and hold annotation
/// texts that are shorter than the rest of the text.
pub proof fn lemma_lex_from_tokens(s: Seq<char>, pos: int)
    requires
        0 <= pos <= s.len() <= usize::MAX,
    ensures
        lex_from(s, pos) matches Ok(tokens) ==> {
            &&& forall|i: int|
                0 <= i < tokens.len() ==> token_matches_source(
                    s,
                    (#[trigger] tokens[i]).0,
                    tokens[i].1,
                ) && pos <= tokens[i].1.start
            &&& tokens_in_order(tokens)
            &&& annotations_below(tokens, s.len() - pos)
        },
    decreases s.len() - pos,
{
    if pos < s.len() {
        lemma_lex_at_advances(s, pos);
        lemma_token_at(s, pos);
        match lex_at(s, pos) {
            Lexed::Token(t, r, next) => {
                lemma_lex_from_tokens(s, next);
                match lex_from(s, next) {
                    Ok(rest) => {
                        let tokens = seq![(t, r)] + rest;
                        assert forall|i: int| 0 <= i < tokens.len() implies token_matches_source(
                            s,
                            (#[trigger] tokens[i]).0,
                            tokens[i].1,
                        ) && pos <= tokens[i].1.start by {
                            if i > 0 {
                                assert(tokens[i] == rest[i - 1]);
                            }
                        }
                        assert forall|i: int| 0 <= i < tokens.len() implies (
                        #[trigger] tokens[i]).1.start < tokens[i].1.end by {
                            if i > 0 {
                                assert(tokens[i] == rest[i - 1]);
                            }
                        }
                        assert forall|i: int, j: int| 0 <= i < j < tokens.len() implies (
                        #[trigger] tokens[i]).1.end <= (#[trigger] tokens[j]).1.start by {
                            assert(tokens[j] == rest[j - 1]);
                            if i > 0 {
                                assert(tokens[i] == rest[i - 1]);
                            }
                        }
                        assert forall|i: int| 0 <= i < tokens.len() implies ((
                        #[trigger] tokens[i]).0 matches TokenView::Annotation(text) ==> text.len()
                            < s.len() - pos) by {
                            if i > 0 {
                                assert(tokens[i] == rest[i - 1]);
                            }
                        }
                    },
                    Err(_) => {},
                }
            },
            Lexed::Skip(next) => {
                lemma_lex_from_tokens(s, next);
            },
            Lexed::Fail(_, _) => {},
        }
    }
}

/// Every annotation among the tokens read from position `pos` on has a text
/// that is shorter than the rest of the source text.
pub proof fn lemma_lex_from_annotations(s: Seq<char>, pos: int)
    requires
        0 <= pos <= s.len(),
    ensures
        lex_from(s, pos) matches Ok(tokens) ==> annotations_below(tokens, s.len() - pos),
    decreases s.len() - pos,
{
    if pos < s.len() {
        lemma_lex_at_advances(s, pos);
        lemma_scan_bounds(s, pos + 1);
        match lex_at(s, pos) {
            Lexed::Token(t, r, next) => {
                lemma_lex_from_annotations(s, next);
                match lex_from(s, next) {
                    Ok(rest) => {
                        let tokens = seq![(t, r)] + rest;
                        assert forall|i: int| 0 <= i < tokens.len() implies ((
                        #[trigger] tokens[i]).0 matches TokenView::Annotation(text) ==> text.len()
                            < s.len() - pos) by {
                            if i > 0 {
                                assert(tokens[i] == rest[i - 1]);
                            }
                        }
                    },
                    Err(_) => {},
                }
            },
            Lexed::Skip(next) => {
                lemma_lex_from_annotations(s, next);
            },
            Lexed::Fail(_, _) => {},
        }
    }
}

/// Whether position `k` of the source text lies in the range of one of the
/// tokens.
pub open spec fn in_a_token(tokens: Seq<(TokenView, Range)>, k: int) -> bool {
    exists|i: int| 0 <= i < tokens.len() && (#[trigger] tokens[i]).1.start <= k < tokens[i].1.end
}

/// Nothing of the source text is dropped but white space: every position
/// from `pos` on lies in the range of a token, or holds a whitespace or
/// end-of-line character.
pub proof fn lemma_lex_from_covers(s: Seq<char>, pos: int)
    requires
        0 <= pos <= s.len() <= usize::MAX,
    ensures
        lex_from(s, pos) matches Ok(tokens) ==> forall|k: int|
            pos <= k < s.len() ==> in_a_token(tokens, k) || whitespace(#[trigger] s[k]) || eol(
                s[k],
            ),
    decreases s.len() - pos,
{
    if pos < s.len() {
        lemma_lex_at_advances(s, pos);
        match lex_at(s, pos) {
            Lexed::Token(t, r, next) => {
                lemma_lex_from_covers(s, next);
                match lex_from(s, next) {
                    Ok(rest) => {
                        let tokens = seq![(t, r)] + rest;
                        assert(tokens[0] == (t, r));
                        assert forall|k: int| pos <= k < s.len() implies in_a_token(tokens, k)
                            || whitespace(#[trigger] s[k]) || eol(s[k]) by {
                            if k < next {
                                assert(tokens[0].1.start <= k < tokens[0].1.end);
                            } else if in_a_token(rest, k) {
                                let i = choose|i: int|
                                    0 <= i < rest.len() && (#[trigger] rest[i]).1.start <= k
                                        < rest[i].1.end;
                                assert(tokens[i + 1] == rest[i]);
                                assert(tokens[i + 1].1.start <= k < tokens[i + 1].1.end);
                            }
                        }
                    },
                    Err(_) => {},
                }
            },
            Lexed::Skip(next) => {
                lemma_lex_from_covers(s, next);
            },
            Lexed::Fail(_, _) => {},
        }
    }
}

/// The lexer fails in three ways only: on a string or an annotation that
/// is still open at the end of the text, and on a `-` at the end of the
/// text. The range of the error lies within the text from `pos` on.
pub proof fn lemma_lex_from_errors(s: Seq<char>, pos: int)
    requires
        0 <= pos <= s.len() <= usize::MAX,
    ensures
        lex_from(s, pos) matches Err(e) ==> {
            &&& e.0 is UnterminatedString || e.0 is UnterminatedAnnotation || e.0 is UnexpectedEol
            &&& pos <= e.1.start <= e.1.end <= s.len()
            &&& !(e.0 is UnexpectedEol) ==> e.1.end == s.len()
        },
    decreases s.len() - pos,
{
    if pos < s.len() {
        lemma_lex_at_advances(s, pos);
        lemma_scan_bounds(s, pos + 1);
        crate::lexer::lemma_unbalanced_annotation(s, pos + 1, 0);
        match lex_at(s, pos) {
            Lexed::Token(t, r, next) => {
                lemma_lex_from_errors(s, next);
            },
            Lexed::Skip(next) => {
                lemma_lex_from_errors(s, next);
            },
            Lexed::Fail(_, _) => {},
        }
    }
}

/// Every token that the lexer emits matches the source text in its range:
/// the text in the range is the token's lexeme, but for the `_` separators
/// of a number, the quotes of a string, the `#` of an annotation and the
/// line end after a comment.
pub proof fn lemma_tokens_match_source(s: Seq<char>)
    requires
        s.len() <= usize::MAX,
    ensures
        lex_spec(s) matches Ok(tokens) ==> forall|i: int|
            0 <= i < tokens.len() ==> token_matches_source(
                s,
                (#[trigger] tokens[i]).0,
                tokens[i].1,
            ),
{
    lemma_lex_from_tokens(s, 0);
}

/// Nothing of a source text is dropped but white space: every position
/// lies in the range of a token that the lexer emits, or holds a
/// whitespace or end-of-line character.
pub proof fn lemma_tokens_cover_source(s: Seq<char>)
    requires
        s.len() <= usize::MAX,
    ensures
        lex_spec(s) matches Ok(tokens) ==> forall|k: int|
            0 <= k < s.len() ==> in_a_token(tokens, k) || whitespace(#[trigger] s[k]) || eol(s[k]),
{
    lemma_lex_from_covers(s, 0);
}

/// The tokens that the lexer emits stand in order in the source text.
pub proof fn lemma_tokens_in_order(s: Seq<char>)
    requires
        s.len() <= usize::MAX,
    ensures
        lex_spec(s) matches Ok(tokens) ==> tokens_in_order(tokens),
{
    lemma_lex_from_tokens(s, 0);
}

} // verus!
