use vstd::prelude::*;
use crate::expr::{assoc_distinct, lemma_assoc_insert, AnnView, ExprView};
use crate::expr::format::format_value_spec;
use crate::lexer::laws::tokens_in_order;
use crate::lexer::token::TokenView;
use crate::parser::{
    apply_annotation, attach_each_spec, attach_spec, dict_of_terms, parse_expr_spec,
    parse_loop_spec, parse_many_spec, parse_spec, parse_tokens_spec, ParserView,
};
use crate::range::Range;

verus! {

/// Whether `a` and every expression below it has a range, no range is
/// reversed, and the range of each term of a list lies within the range of
/// the list.
pub open spec fn ranges_nested(a: AnnView) -> bool
    decreases a,
{
    &&& a.range matches Some(r)
    &&& r.start <= r.end
    &&& match a.expr {
        ExprView::List(items) => forall|i: int|
            0 <= i < items.len() ==> {
                &&& (#[trigger] items[i]).range matches Some(inner)
                &&& r.encloses(inner)
                &&& ranges_nested(items[i])
            },
        _ => true,
    }
}

/// Whether each of `terms` has nested ranges that lie between the
/// positions `low` and `high`.
pub open spec fn terms_nested(terms: Seq<AnnView>, low: usize, high: usize) -> bool {
    forall|i: int|
        0 <= i < terms.len() ==> {
            &&& (#[trigger] terms[i]).range matches Some(r)
            &&& low <= r.start
            &&& r.end <= high
            &&& ranges_nested(terms[i])
        }
}

/// Whether each of `exprs` has nested ranges.
pub open spec fn all_nested(exprs: Seq<AnnView>) -> bool {
    forall|i: int| 0 <= i < exprs.len() ==> ranges_nested(#[trigger] exprs[i])
}

/// `e` with the range `r` and no annotations.
pub open spec fn ranged(e: ExprView, r: Range) -> AnnView {
    AnnView { expr: e, annotations: None, range: Some(r) }
}

/// Whether an expression keeps nested ranges does not depend on its
/// annotations.
proof fn lemma_nested_ignores_annotations(a: AnnView, b: AnnView)
    requires
        a.expr == b.expr,
        a.range == b.range,
    ensures
        ranges_nested(a) == ranges_nested(b),
{
}

/// Attaching annotations changes neither the expression nor its range, and
/// leaves the parser where it stands.
proof fn lemma_attach_each_keeps(
    p: ParserView,
    a: AnnView,
    buffered: Seq<(Seq<char>, Range)>,
    i: int,
    bound: nat,
)
    requires
        0 <= i,
    ensures
        ({
            let (q, b) = attach_each_spec(p, a, buffered, i, bound);
            &&& b.expr == a.expr
            &&& b.range == a.range
            &&& q.stands_at(p)
            &&& q.start == p.start
            &&& q.index == p.index
            &&& q.buffered == p.buffered
        }),
    decreases buffered.len() - i,
{
    if i < buffered.len() {
        let (text, range) = buffered[i];
        if text.len() < bound {
            match crate::lexer::lex_spec(text) {
                Err(_) => {},
                Ok(tokens) => match parse_spec(ParserView::initial(tokens), text.len()).1 {
                    Err(_) => {},
                    Ok(exprs) => if exprs.len() > 0 {
                        match apply_annotation(a, exprs[0].expr) {
                            None => {},
                            Some(a1) => {
                                lemma_attach_each_keeps(p, a1, buffered, i + 1, bound);
                            },
                        }
                    },
                },
            }
        }
    }
}

/// Attaching annotations gives the expression the parser's current range,
/// and leaves the parser where it stands.
pub proof fn lemma_attach_keeps(p: ParserView, e: ExprView, bound: nat)
    ensures
        ({
            let (q, a) = attach_spec(p, e, bound);
            &&& a.expr == e
            &&& a.range == Some(p.range())
            &&& q.stands_at(p)
            &&& q.start == p.start
            &&& q.index == p.index
            &&& q.buffered is None
        }),
{
    match p.buffered {
        None => {},
        Some(buffered) => {
            lemma_attach_each_keeps(
                ParserView { buffered: None, ..p },
                ranged(e, p.range()),
                buffered,
                0,
                bound,
            );
        },
    }
}

/// No key occurs twice in a dict that is made of terms.
pub proof fn lemma_dict_of_terms_distinct(terms: Seq<AnnView>, pairs: int)
    ensures
        assoc_distinct(dict_of_terms(terms, pairs)),
    decreases pairs,
{
    if pairs > 0 {
        lemma_dict_of_terms_distinct(terms, pairs - 1);
        lemma_assoc_insert(
            dict_of_terms(terms, pairs - 1),
            format_value_spec(terms[2 * pairs - 2].expr),
            terms[2 * pairs - 1].expr,
        );
    }
}

/// Reading an expression moves the parser forward: the tokens stay the
/// same, the cursor does not go back nor past the last token, and it goes
/// on by at least one token unless parsing cannot go on. Every annotation
/// text stays shorter than `bound`.
pub proof fn lemma_expr_moves_forward(p: ParserView, bound: nat)
    requires
        0 <= p.cursor <= p.tokens.len(),
        p.within(bound),
    ensures
        ({
            let (q, r) = parse_expr_spec(p, bound);
            &&& q.tokens == p.tokens
            &&& p.cursor <= q.cursor <= p.tokens.len()
            &&& r is Ok ==> q.follows(p)
            &&& q.within(bound)
        }),
    decreases bound, p.tokens.len() - p.cursor, 1int, 0int,
{
    if p.cursor < p.tokens.len() {
        let (token, range) = p.tokens[p.cursor];
        let q0 = p.advanced();
        match token {
            TokenView::Quote => {
                lemma_expr_moves_forward(q0, bound);
            },
            TokenView::LeftParen => {
                lemma_terms_move_forward(q0.starting_at(range.start), TokenView::RightParen, bound);
            },
            TokenView::LeftBracket => {
                lemma_terms_move_forward(
                    q0.starting_at(range.start),
                    TokenView::RightBracket,
                    bound,
                );
            },
            TokenView::LeftBrace => {
                lemma_terms_move_forward(q0.starting_at(range.start), TokenView::RightBrace, bound);
            },
            TokenView::Annotation(text) => {
                let buffered = match q0.buffered {
                    Some(b) => b,
                    None => Seq::empty(),
                };
                let longer = buffered.push((text, range));
                assert forall|i: int| 0 <= i < longer.len() implies (#[trigger] longer[i]).0.len()
                    < bound by {
                    if i < buffered.len() {
                        assert(longer[i] == buffered[i]);
                    }
                }
            },
            _ => {},
        }
    }
}

/// Reading the terms of a list moves the parser forward, as reading an
/// expression does.
pub proof fn lemma_terms_move_forward(p: ParserView, closing: TokenView, bound: nat)
    requires
        0 <= p.cursor <= p.tokens.len(),
        p.within(bound),
    ensures
        ({
            let (q, r) = parse_many_spec(p, closing, bound);
            &&& q.tokens == p.tokens
            &&& p.cursor <= q.cursor <= p.tokens.len()
            &&& r is Ok ==> q.follows(p)
            &&& q.within(bound)
        }),
    decreases bound, p.tokens.len() - p.cursor, 2int, 0int,
{
    if p.cursor < p.tokens.len() && p.tokens[p.cursor].0 != closing {
        lemma_expr_moves_forward(p, bound);
        let (q, e) = parse_expr_spec(p, bound);
        match e {
            Err(_) => {},
            Ok(None) => {
                lemma_terms_move_forward(q.starting_at(p.start), closing, bound);
            },
            Ok(Some(e)) => {
                lemma_attach_keeps(q, e, bound);
                let (q1, term) = attach_spec(q, e, bound);
                lemma_terms_move_forward(q1.starting_at(p.start), closing, bound);
            },
        }
    }
}

/// Where the tokens stand in order, an expression that is read covers the
/// tokens it was read from: it starts at or after the first token, ends
/// with the last token read, and its ranges are nested.
proof fn lemma_expr_ranges(p: ParserView, bound: nat)
    requires
        tokens_in_order(p.tokens),
        0 <= p.cursor <= p.tokens.len(),
    ensures
        ({
            let (q, r) = parse_expr_spec(p, bound);
            &&& q.tokens == p.tokens
            &&& p.cursor <= q.cursor <= p.tokens.len()
            &&& q.cursor > p.cursor ==> q.index == p.tokens[q.cursor - 1].1.end
            &&& q.cursor == p.cursor ==> q.index == p.index
            &&& r is Ok ==> q.cursor > p.cursor
            &&& r matches Ok(Some(e)) ==> {
                &&& p.tokens[p.cursor].1.start <= q.start
                &&& ranges_nested(ranged(e, q.range()))
            }
        }),
    decreases bound, p.tokens.len() - p.cursor, 1int, 0int,
{
    if p.cursor < p.tokens.len() {
        let (token, range) = p.tokens[p.cursor];
        let q0 = p.advanced();
        assert(p.tokens[p.cursor].1.start < p.tokens[p.cursor].1.end);
        match token {
            TokenView::Quote => {
                lemma_expr_ranges(q0, bound);
                let (q1, target) = parse_expr_spec(q0, bound);
                match target {
                    Ok(Some(e)) => {
                        let quoted = ranged(e, q1.range());
                        let items = seq![crate::parser::quot_symbol(range), quoted];
                        let whole = Range { start: range.start, end: q1.index };
                        assert(p.tokens[p.cursor].1.end <= p.tokens[p.cursor + 1].1.start);
                        if q1.cursor - 1 > p.cursor + 1 {
                            assert(p.tokens[p.cursor + 1].1.end <= p.tokens[q1.cursor
                                - 1].1.start);
                        }
                        assert(p.tokens[q1.cursor - 1].1.start < p.tokens[q1.cursor - 1].1.end);
                        assert forall|i: int| 0 <= i < items.len() implies {
                            &&& (#[trigger] items[i]).range matches Some(inner)
                            &&& whole.encloses(inner)
                            &&& ranges_nested(items[i])
                        } by {
                            if i == 0 {
                            } else {
                                assert(items[i] == quoted);
                            }
                        }
                    },
                    _ => {},
                }
            },
            TokenView::LeftParen => {
                lemma_terms_ranges(q0.starting_at(range.start), TokenView::RightParen, bound);
                lemma_list_ranges(p, TokenView::RightParen, bound);
            },
            TokenView::LeftBracket => {
                lemma_terms_ranges(q0.starting_at(range.start), TokenView::RightBracket, bound);
                lemma_list_ranges(p, TokenView::RightBracket, bound);
            },
            TokenView::LeftBrace => {
                lemma_terms_ranges(q0.starting_at(range.start), TokenView::RightBrace, bound);
                lemma_list_ranges(p, TokenView::RightBrace, bound);
            },
            _ => {},
        }
    }
}

/// What `lemma_terms_ranges` shows of the terms of a list gives the list
/// itself nested ranges, from its opening to its closing token.
proof fn lemma_list_ranges(p: ParserView, closing: TokenView, bound: nat)
    requires
        tokens_in_order(p.tokens),
        0 <= p.cursor < p.tokens.len(),
        ({
            let open = p.advanced().starting_at(p.tokens[p.cursor].1.start);
            let (q, r) = parse_many_spec(open, closing, bound);
            &&& q.tokens == open.tokens
            &&& open.cursor <= q.cursor <= open.tokens.len()
            &&& q.cursor > open.cursor ==> q.index == open.tokens[q.cursor - 1].1.end
            &&& q.cursor == open.cursor ==> q.index == open.index
            &&& r is Ok ==> q.cursor > open.cursor
            &&& r matches Ok(terms) ==> terms_nested(
                terms,
                p.tokens[p.cursor].1.end,
                open.tokens[q.cursor - 1].1.start,
            )
        }),
    ensures
        ({
            let open = p.advanced().starting_at(p.tokens[p.cursor].1.start);
            let (q, r) = parse_many_spec(open, closing, bound);
            let whole = Range { start: p.tokens[p.cursor].1.start, end: q.index };
            r matches Ok(terms) ==> {
                &&& whole.start <= whole.end
                &&& forall|i: int|
                    0 <= i < terms.len() ==> {
                        &&& (#[trigger] terms[i]).range matches Some(inner)
                        &&& whole.encloses(inner)
                        &&& ranges_nested(terms[i])
                    }
            }
        }),
{
    let open = p.advanced().starting_at(p.tokens[p.cursor].1.start);
    let (q, r) = parse_many_spec(open, closing, bound);
    match r {
        Ok(terms) => {
            let last = q.cursor - 1;
            assert(p.tokens[p.cursor].1.start < p.tokens[p.cursor].1.end);
            assert(p.tokens[last].1.start < p.tokens[last].1.end);
            assert(p.tokens[p.cursor].1.end <= p.tokens[last].1.start);
            assert forall|i: int| 0 <= i < terms.len() implies {
                &&& (#[trigger] terms[i]).range matches Some(inner)
                &&& (Range { start: p.tokens[p.cursor].1.start, end: q.index }).encloses(inner)
                &&& ranges_nested(terms[i])
            } by {
                let t = terms[i];
                assert(ranges_nested(t));
            }
        },
        Err(_) => {},
    }
}

/// Where the tokens stand in order, the terms that are read up to a closing
/// token have nested ranges that lie between the token before the first
/// term and the closing token.
proof fn lemma_terms_ranges(p: ParserView, closing: TokenView, bound: nat)
    requires
        tokens_in_order(p.tokens),
        0 < p.cursor <= p.tokens.len(),
    ensures
        ({
            let (q, r) = parse_many_spec(p, closing, bound);
            &&& q.tokens == p.tokens
            &&& p.cursor <= q.cursor <= p.tokens.len()
            &&& q.cursor > p.cursor ==> q.index == p.tokens[q.cursor - 1].1.end
            &&& q.cursor == p.cursor ==> q.index == p.index
            &&& r is Ok ==> q.cursor > p.cursor
            &&& r matches Ok(terms) ==> terms_nested(
                terms,
                p.tokens[p.cursor - 1].1.end,
                p.tokens[q.cursor - 1].1.start,
            )
        }),
    decreases bound, p.tokens.len() - p.cursor, 2int, 0int,
{
    if p.cursor < p.tokens.len() && p.tokens[p.cursor].0 != closing {
        lemma_expr_ranges(p, bound);
        let (q, e) = parse_expr_spec(p, bound);
        assert(p.tokens[p.cursor - 1].1.end <= p.tokens[p.cursor].1.start);
        match e {
            Err(_) => {},
            Ok(None) => {
                let next = q.starting_at(p.start);
                lemma_terms_ranges(next, closing, bound);
                let (q2, rest) = parse_many_spec(next, closing, bound);
                match rest {
                    Ok(rest) => {
                        assert(p.tokens[p.cursor - 1].1.end <= p.tokens[q.cursor - 1].1.end) by {
                            assert(p.tokens[p.cursor - 1].1.end <= p.tokens[q.cursor
                                - 1].1.start);
                            assert(p.tokens[q.cursor - 1].1.start < p.tokens[q.cursor
                                - 1].1.end);
                        }
                    },
                    Err(_) => {},
                }
            },
            Ok(Some(e)) => {
                lemma_attach_keeps(q, e, bound);
                let (q1, term) = attach_spec(q, e, bound);
                lemma_nested_ignores_annotations(term, ranged(e, q.range()));
                let next = q1.starting_at(p.start);
                lemma_terms_ranges(next, closing, bound);
                let (q2, rest) = parse_many_spec(next, closing, bound);
                match rest {
                    Ok(rest) => {
                        let terms = seq![term] + rest;
                        let low = p.tokens[p.cursor - 1].1.end;
                        let high = p.tokens[q2.cursor - 1].1.start;
                        assert(p.tokens[q.cursor - 1].1.end <= high);
                        assert(p.tokens[q.cursor - 1].1.start < p.tokens[q.cursor - 1].1.end);
                        assert(low <= p.tokens[q.cursor - 1].1.end) by {
                            if q.cursor - 1 > p.cursor - 1 {
                                assert(p.tokens[p.cursor - 1].1.end <= p.tokens[q.cursor
                                    - 1].1.start);
                            }
                        }
                        assert forall|i: int| 0 <= i < terms.len() implies {
                            &&& (#[trigger] terms[i]).range matches Some(r)
                            &&& low <= r.start
                            &&& r.end <= high
                            &&& ranges_nested(terms[i])
                        } by {
                            if i == 0 {
                                assert(terms[0] == term);
                            } else {
                                assert(terms[i] == rest[i - 1]);
                            }
                        }
                    },
                    Err(_) => {},
                }
            },
        }
    }
}

/// Where the tokens stand in order, every top-level expression that is
/// read has nested ranges.
proof fn lemma_loop_ranges(p: ParserView, bound: nat)
    requires
        tokens_in_order(p.tokens),
        0 <= p.cursor <= p.tokens.len(),
    ensures
        all_nested(parse_loop_spec(p, bound).1),
    decreases bound, p.tokens.len() - p.cursor, 3int, 0int,
{
    if p.cursor < p.tokens.len() {
        lemma_expr_ranges(p, bound);
        let (q, e) = parse_expr_spec(p, bound);
        match e {
            Err(_) => {},
            Ok(None) => {
                lemma_loop_ranges(q, bound);
            },
            Ok(Some(e)) => {
                lemma_attach_keeps(q, e, bound);
                let (q1, term) = attach_spec(q, e, bound);
                lemma_nested_ignores_annotations(term, ranged(e, q.range()));
                if q1.errors.len() == 0 {
                    lemma_loop_ranges(q1, bound);
                    let (q2, rest) = parse_loop_spec(q1, bound);
                    let exprs = seq![term] + rest;
                    assert forall|i: int| 0 <= i < exprs.len() implies ranges_nested(
                        #[trigger] exprs[i],
                    ) by {
                        if i == 0 {
                            assert(exprs[0] == term);
                        } else {
                            assert(exprs[i] == rest[i - 1]);
                        }
                    }
                }
            },
        }
    }
}

/// Whether the annotation `key` of `a`, if there is one, holds something
/// other than a symbol.
pub open spec fn holds_no_symbol(a: AnnView, key: Seq<char>) -> bool {
    !(a.annotation(key) is Some && a.annotation(key)->Some_0 is Symbol)
}

/// Whether in each of `exprs` the annotation `key`, if there is one, holds
/// something other than a symbol.
pub open spec fn all_hold_no_symbol(exprs: Seq<AnnView>, key: Seq<char>) -> bool {
    forall|i: int| 0 <= i < exprs.len() ==> holds_no_symbol(#[trigger] exprs[i], key)
}

/// Setting an annotation to something other than a symbol, or setting
/// another annotation, leaves an annotation that holds no symbol so.
proof fn lemma_annotate_holds_no_symbol(
    a: AnnView,
    name: Seq<char>,
    value: ExprView,
    key: Seq<char>,
)
    requires
        holds_no_symbol(a, key),
        name != key || !(value is Symbol),
    ensures
        holds_no_symbol(a.annotate(name, value), key),
{
    let before = match a.annotations {
        Some(d) => d,
        None => Seq::empty(),
    };
    lemma_assoc_insert(before, name, value);
    if name != key && a.annotations is None {
        assert(crate::expr::assoc_get(before, key) is None);
    }
}

proof fn lemma_attach_each_symbols(
    p: ParserView,
    a: AnnView,
    buffered: Seq<(Seq<char>, Range)>,
    i: int,
    bound: nat,
    key: Seq<char>,
)
    requires
        0 <= i,
        key != "type"@,
        holds_no_symbol(a, key),
    ensures
        holds_no_symbol(attach_each_spec(p, a, buffered, i, bound).1, key),
    decreases buffered.len() - i,
{
    if i < buffered.len() {
        let (text, range) = buffered[i];
        if text.len() < bound {
            match crate::lexer::lex_spec(text) {
                Err(_) => {},
                Ok(tokens) => match parse_spec(ParserView::initial(tokens), text.len()).1 {
                    Err(_) => {},
                    Ok(exprs) => if exprs.len() > 0 {
                        let e = exprs[0].expr;
                        match apply_annotation(a, e) {
                            None => {},
                            Some(a1) => {
                                match e {
                                    ExprView::Symbol(sym) => {
                                        if crate::text::char_is_uppercase(sym[0]) {
                                            lemma_annotate_holds_no_symbol(a, "type"@, e, key);
                                        } else {
                                            lemma_annotate_holds_no_symbol(
                                                a,
                                                sym,
                                                ExprView::Bool(true),
                                                key,
                                            );
                                        }
                                    },
                                    ExprView::List(list) => {
                                        lemma_annotate_holds_no_symbol(
                                            a,
                                            list[0].expr->Symbol_0,
                                            e,
                                            key,
                                        );
                                    },
                                    _ => {},
                                }
                                lemma_attach_each_symbols(p, a1, buffered, i + 1, bound, key);
                            },
                        }
                    },
                },
            }
        }
    }
}

/// The only annotation of a parsed expression that can hold a symbol is
/// its type: where an annotation is a symbol, it is the type, or else a
/// flag, which is stored as `true`; where it is a list, the list is stored.
pub proof fn lemma_attach_symbols_are_types(p: ParserView, e: ExprView, bound: nat, key: Seq<char>)
    requires
        key != "type"@,
    ensures
        holds_no_symbol(attach_spec(p, e, bound).1, key),
{
    match p.buffered {
        None => {},
        Some(buffered) => {
            lemma_attach_each_symbols(
                ParserView { buffered: None, ..p },
                ranged(e, p.range()),
                buffered,
                0,
                bound,
                key,
            );
        },
    }
}

proof fn lemma_loop_symbols_are_types(p: ParserView, bound: nat, key: Seq<char>)
    requires
        key != "type"@,
    ensures
        all_hold_no_symbol(parse_loop_spec(p, bound).1, key),
    decreases bound, p.tokens.len() - p.cursor, 3int, 0int,
{
    if 0 <= p.cursor < p.tokens.len() {
        let (q, e) = parse_expr_spec(p, bound);
        match e {
            Err(_) => {},
            Ok(found) => if q.follows(p) {
                match found {
                    None => {
                        lemma_loop_symbols_are_types(q, bound, key);
                    },
                    Some(e) => {
                        lemma_attach_symbols_are_types(q, e, bound, key);
                        let (q1, term) = attach_spec(q, e, bound);
                        if q1.errors.len() == 0 && q1.stands_at(q) {
                            lemma_loop_symbols_are_types(q1, bound, key);
                            let (q2, rest) = parse_loop_spec(q1, bound);
                            let exprs = seq![term] + rest;
                            assert forall|i: int| 0 <= i < exprs.len() implies holds_no_symbol(
                                #[trigger] exprs[i],
                                key,
                            ) by {
                                if i == 0 {
                                    assert(exprs[0] == term);
                                } else {
                                    assert(exprs[i] == rest[i - 1]);
                                }
                            }
                        }
                    },
                }
            },
        }
    }
}

/// In every expression that the parser returns, the only annotation that
/// can hold a symbol is the type.
pub proof fn lemma_parsed_symbols_are_types(tokens: Seq<(TokenView, Range)>, key: Seq<char>)
    requires
        key != "type"@,
    ensures
        parse_tokens_spec(tokens) matches Ok(exprs) ==> all_hold_no_symbol(exprs, key),
{
    let p = ParserView::initial(tokens);
    lemma_loop_symbols_are_types(p, p.bound(), key);
}

/// Range containment: where the tokens stand in order, as the lexer emits
/// them, every expression that the parser returns has a range, and the
/// range of every term of a list lies within the range of the list, at
/// every depth.
pub proof fn lemma_parse_ranges_nested(tokens: Seq<(TokenView, Range)>)
    requires
        tokens_in_order(tokens),
    ensures
        parse_tokens_spec(tokens) matches Ok(exprs) ==> all_nested(exprs),
{
    let p = ParserView::initial(tokens);
    lemma_loop_ranges(p, p.bound());
}

} // verus!
