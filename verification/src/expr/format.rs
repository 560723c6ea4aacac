use vstd::prelude::*;
use crate::expr::{
    lemma_anns_view, lemma_entries_view, lemma_exprs_view, AnnView, DictView, Expr, ExprView,
};

verus! {

/// The character for the decimal digit `d`.
pub open spec fn digit_char(d: int) -> char {
    if d == 0 {
        '0'
    } else if d == 1 {
        '1'
    } else if d == 2 {
        '2'
    } else if d == 3 {
        '3'
    } else if d == 4 {
        '4'
    } else if d == 5 {
        '5'
    } else if d == 6 {
        '6'
    } else if d == 7 {
        '7'
    } else if d == 8 {
        '8'
    } else {
        '9'
    }
}

/// The decimal digits of `n`, most significant first, without leading
/// zeros (`0` is written `0`).
pub open spec fn nat_text(n: nat) -> Seq<char>
    decreases n,
{
    if n < 10 {
        seq![digit_char(n as int)]
    } else {
        nat_text(n / 10).push(digit_char((n % 10) as int))
    }
}

/// The decimal text of `n`, with a leading `-` where `n` is negative.
pub open spec fn int_text(n: int) -> Seq<char> {
    if n < 0 {
        seq!['-'] + nat_text((-n) as nat)
    } else {
        nat_text(n as nat)
    }
}

/// The text of the first `n` of `items`, separated by single spaces.
pub open spec fn format_anns(items: Seq<AnnView>, n: int) -> Seq<char>
    decreases items, n,
{
    if n <= 0 || n > items.len() {
        Seq::empty()
    } else if n == 1 {
        format_expr(items[0].expr)
    } else {
        format_anns(items, n - 1).push(' ') + format_expr(items[n - 1].expr)
    }
}

/// The text of the first `n` of `items`, separated by single spaces.
pub open spec fn format_exprs(items: Seq<ExprView>, n: int) -> Seq<char>
    decreases items, n,
{
    if n <= 0 || n > items.len() {
        Seq::empty()
    } else if n == 1 {
        format_expr(items[0])
    } else {
        format_exprs(items, n - 1).push(' ') + format_expr(items[n - 1])
    }
}

/// The text of the first `n` of `entries`: each key, a space and the text
/// of its value, the entries separated by single spaces.
pub open spec fn format_entries(entries: DictView, n: int) -> Seq<char>
    decreases entries, n,
{
    if n <= 0 || n > entries.len() {
        Seq::empty()
    } else if n == 1 {
        entries[0].0.push(' ') + format_expr(entries[0].1)
    } else {
        format_entries(entries, n - 1).push(' ') + entries[n - 1].0.push(' ') + format_expr(
            entries[n - 1].1,
        )
    }
}

/// The text of an expression as it is written in source code.
pub open spec fn format_expr(e: ExprView) -> Seq<char>
    decreases e, 0int,
{
    match e {
        ExprView::One => seq!['(', ')'],
        ExprView::Bool(b) => if b {
            seq!['t', 'r', 'u', 'e']
        } else {
            seq!['f', 'a', 'l', 's', 'e']
        },
        ExprView::Int(n) => int_text(n),
        ExprView::Float(s) => s,
        ExprView::Char(c) => seq!['(', 'C', 'h', 'a', 'r', ' ', '"', c, '"', ')'],
        ExprView::String(s) => seq!['"'] + s.push('"'),
        ExprView::Symbol(s) => s,
        ExprView::KeySymbol(s) => seq![':'] + s,
        ExprView::List(items) => seq!['('] + format_anns(items, items.len() as int).push(')'),
        ExprView::Array(items) => seq!['['] + format_exprs(items, items.len() as int).push(']'),
        ExprView::Dict(entries) => seq!['{'] + format_entries(
            entries,
            entries.len() as int,
        ).push('}'),
        ExprView::If(_, _, _) => seq!['i', 'f'],
        ExprView::Func(_, _) => seq!['#', '<', 'f', 'u', 'n', 'c', '>'],
        ExprView::Macro(_, _) => seq!['#', '<', 'm', 'a', 'c', 'r', 'o', '>'],
        ExprView::ForeignFunc(_) => seq![
            '#',
            '<',
            'f',
            'o',
            'r',
            'e',
            'i',
            'g',
            'n',
            '_',
            'f',
            'u',
            'n',
            'c',
            '>',
        ],
    }
}

/// The text of an expression where it stands for a value, as in a dict key:
/// a string or a key symbol is its bare text, anything else is written as
/// in source code.
pub open spec fn format_value_spec(e: ExprView) -> Seq<char> {
    match e {
        ExprView::String(s) => s,
        ExprView::KeySymbol(s) => s,
        _ => format_expr(e),
    }
}

/// The character for the decimal digit `d`.
fn digit_of(d: u64) -> (c: char)
    requires
        d < 10,
    ensures
        c == digit_char(d as int),
{
    if d == 0 {
        '0'
    } else if d == 1 {
        '1'
    } else if d == 2 {
        '2'
    } else if d == 3 {
        '3'
    } else if d == 4 {
        '4'
    } else if d == 5 {
        '5'
    } else if d == 6 {
        '6'
    } else if d == 7 {
        '7'
    } else if d == 8 {
        '8'
    } else {
        '9'
    }
}

/// Appends the decimal digits of `n`.
fn write_nat(n: u64, out: &mut String)
    ensures
        final(out)@ == old(out)@ + nat_text(n as nat),
    decreases n,
{
    if n >= 10 {
        write_nat(n / 10, out);
    }
    out.push(digit_of(n % 10));
    proof {
        if n >= 10 {
            assert(final(out)@ =~= old(out)@ + nat_text(n as nat));
        } else {
            assert(final(out)@ =~= old(out)@ + nat_text(n as nat));
        }
    }
}

/// Appends the decimal text of `n`.
fn write_int(n: i64, out: &mut String)
    ensures
        final(out)@ == old(out)@ + int_text(n as int),
{
    if n < 0 {
        out.push('-');
        let m: i128 = n as i128;
        let magnitude: u64 = (-m) as u64;
        write_nat(magnitude, out);
        assert(final(out)@ =~= old(out)@ + int_text(n as int));
    } else {
        write_nat(n as u64, out);
    }
}

/// Appends `word`.
fn write_word(word: &str, out: &mut String)
    ensures
        final(out)@ == old(out)@ + word@,
{
    out.append(word);
}

/// Appends the text of `e` as it is written in source code.
fn write_expr(e: &Expr, out: &mut String)
    ensures
        final(out)@ == old(out)@ + format_expr(e@),
    decreases e,
{
    let ghost before = out@;
    match e {
        Expr::One => {
            out.push('(');
            out.push(')');
        },
        Expr::Bool(b) => {
            if *b {
                out.push('t');
                out.push('r');
                out.push('u');
                out.push('e');
            } else {
                out.push('f');
                out.push('a');
                out.push('l');
                out.push('s');
                out.push('e');
            }
        },
        Expr::Int(n) => {
            write_int(*n, out);
        },
        Expr::Float(s) => {
            write_word(s.as_str(), out);
        },
        Expr::Char(c) => {
            out.push('(');
            out.push('C');
            out.push('h');
            out.push('a');
            out.push('r');
            out.push(' ');
            out.push('"');
            out.push(*c);
            out.push('"');
            out.push(')');
        },
        Expr::String(s) => {
            out.push('"');
            write_word(s.as_str(), out);
            out.push('"');
        },
        Expr::Symbol(s) => {
            write_word(s.as_str(), out);
        },
        Expr::KeySymbol(s) => {
            out.push(':');
            write_word(s.as_str(), out);
        },
        Expr::List(items) => {
            out.push('(');
            let mut i: usize = 0;
            proof {
                lemma_anns_view(items@);
            }
            while i < items.len()
                invariant
                    i <= items.len(),
                    e matches Expr::List(v) && v == items,
                    e@ matches ExprView::List(w) && w.len() == items.len() && (forall|j: int|
                        0 <= j < items.len() ==> #[trigger] w[j] == items@[j]@),
                    out@ == before.push('(') + format_anns(e@->List_0, i as int),
                decreases items.len() - i,
            {
                if i > 0 {
                    out.push(' ');
                }
                write_expr(&items[i].0, out);
                i += 1;
                assert(out@ =~= before.push('(') + format_anns(e@->List_0, i as int));
            }
            out.push(')');
        },
        Expr::Array(items) => {
            out.push('[');
            let mut i: usize = 0;
            proof {
                lemma_exprs_view(items@);
            }
            while i < items.len()
                invariant
                    i <= items.len(),
                    e matches Expr::Array(v) && v == items,
                    e@ matches ExprView::Array(w) && w.len() == items.len() && (forall|j: int|
                        0 <= j < items.len() ==> #[trigger] w[j] == items@[j]@),
                    out@ == before.push('[') + format_exprs(e@->Array_0, i as int),
                decreases items.len() - i,
            {
                if i > 0 {
                    out.push(' ');
                }
                write_expr(&items[i], out);
                i += 1;
                assert(out@ =~= before.push('[') + format_exprs(e@->Array_0, i as int));
            }
            out.push(']');
        },
        Expr::Dict(d) => {
            out.push('{');
            let mut i: usize = 0;
            proof {
                lemma_entries_view(d.entries@);
            }
            while i < d.entries.len()
                invariant
                    i <= d.entries.len(),
                    e matches Expr::Dict(v) && v == d,
                    e@ matches ExprView::Dict(w) && w.len() == d.entries.len() && (forall|j: int|
                        0 <= j < d.entries.len() ==> #[trigger] w[j] == (
                            d.entries@[j].0@,
                            d.entries@[j].1@,
                        )),
                    out@ == before.push('{') + format_entries(e@->Dict_0, i as int),
                decreases d.entries.len() - i,
            {
                if i > 0 {
                    out.push(' ');
                }
                write_word(d.entries[i].0.as_str(), out);
                out.push(' ');
                write_expr(&d.entries[i].1, out);
                i += 1;
                assert(out@ =~= before.push('{') + format_entries(e@->Dict_0, i as int));
            }
            out.push('}');
        },
        Expr::If(_, _, _) => {
            out.push('i');
            out.push('f');
        },
        Expr::Func(_, _) => {
            write_word("#<func>", out);
            proof {
                reveal_strlit("#<func>");
                assert("#<func>"@ =~= seq!['#', '<', 'f', 'u', 'n', 'c', '>']);
            }
        },
        Expr::Macro(_, _) => {
            write_word("#<macro>", out);
            proof {
                reveal_strlit("#<macro>");
                assert("#<macro>"@ =~= seq!['#', '<', 'm', 'a', 'c', 'r', 'o', '>']);
            }
        },
        Expr::ForeignFunc(_) => {
            write_word("#<foreign_func>", out);
            proof {
                reveal_strlit("#<foreign_func>");
                assert("#<foreign_func>"@ =~= seq![
                    '#',
                    '<',
                    'f',
                    'o',
                    'r',
                    'e',
                    'i',
                    'g',
                    'n',
                    '_',
                    'f',
                    'u',
                    'n',
                    'c',
                    '>',
                ]);
            }
        },
    }
    assert(out@ =~= before + format_expr(e@));
}

impl Expr {
    /// The text of the expression as it is written in source code.
    pub fn to_string(&self) -> (s: String)
        ensures
            s@ == format_expr(self@),
    {
        let mut s = String::new();
        write_expr(self, &mut s);
        assert(s@ =~= format_expr(self@));
        s
    }
}

/// The text of an expression where it stands for a value, as in a dict key:
/// a string or a key symbol gives its bare text, anything else is written
/// as in source code.
pub fn format_value(e: &Expr) -> (s: String)
    ensures
        s@ == format_value_spec(e@),
{
    match e {
        Expr::String(t) => t.clone(),
        Expr::KeySymbol(t) => t.clone(),
        _ => e.to_string(),
    }
}

} // verus!
