use vstd::prelude::*;
use crate::expr::{assoc_get, assoc_insert, AnnView, Dict, Expr, ExprView};
use crate::expr::format::format_value_spec;
use crate::range::Range;

verus! {

/// A value with its annotations: an optional map from annotation name to
/// expression, and the optional range of source text the value was read
/// from.
#[derive(Debug)]
pub struct Ann<T>(pub T, pub Option<Dict>, pub Option<Range>);

impl<T> Ann<T> {
    /// `value` without annotations and without a range.
    pub fn new(value: T) -> (r: Ann<T>)
        ensures
            r.0 == value,
            r.1 is None,
            r.2 is None,
    {
        Ann(value, None, None)
    }

    /// `value` without annotations, read from `range`.
    pub fn with_range(value: T, range: Range) -> (r: Ann<T>)
        ensures
            r.0 == value,
            r.1 is None,
            r.2 == Some(range),
    {
        Ann(value, None, Some(range))
    }

    /// The range the value was read from. A value that was not read from
    /// source text has the empty range at position 0.
    pub fn get_range(&self) -> (r: Range)
        ensures
            r == range_or_origin(self.2),
    {
        match self.2 {
            Some(r) => r,
            None => Range { start: 0, end: 0 },
        }
    }
}

/// The range itself where there is one, otherwise the empty range at
/// position 0.
pub open spec fn range_or_origin(range: Option<Range>) -> Range {
    match range {
        Some(r) => r,
        None => Range { start: 0, end: 0 },
    }
}

impl AnnView {
    /// `expr` without annotations and without a range.
    pub open spec fn plain(expr: ExprView) -> AnnView {
        AnnView { expr, annotations: None, range: None }
    }

    /// The annotation stored under `name`, if any.
    pub open spec fn annotation(self, name: Seq<char>) -> Option<ExprView> {
        match self.annotations {
            Some(d) => assoc_get(d, name),
            None => None,
        }
    }

    /// The same expression after the annotation `name` has been set to
    /// `value`.
    pub open spec fn annotate(self, name: Seq<char>, value: ExprView) -> AnnView {
        AnnView {
            expr: self.expr,
            annotations: Some(
                assoc_insert(
                    match self.annotations {
                        Some(d) => d,
                        None => Seq::empty(),
                    },
                    name,
                    value,
                ),
            ),
            range: self.range,
        }
    }

    /// The type annotation; the symbol `One` where there is none.
    pub open spec fn type_annotation(self) -> ExprView {
        match self.annotation("type"@) {
            Some(t) => t,
            None => ExprView::Symbol("One"@),
        }
    }

    /// The range the expression was read from, or the empty range at
    /// position 0.
    pub open spec fn range_or_origin(self) -> Range {
        range_or_origin(self.range)
    }
}

impl Ann<Expr> {
    /// `expr` whose only annotation is the type `type_expr`.
    pub fn with_type(expr: Expr, type_expr: Expr) -> (r: Ann<Expr>)
        ensures
            r@ == AnnView::plain(expr@).annotate("type"@, type_expr@),
    {
        let mut r = Ann::new(expr);
        r.set_type_annotation(type_expr);
        r
    }

    /// Sets the annotation `name` to `value`, in place of the value it had,
    /// if any.
    pub fn set_annotation(&mut self, name: String, value: Expr)
        ensures
            final(self)@ == old(self)@.annotate(name@, value@),
    {
        let mut dict = match self.1.take() {
            Some(d) => d,
            None => Dict::new(),
        };
        dict.insert(name, value);
        self.1 = Some(dict);
    }

    /// The annotation stored under `name`, if any.
    pub fn get_annotation(&self, name: &str) -> (r: Option<&Expr>)
        ensures
            match r {
                Some(e) => self@.annotation(name@) == Some(e@),
                None => self@.annotation(name@) is None,
            },
    {
        match &self.1 {
            Some(d) => d.get(name),
            None => None,
        }
    }

    /// Sets the type annotation.
    pub fn set_type_annotation(&mut self, type_expr: Expr)
        ensures
            final(self)@ == old(self)@.annotate("type"@, type_expr@),
    {
        self.set_annotation(String::from_str("type"), type_expr);
    }

    /// The type annotation; the symbol `One` where there is none.
    pub fn type_annotation(&self) -> (r: Expr)
        ensures
            r@ == self@.type_annotation(),
    {
        match self.get_annotation("type") {
            Some(t) => t.clone(),
            None => Expr::symbol("One"),
        }
    }

    /// The text of the type annotation.
    pub fn to_type_string(&self) -> (r: String)
        ensures
            r@ == format_value_spec(self@.type_annotation()),
    {
        let t = self.type_annotation();
        crate::expr::format::format_value(&t)
    }
}

} // verus!
