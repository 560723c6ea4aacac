pub mod expr_iter;
pub mod expr_transform;
pub mod format;

use vstd::prelude::*;
use crate::ann::Ann;
use crate::range::Range;

verus! {

/// An expression of the language. Programs and the values they compute are
/// both expressions.
#[derive(Debug)]
pub enum Expr {
    /// The unit value, written `()`.
    One,
    Bool(bool),
    Int(i64),
    /// A floating-point number, held as its decimal text.
    Float(String),
    Char(char),
    String(String),
    Symbol(String),
    /// A symbol written with a leading `:`, which is not part of the name.
    KeySymbol(String),
    List(Vec<Ann<Expr>>),
    Array(Vec<Expr>),
    Dict(Dict),
    /// A conditional: predicate, true clause and optional false clause.
    If(Box<Ann<Expr>>, Box<Ann<Expr>>, Option<Box<Ann<Expr>>>),
    /// A function: parameters and body.
    Func(Vec<Ann<Expr>>, Box<Ann<Expr>>),
    /// A macro: parameters and body.
    Macro(Vec<Ann<Expr>>, Box<Ann<Expr>>),
    /// A function that the host implements, given by the name under which
    /// the host knows it.
    ForeignFunc(String),
}

/// A map from text keys to expressions that remembers the order in which
/// keys were first inserted.
#[derive(Debug)]
pub struct Dict {
    pub entries: Vec<(String, Expr)>,
}

/// The mathematical value of a [`Dict`]: its entries in order.
pub type DictView = Seq<(Seq<char>, ExprView)>;

/// The mathematical value of an [`Expr`].
pub ghost enum ExprView {
    One,
    Bool(bool),
    Int(int),
    Float(Seq<char>),
    Char(char),
    String(Seq<char>),
    Symbol(Seq<char>),
    KeySymbol(Seq<char>),
    List(Seq<AnnView>),
    Array(Seq<ExprView>),
    Dict(DictView),
    If(Box<AnnView>, Box<AnnView>, Option<Box<AnnView>>),
    Func(Seq<AnnView>, Box<AnnView>),
    Macro(Seq<AnnView>, Box<AnnView>),
    ForeignFunc(Seq<char>),
}

/// The mathematical value of an annotated expression.
pub ghost struct AnnView {
    pub expr: ExprView,
    pub annotations: Option<DictView>,
    pub range: Option<Range>,
}

pub open spec fn expr_view(e: Expr) -> ExprView
    decreases e,
{
    match e {
        Expr::One => ExprView::One,
        Expr::Bool(b) => ExprView::Bool(b),
        Expr::Int(n) => ExprView::Int(n as int),
        Expr::Float(s) => ExprView::Float(s@),
        Expr::Char(c) => ExprView::Char(c),
        Expr::String(s) => ExprView::String(s@),
        Expr::Symbol(s) => ExprView::Symbol(s@),
        Expr::KeySymbol(s) => ExprView::KeySymbol(s@),
        Expr::List(v) => ExprView::List(anns_view(v@)),
        Expr::Array(v) => ExprView::Array(exprs_view(v@)),
        Expr::Dict(d) => ExprView::Dict(entries_view(d.entries@)),
        Expr::If(p, t, f) => ExprView::If(
            Box::new(ann_view(*p)),
            Box::new(ann_view(*t)),
            match f {
                Some(b) => Some(Box::new(ann_view(*b))),
                None => None,
            },
        ),
        Expr::Func(params, body) => ExprView::Func(anns_view(params@), Box::new(ann_view(*body))),
        Expr::Macro(params, body) => ExprView::Macro(
            anns_view(params@),
            Box::new(ann_view(*body)),
        ),
        Expr::ForeignFunc(name) => ExprView::ForeignFunc(name@),
    }
}

pub open spec fn ann_view(a: Ann<Expr>) -> AnnView
    decreases a,
{
    AnnView {
        expr: expr_view(a.0),
        annotations: match a.1 {
            Some(d) => Some(entries_view(d.entries@)),
            None => None,
        },
        range: a.2,
    }
}

/// The values of a sequence of annotated expressions, one by one.
pub open spec fn anns_view(s: Seq<Ann<Expr>>) -> Seq<AnnView>
    decreases s,
{
    Seq::new(
        s.len(),
        |i: int|
            if 0 <= i < s.len() {
                ann_view(s[i])
            } else {
                arbitrary()
            },
    )
}

/// The values of a sequence of expressions, one by one.
pub open spec fn exprs_view(s: Seq<Expr>) -> Seq<ExprView>
    decreases s,
{
    Seq::new(
        s.len(),
        |i: int|
            if 0 <= i < s.len() {
                expr_view(s[i])
            } else {
                arbitrary()
            },
    )
}

/// The values of a sequence of dict entries, one by one.
pub open spec fn entries_view(s: Seq<(String, Expr)>) -> DictView
    decreases s,
{
    Seq::new(
        s.len(),
        |i: int|
            if 0 <= i < s.len() {
                (s[i].0@, expr_view(s[i].1))
            } else {
                arbitrary()
            },
    )
}

impl View for Expr {
    type V = ExprView;

    open spec fn view(&self) -> ExprView {
        expr_view(*self)
    }
}

impl View for Dict {
    type V = DictView;

    open spec fn view(&self) -> DictView {
        entries_view(self.entries@)
    }
}

impl View for Ann<Expr> {
    type V = AnnView;

    open spec fn view(&self) -> AnnView {
        ann_view(*self)
    }
}

/// `anns_view` keeps the length and maps each element to its value.
pub proof fn lemma_anns_view(s: Seq<Ann<Expr>>)
    ensures
        anns_view(s).len() == s.len(),
        forall|i: int| 0 <= i < s.len() ==> #[trigger] anns_view(s)[i] == s[i]@,
{
}

/// `anns_view` of a sequence with one more element.
pub proof fn lemma_anns_view_push(s: Seq<Ann<Expr>>, a: Ann<Expr>)
    ensures
        anns_view(s.push(a)) == anns_view(s).push(a@),
{
    assert(anns_view(s.push(a)) =~= anns_view(s).push(a@));
}

/// `exprs_view` keeps the length and maps each element to its value.
pub proof fn lemma_exprs_view(s: Seq<Expr>)
    ensures
        exprs_view(s).len() == s.len(),
        forall|i: int| 0 <= i < s.len() ==> #[trigger] exprs_view(s)[i] == s[i]@,
{
}

/// `entries_view` keeps the length and maps each entry to its value.
pub proof fn lemma_entries_view(s: Seq<(String, Expr)>)
    ensures
        entries_view(s).len() == s.len(),
        forall|i: int|
            0 <= i < s.len() ==> #[trigger] entries_view(s)[i] == (s[i].0@, s[i].1@),
{
}

/// A copy of a sequence of annotated expressions.
pub fn clone_anns(v: &Vec<Ann<Expr>>) -> (out: Vec<Ann<Expr>>)
    ensures
        anns_view(out@) == anns_view(v@),
    decreases v,
{
    let mut out: Vec<Ann<Expr>> = Vec::new();
    let mut i: usize = 0;
    while i < v.len()
        invariant
            i <= v.len(),
            out.len() == i,
            forall|j: int| 0 <= j < i ==> out@[j]@ == v@[j]@,
        decreases v.len() - i,
    {
        let c = v[i].clone();
        out.push(c);
        i += 1;
    }
    assert(anns_view(out@) =~= anns_view(v@));
    out
}

/// A copy of a sequence of expressions.
pub fn clone_exprs(v: &Vec<Expr>) -> (out: Vec<Expr>)
    ensures
        exprs_view(out@) == exprs_view(v@),
    decreases v,
{
    let mut out: Vec<Expr> = Vec::new();
    let mut i: usize = 0;
    while i < v.len()
        invariant
            i <= v.len(),
            out.len() == i,
            forall|j: int| 0 <= j < i ==> out@[j]@ == v@[j]@,
        decreases v.len() - i,
    {
        let c = v[i].clone();
        out.push(c);
        i += 1;
    }
    assert(exprs_view(out@) =~= exprs_view(v@));
    out
}

impl Clone for Expr {
    fn clone(&self) -> (r: Expr)
        ensures
            r@ == self@,
        decreases self,
    {
        match self {
            Expr::One => Expr::One,
            Expr::Bool(b) => Expr::Bool(*b),
            Expr::Int(n) => Expr::Int(*n),
            Expr::Float(s) => Expr::Float(s.clone()),
            Expr::Char(c) => Expr::Char(*c),
            Expr::String(s) => Expr::String(s.clone()),
            Expr::Symbol(s) => Expr::Symbol(s.clone()),
            Expr::KeySymbol(s) => Expr::KeySymbol(s.clone()),
            Expr::List(v) => Expr::List(clone_anns(v)),
            Expr::Array(v) => Expr::Array(clone_exprs(v)),
            Expr::Dict(d) => Expr::Dict(d.clone()),
            Expr::If(p, t, f) => {
                let f2 = match f {
                    Some(b) => Some(Box::new((&**b).clone())),
                    None => None,
                };
                Expr::If(Box::new((&**p).clone()), Box::new((&**t).clone()), f2)
            },
            Expr::Func(params, body) => Expr::Func(
                clone_anns(params),
                Box::new((&**body).clone()),
            ),
            Expr::Macro(params, body) => Expr::Macro(
                clone_anns(params),
                Box::new((&**body).clone()),
            ),
            Expr::ForeignFunc(name) => Expr::ForeignFunc(name.clone()),
        }
    }
}

impl Clone for Dict {
    fn clone(&self) -> (r: Dict)
        ensures
            r@ == self@,
        decreases self,
    {
        let mut out: Vec<(String, Expr)> = Vec::new();
        let mut i: usize = 0;
        while i < self.entries.len()
            invariant
                i <= self.entries.len(),
                out.len() == i,
                forall|j: int|
                    0 <= j < i ==> out@[j].0@ == self.entries@[j].0@ && out@[j].1@
                        == self.entries@[j].1@,
            decreases self.entries.len() - i,
        {
            let k = self.entries[i].0.clone();
            let c = self.entries[i].1.clone();
            out.push((k, c));
            i += 1;
        }
        let r = Dict { entries: out };
        assert(r@ =~= self@);
        r
    }
}

/// The first position at or after `from` whose key is `key`; the length of
/// `s` where there is none.
pub open spec fn assoc_find<V>(s: Seq<(Seq<char>, V)>, key: Seq<char>, from: int) -> int
    decreases s.len() - from,
{
    if from < 0 || from >= s.len() {
        s.len() as int
    } else if s[from].0 == key {
        from
    } else {
        assoc_find(s, key, from + 1)
    }
}

/// The value of the first entry whose key is `key`.
pub open spec fn assoc_get<V>(s: Seq<(Seq<char>, V)>, key: Seq<char>) -> Option<V> {
    let i = assoc_find(s, key, 0);
    if i < s.len() {
        Some(s[i].1)
    } else {
        None
    }
}

/// The entries after `key` has been set to `value`: the first entry with
/// that key is replaced where it stands; where there is none, a new entry
/// is added at the end.
pub open spec fn assoc_insert<V>(s: Seq<(Seq<char>, V)>, key: Seq<char>, value: V) -> Seq<
    (Seq<char>, V),
> {
    let i = assoc_find(s, key, 0);
    if i < s.len() {
        s.update(i, (key, value))
    } else {
        s.push((key, value))
    }
}

/// Whether no key occurs twice.
pub open spec fn assoc_distinct<V>(s: Seq<(Seq<char>, V)>) -> bool {
    forall|i: int, j: int| 0 <= i < j < s.len() ==> s[i].0 != s[j].0
}

/// `assoc_find` returns a position between `from` and the length; the key
/// is at that position and at no earlier one.
pub proof fn lemma_assoc_find<V>(s: Seq<(Seq<char>, V)>, key: Seq<char>, from: int)
    requires
        0 <= from <= s.len(),
    ensures
        from <= assoc_find(s, key, from) <= s.len(),
        assoc_find(s, key, from) < s.len() ==> s[assoc_find(s, key, from)].0 == key,
        forall|i: int| from <= i < assoc_find(s, key, from) ==> s[i].0 != key,
    decreases s.len() - from,
{
    if from < s.len() && s[from].0 != key {
        lemma_assoc_find(s, key, from + 1);
    }
}

/// Inserting keeps keys distinct, and a lookup of the inserted key then
/// finds the inserted value.
pub proof fn lemma_assoc_insert<V>(s: Seq<(Seq<char>, V)>, key: Seq<char>, value: V)
    ensures
        assoc_get(assoc_insert(s, key, value), key) == Some(value),
        assoc_distinct(s) ==> assoc_distinct(assoc_insert(s, key, value)),
        forall|other: Seq<char>|
            other != key ==> assoc_get(assoc_insert(s, key, value), other) == assoc_get(
                s,
                other,
            ),
{
    let t = assoc_insert(s, key, value);
    let i = assoc_find(s, key, 0);
    lemma_assoc_find(s, key, 0);
    lemma_assoc_find(t, key, 0);
    assert(t[i].0 == key);
    assert(assoc_find(t, key, 0) == i) by {
        if assoc_find(t, key, 0) < i {
            assert(s[assoc_find(t, key, 0)].0 == key);
        }
    }
    assert forall|other: Seq<char>| other != key implies assoc_get(t, other) == assoc_get(
        s,
        other,
    ) by {
        lemma_assoc_find(s, other, 0);
        lemma_assoc_find(t, other, 0);
        let a = assoc_find(s, other, 0);
        let b = assoc_find(t, other, 0);
        if a < s.len() {
            assert(t[a].0 == other);
        }
        if b < t.len() {
            assert(b < s.len());
            assert(s[b].0 == other);
        }
        assert(a < s.len() ==> b == a);
        assert(b < t.len() ==> a == b);
    }
    if assoc_distinct(s) {
        assert forall|a: int, b: int| 0 <= a < b < t.len() implies t[a].0 != t[b].0 by {
            if i < s.len() {
                if a != i && b != i {
                    assert(s[a].0 != s[b].0);
                } else if a == i {
                    assert(s[a].0 != s[b].0);
                } else {
                    assert(s[a].0 != s[b].0);
                }
            } else {
                if b < s.len() {
                    assert(s[a].0 != s[b].0);
                }
            }
        }
    }
}

impl Dict {
    /// Whether no key occurs twice. Every dict that is made by inserting
    /// into the empty dict is of this kind.
    pub open spec fn distinct(&self) -> bool {
        assoc_distinct(self@)
    }

    /// The empty map.
    pub fn new() -> (d: Dict)
        ensures
            d@ == Seq::<(Seq<char>, ExprView)>::empty(),
            d.distinct(),
    {
        let d = Dict { entries: Vec::new() };
        assert(d@ =~= Seq::<(Seq<char>, ExprView)>::empty());
        d
    }

    /// The number of entries.
    pub fn len(&self) -> (n: usize)
        ensures
            n == self@.len(),
    {
        self.entries.len()
    }

    /// The position of the first entry whose key is `key`.
    fn position(&self, key: &str) -> (i: usize)
        ensures
            i == assoc_find(self@, key@, 0),
            i <= self.entries.len(),
    {
        let mut i: usize = 0;
        proof {
            lemma_entries_view(self.entries@);
        }
        while i < self.entries.len()
            invariant
                i <= self.entries.len(),
                self@.len() == self.entries.len(),
                forall|j: int| 0 <= j < self.entries.len() ==> self@[j].0 == self.entries@[j].0@,
                assoc_find(self@, key@, 0) == assoc_find(self@, key@, i as int),
            decreases self.entries.len() - i,
        {
            if crate::text::same_text(self.entries[i].0.as_str(), key) {
                return i;
            }
            i += 1;
        }
        i
    }

    /// The value stored under `key`, if any.
    pub fn get(&self, key: &str) -> (r: Option<&Expr>)
        ensures
            match r {
                Some(e) => assoc_get(self@, key@) == Some(e@),
                None => assoc_get(self@, key@) is None,
            },
    {
        let i = self.position(key);
        proof {
            lemma_entries_view(self.entries@);
        }
        if i < self.entries.len() {
            Some(&self.entries[i].1)
        } else {
            None
        }
    }

    /// Stores `value` under `key`, in place of the value that was stored
    /// under it, if any.
    pub fn insert(&mut self, key: String, value: Expr)
        ensures
            final(self)@ == assoc_insert(old(self)@, key@, value@),
            old(self).distinct() ==> final(self).distinct(),
    {
        let i = self.position(key.as_str());
        proof {
            lemma_entries_view(self.entries@);
        }
        if i < self.entries.len() {
            self.entries.set(i, (key, value));
        } else {
            self.entries.push((key, value));
        }
        proof {
            lemma_entries_view(self.entries@);
            assert(self@ =~= assoc_insert(old(self)@, key@, value@));
            lemma_assoc_insert(old(self)@, key@, value@);
        }
    }
}

impl Expr {
    /// The symbol named `name`.
    pub fn symbol(name: &str) -> (e: Expr)
        ensures
            e@ == ExprView::Symbol(name@),
    {
        Expr::Symbol(String::from_str(name))
    }

    /// The string holding `text`.
    pub fn string(text: &str) -> (e: Expr)
        ensures
            e@ == ExprView::String(text@),
    {
        Expr::String(String::from_str(text))
    }
}

impl Clone for Ann<Expr> {
    fn clone(&self) -> (r: Ann<Expr>)
        ensures
            r@ == self@,
        decreases self,
    {
        let annotations = match &self.1 {
            Some(d) => Some(d.clone()),
            None => None,
        };
        Ann(self.0.clone(), annotations, self.2)
    }
}

} // verus!
