use vstd::prelude::*;
use crate::ann::Ann;
use crate::error::{Error, ErrorView};
use crate::eval::env::{env_get, env_insert, Env, EnvView};
use crate::expr::{anns_view, lemma_anns_view, lemma_anns_view_push, AnnView, Expr, ExprView};
use crate::expr::format::{format_expr, format_value_spec};
use crate::text::{chars_of, same_text, text_of};
use crate::util::{is_reserved_symbol, reserved_symbol};

verus! {

/// The type of a value as far as it can be told without evaluating
/// anything: the kind of an integer, floating-point or string literal,
/// else the value's type annotation.
pub open spec fn static_type(a: AnnView) -> ExprView {
    match a.expr {
        ExprView::Int(_) => ExprView::Symbol("Int"@),
        ExprView::Float(_) => ExprView::Symbol("Float"@),
        ExprView::String(_) => ExprView::Symbol("String"@),
        _ => a.type_annotation(),
    }
}

/// The type texts of the first `n` of `terms`, separated by `$$`.
pub open spec fn signature(terms: Seq<AnnView>, n: int) -> Seq<char>
    decreases n,
{
    if n <= 0 || n > terms.len() {
        Seq::empty()
    } else if n == 1 {
        format_value_spec(terms[0].type_annotation())
    } else {
        signature(terms, n - 1) + "$$"@ + format_value_spec(terms[n - 1].type_annotation())
    }
}

/// The name under which the function `name` is looked up when it is called
/// with arguments of the types of `terms`: the name, `$$` and the
/// arguments' type texts, separated by `$$`.
pub open spec fn mangled_name(name: Seq<char>, terms: Seq<AnnView>) -> Seq<char> {
    name + "$$"@ + signature(terms, terms.len() as int)
}

/// The message for a name in a `let` that is no symbol.
pub open spec fn not_a_symbol(e: ExprView) -> Seq<char> {
    "`"@ + format_expr(e) + "` is not a Symbol"@
}

/// The message for a `let` of a reserved symbol.
pub open spec fn cannot_shadow(name: Seq<char>) -> Seq<char> {
    "let cannot shadow the reserved symbol `"@ + name + "`"@
}

/// What resolving gives: the environment afterwards, and the resolved
/// expression or the error.
pub type Resolved = (EnvView, Result<AnnView, ErrorView>);

/// The position of the first `$$` in `s` at or after `from`; the length of
/// `s` where there is none.
pub open spec fn separator_at(s: Seq<char>, from: int) -> int
    decreases s.len() - from,
{
    if from < 0 || from + 1 >= s.len() {
        s.len() as int
    } else if s[from] == '$' && s[from + 1] == '$' {
        from
    } else {
        separator_at(s, from + 1)
    }
}

/// The part of a mangled name before its first `$$`: the name of the
/// function without the types of its arguments. A name without `$$` has
/// none.
pub open spec fn plain_name(s: Seq<char>) -> Option<Seq<char>> {
    let i = separator_at(s, 0);
    if i < s.len() {
        Some(s.subrange(0, i))
    } else {
        None
    }
}

/// The value that `name` stands for: the value bound to the name itself,
/// or else, where the name is mangled, the value bound to its plain name.
pub open spec fn lookup_name(env: EnvView, name: Seq<char>) -> Option<AnnView> {
    match env_get(env, name) {
        Some(v) => Some(v),
        None => match plain_name(name) {
            Some(plain) => env_get(env, plain),
            None => None,
        },
    }
}

/// The symbol `name`, which is the expression `expr`, with its type: a
/// reserved symbol has the type `Symbol`, another symbol the type of the
/// value it stands for. A symbol that stands for nothing is undefined.
pub open spec fn resolve_symbol(expr: AnnView, name: Seq<char>, env: EnvView) -> Result<
    AnnView,
    ErrorView,
> {
    if reserved_symbol(name) {
        Ok(expr.annotate("type"@, ExprView::Symbol("Symbol"@)))
    } else {
        match lookup_name(env, name) {
            Some(v) => Ok(expr.annotate("type"@, static_type(v))),
            None => Err(ErrorView::UndefinedSymbol(name)),
        }
    }
}

/// The head of a call, rewritten for the resolved arguments `terms`: the
/// symbol `name` becomes the symbol of the mangled name, which it also
/// gets as its `method` annotation; its other annotations and its range
/// stay. A reserved symbol stays as it is.
pub open spec fn mangled_head(head: AnnView, name: Seq<char>, terms: Seq<AnnView>) -> AnnView {
    if reserved_symbol(name) {
        head
    } else {
        let method = mangled_name(name, terms);
        AnnView {
            expr: ExprView::Symbol(method),
            annotations: head.annotations,
            range: head.range,
        }.annotate("method"@, ExprView::Symbol(method))
    }
}

/// The head of a call, resolved against the resolved arguments `terms`: it
/// is rewritten to the mangled name and then resolved as the symbol that it
/// has become.
pub open spec fn resolve_head(head: AnnView, name: Seq<char>, terms: Seq<AnnView>, env: EnvView)
    -> Result<AnnView, ErrorView> {
    let renamed = mangled_head(head, name, terms);
    resolve_symbol(renamed, renamed.expr->Symbol_0, env)
}

/// The head of a resolved call is the symbol of the mangled name: the name
/// of the function, `$$`, and the type texts of the resolved arguments,
/// separated by `$$`. A reserved head stays as it is.
pub proof fn lemma_head_is_mangled(
    head: AnnView,
    name: Seq<char>,
    terms: Seq<AnnView>,
    env: EnvView,
)
    ensures
        resolve_head(head, name, terms, env) matches Ok(resolved) ==> {
            &&& resolved.range == head.range
            &&& !reserved_symbol(name) ==> resolved.expr == ExprView::Symbol(
                mangled_name(name, terms),
            )
            &&& reserved_symbol(name) ==> resolved.expr == head.expr
        },
        terms.len() == 2 ==> mangled_name(name, terms) == name + "$$"@ + format_value_spec(
            terms[0].type_annotation(),
        ) + "$$"@ + format_value_spec(terms[1].type_annotation()),
{
    reveal_with_fuel(signature, 3);
    if terms.len() == 2 {
        let a = format_value_spec(terms[0].type_annotation());
        let b = format_value_spec(terms[1].type_annotation());
        assert(name + "$$"@ + (a + "$$"@ + b) =~= name + "$$"@ + a + "$$"@ + b);
    }
}

/// Resolves the types in `expr`. A literal gets its kind as type. A symbol
/// gets the type of the value it stands for. A `let` resolves each value,
/// binds each name to its resolved value and has the type of the last
/// value. Another list that starts with a symbol is a call: its arguments
/// are resolved, then its head, which is rewritten to the name mangled
/// with the types of the arguments, and the call has the type of its head.
/// Everything else is left as it is.
pub open spec fn resolve_spec(expr: AnnView, env: EnvView) -> Resolved
    decreases expr, 0int,
{
    match expr.expr {
        ExprView::Int(_) => (env, Ok(expr.annotate("type"@, ExprView::Symbol("Int"@)))),
        ExprView::Float(_) => (env, Ok(expr.annotate("type"@, ExprView::Symbol("Float"@)))),
        ExprView::String(_) => (env, Ok(expr.annotate("type"@, ExprView::Symbol("String"@)))),
        ExprView::Symbol(name) => (env, resolve_symbol(expr, name, env)),
        ExprView::List(list) => if list.len() > 0 && list[0].expr is Symbol {
            let name = list[0].expr->Symbol_0;
            if name == "let"@ {
                resolve_let_spec(expr, list, 1, env)
            } else {
                let (env1, terms) = resolve_terms_spec(list, 1, env);
                match terms {
                    Err(e) => (env1, Err(e)),
                    Ok(terms) => match resolve_head(list[0], name, terms, env1) {
                        Err(e) => (env1, Err(e)),
                        Ok(head) => (
                            env1,
                            Ok(
                                AnnView {
                                    expr: ExprView::List(seq![head] + terms),
                                    annotations: expr.annotations,
                                    range: expr.range,
                                }.annotate("type"@, head.type_annotation()),
                            ),
                        ),
                    },
                }
            }
        } else {
            (env, Ok(expr))
        },
        _ => (env, Ok(expr)),
    }
}

/// Resolves the terms `list[i..]`, one after the other.
pub open spec fn resolve_terms_spec(list: Seq<AnnView>, i: int, env: EnvView) -> (
    EnvView,
    Result<Seq<AnnView>, ErrorView>,
)
    decreases list, list.len() - i,
{
    if i < 0 || i >= list.len() {
        (env, Ok(Seq::empty()))
    } else {
        let (env1, first) = resolve_spec(list[i], env);
        match first {
            Err(e) => (env1, Err(e)),
            Ok(first) => {
                let (env2, rest) = resolve_terms_spec(list, i + 1, env1);
                match rest {
                    Err(e) => (env2, Err(e)),
                    Ok(rest) => (env2, Ok(seq![first] + rest)),
                }
            },
        }
    }
}

/// Resolves the bindings of a `let`, from the name at `list[i]` on. A name
/// without a value is left alone.
pub open spec fn resolve_let_spec(expr: AnnView, list: Seq<AnnView>, i: int, env: EnvView)
    -> Resolved
    decreases list, list.len() - i,
{
    if i < 0 || i + 1 >= list.len() {
        (env, Ok(expr))
    } else {
        match list[i].expr {
            ExprView::Symbol(name) => if reserved_symbol(name) {
                (env, Err(ErrorView::InvalidArguments(cannot_shadow(name))))
            } else {
                let (env1, value) = resolve_spec(list[i + 1], env);
                match value {
                    Err(e) => (env1, Err(e)),
                    Ok(value) => resolve_let_spec(
                        expr.annotate("type"@, value.type_annotation()),
                        list,
                        i + 2,
                        env_insert(env1, name, value),
                    ),
                }
            },
            _ => (env, Err(ErrorView::InvalidArguments(not_a_symbol(list[i].expr)))),
        }
    }
}

/// The value of what resolving returned.
pub open spec fn resolved_outcome(r: Result<Ann<Expr>, Error>) -> Result<AnnView, ErrorView> {
    match r {
        Ok(a) => Ok(a@),
        Err(e) => Err(e@),
    }
}

/// The value of what resolving a sequence of terms returned.
pub open spec fn resolved_terms_outcome(r: Result<Vec<Ann<Expr>>, Error>) -> Result<
    Seq<AnnView>,
    ErrorView,
> {
    match r {
        Ok(terms) => Ok(anns_view(terms@)),
        Err(e) => Err(e@),
    }
}

/// The type of a value as far as it can be told without evaluating
/// anything.
fn static_type_of(a: &Ann<Expr>) -> (t: Expr)
    ensures
        t@ == static_type(a@),
{
    match &a.0 {
        Expr::Int(_) => Expr::symbol("Int"),
        Expr::Float(_) => Expr::symbol("Float"),
        Expr::String(_) => Expr::symbol("String"),
        _ => a.type_annotation(),
    }
}

/// The type texts of `terms`, separated by `$$`.
fn signature_of(terms: &Vec<Ann<Expr>>) -> (s: String)
    ensures
        s@ == signature(anns_view(terms@), terms.len() as int),
{
    let mut s = String::new();
    let mut i: usize = 0;
    proof {
        lemma_anns_view(terms@);
    }
    while i < terms.len()
        invariant
            i <= terms.len(),
            anns_view(terms@).len() == terms.len(),
            forall|j: int| 0 <= j < terms.len() ==> #[trigger] anns_view(terms@)[j] == terms@[j]@,
            s@ == signature(anns_view(terms@), i as int),
        decreases terms.len() - i,
    {
        if i > 0 {
            s.append("$$");
        }
        let t = terms[i].to_type_string();
        s.append(t.as_str());
        i += 1;
        assert(s@ =~= signature(anns_view(terms@), i as int));
    }
    s
}

/// The part of a mangled name before its first `$$`, if it has one.
fn plain_name_of(name: &str) -> (r: Option<String>)
    ensures
        match r {
            Some(plain) => plain_name(name@) == Some(plain@),
            None => plain_name(name@) is None,
        },
{
    let chars = chars_of(name);
    let mut i: usize = 0;
    while i < chars.len() && i + 1 < chars.len()
        invariant
            chars@ == name@,
            separator_at(chars@, 0) == separator_at(chars@, i as int),
        decreases chars.len() - i,
    {
        if chars[i] == '$' && chars[i + 1] == '$' {
            return Some(text_of(&chars, 0, i));
        }
        i += 1;
    }
    None
}

/// The symbol `name`, which is the expression `expr`, with its type.
fn resolve_symbol_of(expr: Ann<Expr>, name: &String, env: &Env) -> (r: Result<Ann<Expr>, Error>)
    ensures
        resolved_outcome(r) == resolve_symbol(expr@, name@, env@),
{
    let mut r = expr;
    if is_reserved_symbol(name.as_str()) {
        r.set_type_annotation(Expr::symbol("Symbol"));
        return Ok(r);
    }
    let found = match env.get(name.as_str()) {
        Some(v) => Some(v),
        None => match plain_name_of(name.as_str()) {
            Some(plain) => env.get(plain.as_str()),
            None => None,
        },
    };
    match found {
        Some(v) => {
            r.set_type_annotation(static_type_of(v));
            Ok(r)
        },
        None => Err(Error::UndefinedSymbol(name.clone())),
    }
}

/// The head of a call, resolved against the resolved arguments `terms`.
fn resolve_head_of(head: &Ann<Expr>, name: &String, terms: &Vec<Ann<Expr>>, env: &Env) -> (r:
    Result<Ann<Expr>, Error>)
    requires
        head@.expr == ExprView::Symbol(name@),
    ensures
        resolved_outcome(r) == resolve_head(head@, name@, anns_view(terms@), env@),
{
    if is_reserved_symbol(name.as_str()) {
        resolve_symbol_of(head.clone(), name, env)
    } else {
        let mut method = name.clone();
        method.append("$$");
        let sig = signature_of(terms);
        method.append(sig.as_str());
        proof {
            lemma_anns_view(terms@);
        }
        let annotations = match &head.1 {
            Some(d) => Some(d.clone()),
            None => None,
        };
        let mut renamed = Ann(Expr::Symbol(method.clone()), annotations, head.2);
        renamed.set_annotation(String::from_str("method"), Expr::Symbol(method.clone()));
        resolve_symbol_of(renamed, &method, env)
    }
}

/// Resolves the types in `expr`.
fn resolve(expr: &Ann<Expr>, env: &mut Env) -> (r: Result<Ann<Expr>, Error>)
    ensures
        (final(env)@, resolved_outcome(r)) == resolve_spec(expr@, old(env)@),
    decreases expr,
{
    match &expr.0 {
        Expr::Int(_) => {
            let mut r = expr.clone();
            r.set_type_annotation(Expr::symbol("Int"));
            Ok(r)
        },
        Expr::Float(_) => {
            let mut r = expr.clone();
            r.set_type_annotation(Expr::symbol("Float"));
            Ok(r)
        },
        Expr::String(_) => {
            let mut r = expr.clone();
            r.set_type_annotation(Expr::symbol("String"));
            Ok(r)
        },
        Expr::Symbol(name) => resolve_symbol_of(expr.clone(), name, env),
        Expr::List(list) => {
            proof {
                lemma_anns_view(list@);
            }
            if list.len() == 0 {
                return Ok(expr.clone());
            }
            match &list[0].0 {
                Expr::Symbol(name) => {
                    if same_text(name.as_str(), "let") {
                        resolve_let(expr, list, env)
                    } else {
                        let mut terms = match resolve_terms(list, 1, env) {
                            Ok(terms) => terms,
                            Err(e) => {
                                return Err(e);
                            },
                        };
                        let head = match resolve_head_of(&list[0], name, &terms, env) {
                            Ok(head) => head,
                            Err(e) => {
                                return Err(e);
                            },
                        };
                        let t = head.type_annotation();
                        let ghost head_view = head@;
                        let ghost terms_view = anns_view(terms@);
                        let mut items: Vec<Ann<Expr>> = Vec::new();
                        items.push(head);
                        proof {
                            lemma_anns_view(terms@);
                        }
                        items.append(&mut terms);
                        proof {
                            lemma_anns_view(items@);
                            assert(anns_view(items@) =~= seq![head_view] + terms_view);
                        }
                        let annotations = match &expr.1 {
                            Some(d) => Some(d.clone()),
                            None => None,
                        };
                        let mut r = Ann(Expr::List(items), annotations, expr.2);
                        r.set_type_annotation(t);
                        Ok(r)
                    }
                },
                _ => Ok(expr.clone()),
            }
        },
        _ => Ok(expr.clone()),
    }
}

/// Resolves the types in each of `list[from..]`, one after the other, and
/// stops at the first error.
pub fn resolve_terms(list: &Vec<Ann<Expr>>, from: usize, env: &mut Env) -> (r: Result<
    Vec<Ann<Expr>>,
    Error,
>)
    ensures
        (final(env)@, resolved_terms_outcome(r)) == resolve_terms_spec(
            anns_view(list@),
            from as int,
            old(env)@,
        ),
    decreases list,
{
    let mut terms: Vec<Ann<Expr>> = Vec::new();
    let mut i: usize = from;
    let ghost origin = env@;
    let ghost items = anns_view(list@);
    proof {
        lemma_anns_view(list@);
        lemma_anns_view(terms@);
        lemma_resolved_onto_empty(resolve_terms_spec(items, from as int, origin));
    }
    while i < list.len()
        invariant
            from <= i,
            origin == old(env)@,
            items == anns_view(list@),
            items.len() == list.len(),
            forall|j: int| 0 <= j < list.len() ==> #[trigger] items[j] == list@[j]@,
            resolve_terms_spec(items, from as int, origin) == resolved_onto(
                anns_view(terms@),
                resolve_terms_spec(items, i as int, env@),
            ),
        decreases list.len() - i,
    {
        match resolve(&list[i], env) {
            Ok(term) => {
                proof {
                    lemma_anns_view_push(terms@, term);
                    lemma_resolved_onto_push(
                        anns_view(terms@),
                        term@,
                        resolve_terms_spec(items, i + 1, env@),
                    );
                }
                terms.push(term);
            },
            Err(e) => {
                return Err(e);
            },
        }
        i += 1;
    }
    proof {
        assert(anns_view(terms@) + Seq::<AnnView>::empty() =~= anns_view(terms@));
    }
    Ok(terms)
}

/// Resolves the bindings of the `let` with the terms `list`.
fn resolve_let(expr: &Ann<Expr>, list: &Vec<Ann<Expr>>, env: &mut Env) -> (r: Result<
    Ann<Expr>,
    Error,
>)
    ensures
        (final(env)@, resolved_outcome(r)) == resolve_let_spec(
            expr@,
            anns_view(list@),
            1,
            old(env)@,
        ),
    decreases list,
{
    let mut r = expr.clone();
    let mut i: usize = 1;
    let ghost origin = env@;
    let ghost items = anns_view(list@);
    proof {
        lemma_anns_view(list@);
    }
    while i < list.len() && i + 1 < list.len()
        invariant
            1 <= i,
            origin == old(env)@,
            items == anns_view(list@),
            items.len() == list.len(),
            forall|j: int| 0 <= j < list.len() ==> #[trigger] items[j] == list@[j]@,
            resolve_let_spec(expr@, items, 1, origin) == resolve_let_spec(
                r@,
                items,
                i as int,
                env@,
            ),
        decreases list.len() - i,
    {
        match &list[i].0 {
            Expr::Symbol(name) => {
                if is_reserved_symbol(name.as_str()) {
                    let mut message = String::from_str("let cannot shadow the reserved symbol `");
                    message.append(name.as_str());
                    message.append("`");
                    return Err(Error::InvalidArguments(message));
                }
                match resolve(&list[i + 1], env) {
                    Ok(value) => {
                        r.set_type_annotation(value.type_annotation());
                        env.insert(name.clone(), value);
                    },
                    Err(e) => {
                        return Err(e);
                    },
                }
            },
            other => {
                let mut message = String::from_str("`");
                let shown = other.to_string();
                message.append(shown.as_str());
                message.append("` is not a Symbol");
                return Err(Error::InvalidArguments(message));
            },
        }
        i += 2;
    }
    Ok(r)
}

/// `rest` with the terms `done` in front of what it resolved.
pub open spec fn resolved_onto(
    done: Seq<AnnView>,
    rest: (EnvView, Result<Seq<AnnView>, ErrorView>),
) -> (EnvView, Result<Seq<AnnView>, ErrorView>) {
    match rest.1 {
        Ok(terms) => (rest.0, Ok(done + terms)),
        Err(e) => (rest.0, Err(e)),
    }
}

proof fn lemma_resolved_onto_empty(rest: (EnvView, Result<Seq<AnnView>, ErrorView>))
    ensures
        resolved_onto(Seq::empty(), rest) == rest,
{
    match rest.1 {
        Ok(terms) => {
            assert(Seq::<AnnView>::empty() + terms =~= terms);
        },
        Err(_) => {},
    }
}

proof fn lemma_resolved_onto_push(
    done: Seq<AnnView>,
    term: AnnView,
    rest: (EnvView, Result<Seq<AnnView>, ErrorView>),
)
    ensures
        resolved_onto(
            done,
            (
                rest.0,
                match rest.1 {
                    Ok(terms) => Ok(seq![term] + terms),
                    Err(e) => Err(e),
                },
            ),
        ) == resolved_onto(done.push(term), rest),
{
    match rest.1 {
        Ok(terms) => {
            assert(done + (seq![term] + terms) =~= done.push(term) + terms);
        },
        Err(_) => {},
    }
}

/// Resolves the types in `expr`: gives each literal, symbol and call a
/// `type` annotation, and each called symbol a `method` annotation, which
/// holds the function's name together with the types of the arguments. A
/// `let` binds its names, in `env`, to the resolved values.
pub fn resolve_type(expr: Ann<Expr>, env: &mut Env) -> (r: Result<Ann<Expr>, Error>)
    ensures
        (final(env)@, resolved_outcome(r)) == resolve_spec(expr@, old(env)@),
{
    resolve(&expr, env)
}

} // verus!
