use vstd::prelude::*;
use crate::ann::Ann;
use crate::error::{Error, ErrorView};
use crate::eval::env::{env_get, env_insert, env_pop, env_push, EnvView};
use crate::eval::machine::{
    count, term, Control, ControlView, Frame, FrameView, Machine, MachineView, Status,
};
use crate::expr::{
    anns_view, assoc_get, clone_anns, exprs_view, lemma_anns_view, lemma_anns_view_push,
    lemma_exprs_view, AnnView, Dict, Expr, ExprView,
};
use crate::expr::format::{format_expr, format_value, format_value_spec};
use crate::range::{Range, Ranged};
use crate::text::{char_at, chars_of, same_text};
use crate::util::{is_reserved_symbol, reserved_symbol};

verus! {

/// The method name that a symbol is annotated with, if any.
pub open spec fn method_of(e: AnnView) -> Option<Seq<char>> {
    match e.annotation("method"@) {
        Some(ExprView::Symbol(method)) => Some(method),
        _ => None,
    }
}

/// Evaluates the symbol `name`, which is the expression `e`. A reserved
/// symbol is its own value. Another symbol has the value that is bound to
/// its method name, if it is annotated with one and that name is bound,
/// else the value that is bound to the symbol itself.
pub open spec fn lookup_spec(m: MachineView, e: AnnView, name: Seq<char>) -> MachineView {
    if reserved_symbol(name) {
        m.value(e)
    } else {
        match method_of(e) {
            Some(method) => match env_get(m.env, method) {
                Some(v) => m.value(v),
                None => match env_get(m.env, name) {
                    Some(v) => m.value(v),
                    None => m.raise(
                        ErrorView::UndefinedFunction(name, method),
                        e.range_or_origin(),
                    ),
                },
            },
            None => match env_get(m.env, name) {
                Some(v) => m.value(v),
                None => m.raise(ErrorView::UndefinedSymbol(name), e.range_or_origin()),
            },
        }
    }
}

/// Starts the evaluation of `e`. A symbol is looked up. A conditional and a
/// list that is not empty first have their predicate and their head
/// evaluated. The empty list is the unit value. Everything else is its own
/// value.
pub open spec fn eval_spec(m: MachineView, e: AnnView) -> MachineView {
    match e.expr {
        ExprView::Symbol(name) => lookup_spec(m, e, name),
        ExprView::If(p, t, f) => m.push(
            FrameView::If {
                then: *t,
                otherwise: match f {
                    Some(b) => Some(*b),
                    None => None,
                },
            },
        ).eval(*p),
        ExprView::List(list) => if list.len() == 0 {
            m.plain(ExprView::One)
        } else {
            m.push(FrameView::Head { list, range: e.range_or_origin() }).eval(list[0])
        },
        _ => m.value(e),
    }
}

/// Whether every one of `params` is a symbol.
pub open spec fn all_symbols(params: Seq<AnnView>) -> bool {
    forall|i: int| 0 <= i < params.len() ==> (#[trigger] params[i]).expr is Symbol
}

/// Binds the parameters `params[i..]` to the arguments `args[i..]`, as far
/// as both go. Returns the environment, and the range of the first
/// parameter that is no symbol, at which binding stops.
pub open spec fn bind_spec(env: EnvView, params: Seq<AnnView>, args: Seq<AnnView>, i: int) -> (
    EnvView,
    Option<Range>,
)
    decreases params.len() - i,
{
    if i < 0 || i >= params.len() || i >= args.len() {
        (env, None)
    } else {
        match params[i].expr {
            ExprView::Symbol(name) => bind_spec(
                env_insert(env, name, args[i]),
                params,
                args,
                i + 1,
            ),
            _ => (env, Some(params[i].range_or_origin())),
        }
    }
}

/// Applies `callee` to the values `args`; `range` is the range of the
/// call. A function gets a new scope, in which its parameters are bound
/// and its body is evaluated. A foreign function is left to the host. An
/// array is indexed by the first argument, an integer, and a dict by the
/// text of the first argument; what is not there is the unit value. The
/// callee `List` makes a list of the arguments.
pub open spec fn apply_spec(m: MachineView, callee: AnnView, args: Seq<AnnView>, range: Range)
    -> MachineView {
    match callee.expr {
        ExprView::Func(params, body) => {
            let scoped = m.with_env(env_push(m.env)).push(FrameView::Scope);
            let (env, failed) = bind_spec(scoped.env, params, args, 0);
            match failed {
                Some(r) => scoped.with_env(env).invalid("parameter is not a symbol"@, r),
                None => scoped.with_env(env).eval(*body),
            }
        },
        ExprView::ForeignFunc(name) => MachineView {
            control: ControlView::Call { name, args },
            ..m
        },
        ExprView::Array(items) => if args.len() == 0 {
            m.invalid("invalid array index, expecting Int"@, range)
        } else {
            match args[0].expr {
                ExprView::Int(i) => if 0 <= i < items.len() {
                    m.plain(items[i])
                } else {
                    m.plain(ExprView::One)
                },
                _ => m.invalid("invalid array index, expecting Int"@, args[0].range_or_origin()),
            }
        },
        ExprView::Dict(entries) => if args.len() == 0 {
            m.invalid("invalid dict key"@, range)
        } else {
            match assoc_get(entries, format_value_spec(args[0].expr)) {
                Some(v) => m.plain(v),
                None => m.plain(ExprView::One),
            }
        },
        _ => m.plain(ExprView::List(args)),
    }
}

/// Goes on with the bindings of a `let` from the name `list[i]`. Where no
/// name with a value is left, the `let` has the unit value. A name that is
/// no symbol, or is reserved, is an error.
pub open spec fn let_spec(m: MachineView, list: Seq<AnnView>, i: int) -> MachineView {
    if i < 0 || i + 1 >= list.len() {
        m.plain(ExprView::One)
    } else {
        match list[i].expr {
            ExprView::Symbol(name) => if reserved_symbol(name) {
                m.invalid(
                    "let cannot shadow the reserved symbol `"@ + name + "`"@,
                    list[i].range_or_origin(),
                )
            } else {
                m.push(FrameView::Let { name, list, next: i + 2 }).eval(list[i + 1])
            },
            e => m.invalid(
                "`"@ + format_expr(e) + "` is not a Symbol"@,
                list[i].range_or_origin(),
            ),
        }
    }
}

/// Goes on with a `for_each` from the item `items[i]`: the item is bound to
/// `name` in a new scope, in which the body is evaluated. After the last
/// item the `for_each` has the unit value.
pub open spec fn each_spec(
    m: MachineView,
    items: Seq<ExprView>,
    i: int,
    name: Seq<char>,
    body: AnnView,
) -> MachineView {
    if 0 <= i < items.len() {
        m.push(FrameView::Each { items, next: i + 1, name, body }).with_env(
            env_insert(env_push(m.env), name, AnnView::plain(items[i])),
        ).push(FrameView::Scope).eval(body)
    } else {
        m.plain(ExprView::One)
    }
}

/// Starts the evaluation of the arguments `list[1..]` for `callee`, or
/// applies it at once where there are none.
pub open spec fn call_spec(m: MachineView, callee: AnnView, list: Seq<AnnView>, range: Range)
    -> MachineView {
    if list.len() <= 1 {
        apply_spec(m, callee, Seq::empty(), range)
    } else {
        m.push(FrameView::Args { callee, list, done: Seq::empty(), range }).eval(list[1])
    }
}

/// Evaluates the special form `name` with the terms `list`, the first of
/// which is the head, whose value is `head`; `range` is the range of the
/// list.
pub open spec fn special_spec(
    m: MachineView,
    head: AnnView,
    name: Seq<char>,
    list: Seq<AnnView>,
    range: Range,
) -> MachineView {
    if name == "do"@ {
        let scoped = m.with_env(env_push(m.env)).push(FrameView::Scope);
        if list.len() <= 1 {
            scoped.plain(ExprView::One)
        } else {
            scoped.push(FrameView::Do { list, next: 2 }).eval(list[1])
        }
    } else if name == "ann"@ {
        if list.len() != 2 {
            m.invalid("`ann` requires one argument"@, range)
        } else {
            m.plain(
                ExprView::Dict(
                    match list[1].annotations {
                        Some(d) => d,
                        None => Seq::empty(),
                    },
                ),
            )
        }
    } else if name == "eval"@ {
        if list.len() != 2 {
            m.invalid("missing expression to be evaluated"@, range)
        } else {
            m.push(FrameView::Eval).eval(list[1])
        }
    } else if name == "quot"@ {
        if list.len() != 2 {
            m.invalid("missing quote target"@, range)
        } else {
            m.plain(list[1].expr)
        }
    } else if name == "for"@ {
        if list.len() != 3 {
            m.invalid("missing for arguments"@, range)
        } else {
            m.push(
                FrameView::ForTest {
                    test: list[1],
                    body: list[2],
                    last: AnnView::plain(ExprView::One),
                },
            ).eval(list[1])
        }
    } else if name == "if"@ {
        if list.len() < 2 {
            m.invalid("malformed if predicate"@, range)
        } else if list.len() < 3 {
            m.invalid("malformed if true clause"@, range)
        } else {
            m.push(
                FrameView::If {
                    then: list[2],
                    otherwise: if list.len() > 3 {
                        Some(list[3])
                    } else {
                        None
                    },
                },
            ).eval(list[1])
        }
    } else if name == "for_each"@ {
        if list.len() != 4 {
            m.invalid("malformed `for_each`"@, range)
        } else {
            m.push(FrameView::EachSeq { var: list[2], body: list[3] }).eval(list[1])
        }
    } else if name == "use"@ {
        if list.len() >= 2 && list[1].expr is Symbol {
            MachineView { control: ControlView::Load { path: list[1].expr->Symbol_0, range }, ..m }
        } else {
            m.invalid("malformed use expression"@, range)
        }
    } else if name == "let"@ {
        let_spec(m, list, 1)
    } else if name == "Char"@ {
        if list.len() >= 2 && list[1].expr is String {
            let text = list[1].expr->String_0;
            if text.len() == 1 {
                m.plain(ExprView::Char(text[0]))
            } else {
                m.invalid("the Char constructor requires a single-char string"@, range)
            }
        } else {
            m.invalid("malformed Char constructor"@, range)
        }
    } else if name == "List"@ {
        call_spec(m, head, list, range)
    } else if name == "Func"@ {
        if list.len() != 3 {
            m.invalid("malformed func definition"@, range)
        } else if list[1].expr is List && all_symbols(list[1].expr->List_0) {
            m.plain(ExprView::Func(list[1].expr->List_0, Box::new(list[2])))
        } else {
            m.invalid("malformed func parameters definition"@, list[1].range_or_origin())
        }
    } else if name == "Macro"@ {
        if list.len() != 3 {
            m.invalid("malformed macro definition"@, range)
        } else if list[1].expr is List && all_symbols(list[1].expr->List_0) {
            m.plain(ExprView::Macro(list[1].expr->List_0, Box::new(list[2])))
        } else {
            m.invalid("malformed macro parameters definition"@, list[1].range_or_origin())
        }
    } else {
        m.raise(
            ErrorView::NotInvocable("symbol `"@ + format_expr(head.expr) + "`"@),
            head.range_or_origin(),
        )
    }
}

/// Goes on with a list whose head has the value `head`. A function, a
/// foreign function, an array and a dict are called with the values of the
/// other terms. A symbol names a special form. Nothing else can be called.
pub open spec fn dispatch_spec(m: MachineView, head: AnnView, list: Seq<AnnView>, range: Range)
    -> MachineView {
    match head.expr {
        ExprView::Func(_, _) => call_spec(m, head, list, range),
        ExprView::ForeignFunc(_) => call_spec(m, head, list, range),
        ExprView::Array(_) => call_spec(m, head, list, range),
        ExprView::Dict(_) => call_spec(m, head, list, range),
        ExprView::Symbol(name) => special_spec(m, head, name, list, range),
        _ => m.raise(
            ErrorView::NotInvocable("expression `"@ + format_expr(head.expr) + "`"@),
            head.range_or_origin(),
        ),
    }
}

/// Hands the value `v` to `frame`, which has just left the stack of `m`.
pub open spec fn return_spec(m: MachineView, frame: FrameView, v: AnnView) -> MachineView {
    match frame {
        FrameView::Head { list, range } => dispatch_spec(m, v, list, range),
        FrameView::Args { callee, list, done, range } => {
            let done = done.push(v);
            if done.len() + 1 < list.len() {
                m.push(FrameView::Args { callee, list, done, range }).eval(
                    list[done.len() as int + 1],
                )
            } else {
                apply_spec(m, callee, done, range)
            }
        },
        FrameView::Scope => m.with_env(env_pop(m.env)).value(v),
        FrameView::Do { list, next } => if 0 <= next < list.len() {
            m.push(FrameView::Do { list, next: next + 1 }).eval(list[next])
        } else {
            m.value(v)
        },
        FrameView::Let { name, list, next } => let_spec(
            m.with_env(env_insert(m.env, name, v)),
            list,
            next,
        ),
        FrameView::If { then, otherwise } => match v.expr {
            ExprView::Bool(b) => if b {
                m.eval(then)
            } else {
                match otherwise {
                    Some(e) => m.eval(e),
                    None => m.plain(ExprView::One),
                }
            },
            _ => m.invalid("the if predicate is not a boolean value"@, v.range_or_origin()),
        },
        FrameView::ForTest { test, body, last } => match v.expr {
            ExprView::Bool(b) => if b {
                m.push(FrameView::ForBody { test, body }).eval(body)
            } else {
                m.value(last)
            },
            _ => m.invalid("the for predicate is not a boolean value"@, v.range_or_origin()),
        },
        FrameView::ForBody { test, body } => m.push(
            FrameView::ForTest { test, body, last: v },
        ).eval(test),
        FrameView::EachSeq { var, body } => match v.expr {
            ExprView::Array(items) => match var.expr {
                ExprView::Symbol(name) => each_spec(m, items, 0, name, body),
                _ => m.invalid(
                    "`for_each` requires a symbol as the second argument"@,
                    var.range_or_origin(),
                ),
            },
            _ => m.invalid(
                "`for_each` requires a `Seq` as the first argument"@,
                v.range_or_origin(),
            ),
        },
        FrameView::Each { items, next, name, body } => each_spec(m, items, next, name, body),
        FrameView::Eval => m.eval(v),
        FrameView::Use { forms, next, range } => if 0 <= next < forms.len() {
            m.push(FrameView::Use { forms, next: next + 1, range }).eval(forms[next])
        } else {
            m.plain(ExprView::One)
        },
        FrameView::Forms { forms, next } => if 0 <= next < forms.len() {
            m.push(FrameView::Forms { forms, next: next + 1 }).eval(forms[next])
        } else {
            m.value(v)
        },
    }
}

/// Lets the error `e` at `r` pass `frame`, which has just left the stack of
/// `m`. A scope is popped. What fails inside a module that is being used
/// becomes `FailedUse` at the `use` expression.
pub open spec fn unwind_spec(m: MachineView, frame: FrameView, e: ErrorView, r: Range)
    -> MachineView {
    match frame {
        FrameView::Scope => m.with_env(env_pop(m.env)).raise(e, r),
        FrameView::Use { forms, next, range } => m.raise(ErrorView::FailedUse, range),
        _ => m.raise(e, r),
    }
}

/// One step of the evaluation. A machine that waits for the host, or has
/// ended, stays as it is.
pub open spec fn step_spec(m: MachineView) -> MachineView {
    match m.control {
        ControlView::Eval(e) => eval_spec(m, e),
        ControlView::Value(v) => if m.stack.len() == 0 {
            m
        } else {
            return_spec(m.drop(), m.stack.last(), v)
        },
        ControlView::Raise(e, r) => if m.stack.len() == 0 {
            m
        } else {
            unwind_spec(m.drop(), m.stack.last(), e, r)
        },
        _ => m,
    }
}

/// The machine after `n` steps.
pub open spec fn steps(m: MachineView, n: nat) -> MachineView
    decreases n,
{
    if n == 0 {
        m
    } else {
        step_spec(steps(m, (n - 1) as nat))
    }
}

/// The machine after the host has called the foreign function that it
/// waits for, with the result `result`. A machine that does not wait for a
/// call stays as it is.
pub open spec fn resume_spec(m: MachineView, result: Result<AnnView, (ErrorView, Range)>)
    -> MachineView {
    match m.control {
        ControlView::Call { .. } => match result {
            Ok(v) => m.value(v),
            Err((e, r)) => m.raise(e, r),
        },
        _ => m,
    }
}

/// Whether every one of `params` is a symbol.
fn are_symbols(params: &Vec<Ann<Expr>>) -> (b: bool)
    ensures
        b == all_symbols(anns_view(params@)),
{
    let mut i: usize = 0;
    proof {
        lemma_anns_view(params@);
    }
    while i < params.len()
        invariant
            i <= params.len(),
            anns_view(params@).len() == params.len(),
            forall|j: int|
                0 <= j < params.len() ==> #[trigger] anns_view(params@)[j] == params@[j]@,
            forall|j: int| 0 <= j < i ==> (#[trigger] anns_view(params@)[j]).expr is Symbol,
        decreases params.len() - i,
    {
        match &params[i].0 {
            Expr::Symbol(_) => {},
            _ => {
                assert(!(anns_view(params@)[i as int].expr is Symbol));
                return false;
            },
        }
        i += 1;
    }
    true
}

impl Machine {
    /// Evaluates the symbol `name`, which is the expression `e`.
    fn lookup(&mut self, e: Ann<Expr>, name: &String)
        requires
            e@.expr == ExprView::Symbol(name@),
        ensures
            final(self)@ == lookup_spec(old(self)@, e@, name@),
    {
        if is_reserved_symbol(name.as_str()) {
            self.go_value(e);
            return ;
        }
        let method = match e.get_annotation("method") {
            Some(Expr::Symbol(method)) => Some(method.clone()),
            _ => None,
        };
        let found = match &method {
            Some(method) => match self.env.get(method.as_str()) {
                Some(v) => Some(v.clone()),
                None => match self.env.get(name.as_str()) {
                    Some(v) => Some(v.clone()),
                    None => None,
                },
            },
            None => match self.env.get(name.as_str()) {
                Some(v) => Some(v.clone()),
                None => None,
            },
        };
        match found {
            Some(v) => self.go_value(v),
            None => match method {
                Some(method) => self.go_raise(
                    Error::UndefinedFunction(name.clone(), method),
                    e.get_range(),
                ),
                None => self.go_raise(Error::UndefinedSymbol(name.clone()), e.get_range()),
            },
        }
    }

    /// Starts the evaluation of `e`.
    fn eval_expr(&mut self, e: Ann<Expr>)
        ensures
            final(self)@ == eval_spec(old(self)@, e@),
    {
        match &e.0 {
            Expr::Symbol(name) => {
                let name = name.clone();
                self.lookup(e, &name);
            },
            Expr::If(p, t, f) => {
                let otherwise = match f {
                    Some(b) => Some((&**b).clone()),
                    None => None,
                };
                let then = (&**t).clone();
                let test = (&**p).clone();
                self.push_frame(Frame::If { then, otherwise });
                self.go_eval(test);
            },
            Expr::List(list) => {
                if count(list) == 0 {
                    self.go_plain(Expr::One);
                } else {
                    let head = term(list, 0);
                    let range = e.get_range();
                    self.push_frame(Frame::Head { list: clone_anns(list), range });
                    self.go_eval(head);
                }
            },
            _ => {
                self.go_value(e);
            },
        }
    }

    /// Binds the parameters to the arguments, as far as both go. Returns
    /// the range of the first parameter that is no symbol, at which binding
    /// stops.
    fn bind(&mut self, params: &Vec<Ann<Expr>>, args: &Vec<Ann<Expr>>) -> (failed: Option<Range>)
        ensures
            (final(self)@.env, failed) == bind_spec(
                old(self)@.env,
                anns_view(params@),
                anns_view(args@),
                0,
            ),
            final(self)@.stack == old(self)@.stack,
            final(self)@.control == old(self)@.control,
    {
        let mut i: usize = 0;
        proof {
            lemma_anns_view(params@);
            lemma_anns_view(args@);
        }
        while i < params.len() && i < args.len()
            invariant
                self@.stack == old(self)@.stack,
                self@.control == old(self)@.control,
                anns_view(params@).len() == params.len(),
                anns_view(args@).len() == args.len(),
                forall|j: int|
                    0 <= j < params.len() ==> #[trigger] anns_view(params@)[j] == params@[j]@,
                forall|j: int| 0 <= j < args.len() ==> #[trigger] anns_view(args@)[j] == args@[j]@,
                bind_spec(old(self)@.env, anns_view(params@), anns_view(args@), 0) == bind_spec(
                    self@.env,
                    anns_view(params@),
                    anns_view(args@),
                    i as int,
                ),
            decreases params.len() - i,
        {
            match &params[i].0 {
                Expr::Symbol(name) => {
                    self.env.insert(name.clone(), args[i].clone());
                },
                _ => {
                    return Some(params[i].get_range());
                },
            }
            i += 1;
        }
        None
    }

    /// Applies `callee` to the values `args`.
    fn apply(&mut self, callee: Ann<Expr>, args: Vec<Ann<Expr>>, range: Range)
        ensures
            final(self)@ == apply_spec(old(self)@, callee@, anns_view(args@), range),
    {
        proof {
            lemma_anns_view(args@);
        }
        match callee.0 {
            Expr::Func(params, body) => {
                self.push_scope();
                match self.bind(&params, &args) {
                    Some(r) => self.go_invalid("parameter is not a symbol", r),
                    None => self.go_eval(*body),
                }
            },
            Expr::ForeignFunc(name) => {
                self.control = Control::Call { name, args };
            },
            Expr::Array(items) => {
                proof {
                    lemma_exprs_view(items@);
                }
                if args.len() == 0 {
                    self.go_invalid("invalid array index, expecting Int", range);
                    return ;
                }
                match &args[0].0 {
                    Expr::Int(i) => {
                        let i = *i;
                        if i >= 0 && (i as u64) < (items.len() as u64) {
                            self.go_plain(items[i as usize].clone());
                        } else {
                            self.go_plain(Expr::One);
                        }
                    },
                    _ => {
                        self.go_invalid("invalid array index, expecting Int", args[0].get_range());
                    },
                }
            },
            Expr::Dict(dict) => {
                if args.len() == 0 {
                    self.go_invalid("invalid dict key", range);
                    return ;
                }
                let key = format_value(&args[0].0);
                match dict.get(key.as_str()) {
                    Some(v) => self.go_plain(v.clone()),
                    None => self.go_plain(Expr::One),
                }
            },
            _ => {
                self.go_plain(Expr::List(args));
            },
        }
    }

    /// Goes on with the bindings of a `let` from the name `list[i]`.
    fn let_from(&mut self, list: Vec<Ann<Expr>>, i: usize)
        ensures
            final(self)@ == let_spec(old(self)@, anns_view(list@), i as int),
    {
        let n = count(&list);
        if i >= n || i + 1 >= n {
            self.go_plain(Expr::One);
            return ;
        }
        let name_term = term(&list, i);
        match &name_term.0 {
            Expr::Symbol(name) => {
                if is_reserved_symbol(name.as_str()) {
                    let mut message = String::from_str("let cannot shadow the reserved symbol `");
                    message.append(name.as_str());
                    message.append("`");
                    self.go_raise(Error::InvalidArguments(message), name_term.get_range());
                } else {
                    let value = term(&list, i + 1);
                    self.push_frame(Frame::Let { name: name.clone(), list, next: i + 2 });
                    self.go_eval(value);
                }
            },
            other => {
                let mut message = String::from_str("`");
                let shown = other.to_string();
                message.append(shown.as_str());
                message.append("` is not a Symbol");
                self.go_raise(Error::InvalidArguments(message), name_term.get_range());
            },
        }
    }

    /// Goes on with a `for_each` from the item `items[i]`.
    fn each_from(&mut self, items: Vec<Expr>, i: usize, name: String, body: Ann<Expr>)
        ensures
            final(self)@ == each_spec(old(self)@, exprs_view(items@), i as int, name@, body@),
    {
        proof {
            lemma_exprs_view(items@);
        }
        if i < items.len() {
            let item = Ann::new(items[i].clone());
            let again = body.clone();
            let bound = name.clone();
            self.push_frame(Frame::Each { items, next: i + 1, name, body });
            self.env.push_new_scope();
            self.env.insert(bound, item);
            self.push_frame(Frame::Scope);
            self.go_eval(again);
        } else {
            self.go_plain(Expr::One);
        }
    }

    /// Starts the evaluation of the arguments for `callee`, or applies it
    /// at once where there are none.
    fn call(&mut self, callee: Ann<Expr>, list: Vec<Ann<Expr>>, range: Range)
        ensures
            final(self)@ == call_spec(old(self)@, callee@, anns_view(list@), range),
    {
        if count(&list) <= 1 {
            let args: Vec<Ann<Expr>> = Vec::new();
            proof {
                lemma_anns_view(args@);
                assert(anns_view(args@) =~= Seq::empty());
            }
            self.apply(callee, args, range);
        } else {
            let first = term(&list, 1);
            let done: Vec<Ann<Expr>> = Vec::new();
            proof {
                lemma_anns_view(done@);
                assert(anns_view(done@) =~= Seq::empty());
            }
            self.push_frame(Frame::Args { callee, list, done, range });
            self.go_eval(first);
        }
    }

    /// Makes the character that `text` holds, which has to be the only one.
    fn make_char(&mut self, text: &String, range: Range)
        ensures
            final(self)@ == if text@.len() == 1 {
                old(self)@.plain(ExprView::Char(text@[0]))
            } else {
                old(self)@.invalid("the Char constructor requires a single-char string"@, range)
            },
    {
        let chars = chars_of(text.as_str());
        if chars.len() == 1 {
            self.go_plain(Expr::Char(char_at(&chars, 0)));
        } else {
            self.go_invalid("the Char constructor requires a single-char string", range);
        }
    }

    /// Evaluates the special form `name` with the terms `list`.
    fn special(&mut self, head: Ann<Expr>, name: &String, list: Vec<Ann<Expr>>, range: Range)
        ensures
            final(self)@ == special_spec(old(self)@, head@, name@, anns_view(list@), range),
    {
        let n = count(&list);
        let name = name.as_str();
        if same_text(name, "do") {
            self.push_scope();
            if n <= 1 {
                self.go_plain(Expr::One);
            } else {
                let first = term(&list, 1);
                self.push_frame(Frame::Do { list, next: 2 });
                self.go_eval(first);
            }
        } else if same_text(name, "ann") {
            if n != 2 {
                self.go_invalid("`ann` requires one argument", range);
            } else {
                let target = term(&list, 1);
                let dict = match target.1 {
                    Some(d) => d,
                    None => Dict::new(),
                };
                self.go_plain(Expr::Dict(dict));
            }
        } else if same_text(name, "eval") {
            if n != 2 {
                self.go_invalid("missing expression to be evaluated", range);
            } else {
                let target = term(&list, 1);
                self.push_frame(Frame::Eval);
                self.go_eval(target);
            }
        } else if same_text(name, "quot") {
            if n != 2 {
                self.go_invalid("missing quote target", range);
            } else {
                let target = term(&list, 1);
                self.go_plain(target.0);
            }
        } else if same_text(name, "for") {
            if n != 3 {
                self.go_invalid("missing for arguments", range);
            } else {
                let test = term(&list, 1);
                let body = term(&list, 2);
                let first = test.clone();
                self.push_frame(Frame::ForTest { test, body, last: Ann::new(Expr::One) });
                self.go_eval(first);
            }
        } else if same_text(name, "if") {
            if n < 2 {
                self.go_invalid("malformed if predicate", range);
            } else if n < 3 {
                self.go_invalid("malformed if true clause", range);
            } else {
                let test = term(&list, 1);
                let then = term(&list, 2);
                let otherwise = if n > 3 {
                    Some(term(&list, 3))
                } else {
                    None
                };
                self.push_frame(Frame::If { then, otherwise });
                self.go_eval(test);
            }
        } else if same_text(name, "for_each") {
            if n != 4 {
                self.go_invalid("malformed `for_each`", range);
            } else {
                let seq = term(&list, 1);
                let var = term(&list, 2);
                let body = term(&list, 3);
                self.push_frame(Frame::EachSeq { var, body });
                self.go_eval(seq);
            }
        } else if same_text(name, "use") {
            if n >= 2 {
                let target = term(&list, 1);
                match target.0 {
                    Expr::Symbol(path) => {
                        self.control = Control::Load { path, range };
                        return ;
                    },
                    _ => {},
                }
            }
            self.go_invalid("malformed use expression", range);
        } else if same_text(name, "let") {
            self.let_from(list, 1);
        } else if same_text(name, "Char") {
            if n >= 2 {
                let target = term(&list, 1);
                match &target.0 {
                    Expr::String(text) => {
                        self.make_char(text, range);
                        return ;
                    },
                    _ => {},
                }
            }
            self.go_invalid("malformed Char constructor", range);
        } else if same_text(name, "List") {
            self.call(head, list, range);
        } else if same_text(name, "Func") {
            if n != 3 {
                self.go_invalid("malformed func definition", range);
                return ;
            }
            let params_term = term(&list, 1);
            let body = term(&list, 2);
            match &params_term.0 {
                Expr::List(params) => {
                    if are_symbols(params) {
                        self.go_plain(Expr::Func(clone_anns(params), Box::new(body)));
                        return ;
                    }
                },
                _ => {},
            }
            self.go_invalid("malformed func parameters definition", params_term.get_range());
        } else if same_text(name, "Macro") {
            if n != 3 {
                self.go_invalid("malformed macro definition", range);
                return ;
            }
            let params_term = term(&list, 1);
            let body = term(&list, 2);
            match &params_term.0 {
                Expr::List(params) => {
                    if are_symbols(params) {
                        self.go_plain(Expr::Macro(clone_anns(params), Box::new(body)));
                        return ;
                    }
                },
                _ => {},
            }
            self.go_invalid("malformed macro parameters definition", params_term.get_range());
        } else {
            let mut message = String::from_str("symbol `");
            let shown = head.0.to_string();
            message.append(shown.as_str());
            message.append("`");
            self.go_raise(Error::NotInvocable(message), head.get_range());
        }
    }

    /// Goes on with a list whose head has the value `head`.
    fn dispatch(&mut self, head: Ann<Expr>, list: Vec<Ann<Expr>>, range: Range)
        ensures
            final(self)@ == dispatch_spec(old(self)@, head@, anns_view(list@), range),
    {
        match &head.0 {
            Expr::Func(_, _) => self.call(head, list, range),
            Expr::ForeignFunc(_) => self.call(head, list, range),
            Expr::Array(_) => self.call(head, list, range),
            Expr::Dict(_) => self.call(head, list, range),
            Expr::Symbol(name) => {
                let name = name.clone();
                self.special(head, &name, list, range);
            },
            other => {
                let mut message = String::from_str("expression `");
                let shown = other.to_string();
                message.append(shown.as_str());
                message.append("`");
                self.go_raise(Error::NotInvocable(message), head.get_range());
            },
        }
    }

    /// Hands the value `v` to `frame`, which has just left the stack.
    fn deliver(&mut self, frame: Frame, v: Ann<Expr>)
        ensures
            final(self)@ == return_spec(old(self)@, frame@, v@),
    {
        match frame {
            Frame::Head { list, range } => self.dispatch(v, list, range),
            Frame::Args { callee, list, mut done, range } => {
                proof {
                    lemma_anns_view_push(done@, v);
                }
                done.push(v);
                let n = count(&list);
                let k = count(&done);
                if k < n && k + 1 < n {
                    let next = term(&list, k + 1);
                    self.push_frame(Frame::Args { callee, list, done, range });
                    self.go_eval(next);
                } else {
                    self.apply(callee, done, range);
                }
            },
            Frame::Scope => {
                self.env.pop();
                self.go_value(v);
            },
            Frame::Do { list, next } => {
                if next < count(&list) {
                    let e = term(&list, next);
                    self.push_frame(Frame::Do { list, next: next + 1 });
                    self.go_eval(e);
                } else {
                    self.go_value(v);
                }
            },
            Frame::Let { name, list, next } => {
                self.env.insert(name, v);
                self.let_from(list, next);
            },
            Frame::If { then, otherwise } => match &v.0 {
                Expr::Bool(b) => {
                    if *b {
                        self.go_eval(then);
                    } else {
                        match otherwise {
                            Some(e) => self.go_eval(e),
                            None => self.go_plain(Expr::One),
                        }
                    }
                },
                _ => {
                    self.go_invalid("the if predicate is not a boolean value", v.get_range());
                },
            },
            Frame::ForTest { test, body, last } => match &v.0 {
                Expr::Bool(b) => {
                    if *b {
                        let again = body.clone();
                        self.push_frame(Frame::ForBody { test, body });
                        self.go_eval(again);
                    } else {
                        self.go_value(last);
                    }
                },
                _ => {
                    self.go_invalid("the for predicate is not a boolean value", v.get_range());
                },
            },
            Frame::ForBody { test, body } => {
                let again = test.clone();
                self.push_frame(Frame::ForTest { test, body, last: v });
                self.go_eval(again);
            },
            Frame::EachSeq { var, body } => match v.0 {
                Expr::Array(items) => match &var.0 {
                    Expr::Symbol(name) => {
                        let name = name.clone();
                        self.each_from(items, 0, name, body);
                    },
                    _ => {
                        self.go_invalid(
                            "`for_each` requires a symbol as the second argument",
                            var.get_range(),
                        );
                    },
                },
                _ => {
                    let r = match v.2 {
                        Some(r) => r,
                        None => Range { start: 0, end: 0 },
                    };
                    self.go_invalid("`for_each` requires a `Seq` as the first argument", r);
                },
            },
            Frame::Each { items, next, name, body } => self.each_from(items, next, name, body),
            Frame::Eval => self.go_eval(v),
            Frame::Use { forms, next, range } => {
                if next < count(&forms) {
                    let e = term(&forms, next);
                    self.push_frame(Frame::Use { forms, next: next + 1, range });
                    self.go_eval(e);
                } else {
                    self.go_plain(Expr::One);
                }
            },
            Frame::Forms { forms, next } => {
                if next < count(&forms) {
                    let e = term(&forms, next);
                    self.push_frame(Frame::Forms { forms, next: next + 1 });
                    self.go_eval(e);
                } else {
                    self.go_value(v);
                }
            },
        }
    }

    /// Lets the error `e` at `r` pass `frame`, which has just left the
    /// stack.
    fn unwind(&mut self, frame: Frame, e: Error, r: Range)
        ensures
            final(self)@ == unwind_spec(old(self)@, frame@, e@, r),
    {
        match frame {
            Frame::Scope => {
                self.env.pop();
                self.go_raise(e, r);
            },
            Frame::Use { forms, next, range } => {
                self.go_raise(Error::FailedUse, range);
            },
            _ => {
                self.go_raise(e, r);
            },
        }
    }

    /// Takes one step of the evaluation. A machine that waits for the host,
    /// or has ended, stays as it is.
    pub fn step(&mut self)
        ensures
            final(self)@ == step_spec(old(self)@),
    {
        match &self.control {
            Control::Eval(e) => {
                let e = e.clone();
                self.eval_expr(e);
            },
            Control::Value(v) => {
                let v = v.clone();
                match self.pop_frame() {
                    Some(frame) => self.deliver(frame, v),
                    None => {},
                }
            },
            Control::Raise(e) => {
                let error = e.0.clone();
                let range = e.1;
                match self.pop_frame() {
                    Some(frame) => self.unwind(frame, error, range),
                    None => {},
                }
            },
            _ => {},
        }
    }

    /// Takes steps until the machine waits for the host or has ended, but
    /// no more than `limit` steps. Returns the number of steps taken.
    pub fn run(&mut self, limit: usize) -> (taken: usize)
        ensures
            taken <= limit,
            final(self)@ == steps(old(self)@, taken as nat),
            taken < limit ==> final(self)@.status() != Status::Running,
    {
        let mut taken: usize = 0;
        while taken < limit
            invariant
                taken <= limit,
                self@ == steps(old(self)@, taken as nat),
            ensures
                taken <= limit,
                self@ == steps(old(self)@, taken as nat),
                taken < limit ==> self@.status() != Status::Running,
            decreases limit - taken,
        {
            match self.status() {
                Status::Running => {},
                _ => {
                    break ;
                },
            }
            self.step();
            taken += 1;
        }
        taken
    }

    /// Goes on after the host has called the foreign function that the
    /// machine waits for: `result` is what the function returned. A machine
    /// that does not wait for a call stays as it is.
    pub fn resume(&mut self, result: Result<Ann<Expr>, Ranged<Error>>)
        ensures
            final(self)@ == resume_spec(
                old(self)@,
                match result {
                    Ok(v) => Ok(v@),
                    Err(e) => Err(e@),
                },
            ),
    {
        match &self.control {
            Control::Call { .. } => match result {
                Ok(v) => self.go_value(v),
                Err(e) => self.go_raise(e.0, e.1),
            },
            _ => {},
        }
    }
}

} // verus!
