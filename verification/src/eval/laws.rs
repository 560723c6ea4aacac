use vstd::prelude::*;
use crate::api::eval_text_spec;
use crate::error::ErrorView;
use crate::eval::env::{env_insert, env_push, EnvView};
use crate::eval::load::{load_forms_spec, load_spec};
use crate::eval::machine::{ControlView, FrameView, MachineView, Status};
use crate::eval::step::{
    apply_spec, bind_spec, let_spec, resume_spec, return_spec, special_spec, step_spec, steps,
};
use crate::expr::{AnnView, ExprView};
use crate::range::Range;
use crate::typecheck::{resolve_let_spec, resolve_spec, resolve_terms_spec};
use crate::util::reserved_symbol;

verus! {

/// What can happen to a machine: it takes a step, or the host hands it
/// what it waits for.
pub ghost enum Event {
    /// The machine takes one step.
    Step,
    /// The host hands over the result of a foreign function.
    Resume(Result<AnnView, (ErrorView, Range)>),
    /// The host hands over the source texts of a module, or nothing.
    Load(Option<Seq<Seq<char>>>),
}

/// The machine after one event.
pub open spec fn react(m: MachineView, event: Event) -> MachineView {
    match event {
        Event::Step => step_spec(m),
        Event::Resume(result) => resume_spec(m, result),
        Event::Load(sources) => load_spec(m, sources),
    }
}

/// The machine after the events, in order.
pub open spec fn run(m: MachineView, events: Seq<Event>) -> MachineView
    decreases events.len(),
{
    if events.len() == 0 {
        m
    } else {
        react(run(m, events.drop_last()), events.last())
    }
}

/// The number of scopes that the frames of the stack have pushed and not
/// popped yet.
pub open spec fn pending_scopes(stack: Seq<FrameView>) -> int
    decreases stack.len(),
{
    if stack.len() == 0 {
        0
    } else {
        pending_scopes(stack.drop_last()) + if stack.last() is Scope {
            1int
        } else {
            0int
        }
    }
}

/// The number of scopes that the environment had when the evaluation
/// started, as far as the machine tells: the scopes it has now, less the
/// scopes that its frames have pushed.
pub open spec fn base_depth(m: MachineView) -> int {
    m.env.len() - pending_scopes(m.stack)
}

/// Whether the expression is a literal: a value that is written down as it
/// is.
pub open spec fn literal(e: ExprView) -> bool {
    e is Bool || e is Int || e is Float || e is Char || e is String || e is KeySymbol
        || e is Array || e is Dict || e is One
}

proof fn lemma_pending_push()
    ensures
        forall|stack: Seq<FrameView>, f: FrameView|
            pending_scopes(#[trigger] stack.push(f)) == pending_scopes(stack) + if f is Scope {
                1int
            } else {
                0int
            },
        pending_scopes(Seq::empty()) == 0,
{
    assert forall|stack: Seq<FrameView>, f: FrameView|
        pending_scopes(#[trigger] stack.push(f)) == pending_scopes(stack) + if f is Scope {
            1int
        } else {
            0int
        } by {
        assert(stack.push(f).drop_last() =~= stack);
    }
}

proof fn lemma_pending_nonnegative(stack: Seq<FrameView>)
    ensures
        pending_scopes(stack) >= 0,
    decreases stack.len(),
{
    if stack.len() > 0 {
        lemma_pending_nonnegative(stack.drop_last());
    }
}

proof fn lemma_bind_keeps_depth(env: EnvView, params: Seq<AnnView>, args: Seq<AnnView>, i: int)
    requires
        env.len() >= 1,
    ensures
        bind_spec(env, params, args, i).0.len() == env.len(),
    decreases params.len() - i,
{
    if 0 <= i < params.len() && i < args.len() {
        match params[i].expr {
            ExprView::Symbol(name) => {
                lemma_bind_keeps_depth(env_insert(env, name, args[i]), params, args, i + 1);
            },
            _ => {},
        }
    }
}

proof fn lemma_resolve_keeps_depth(expr: AnnView, env: EnvView)
    requires
        env.len() >= 1,
    ensures
        resolve_spec(expr, env).0.len() == env.len(),
    decreases expr, 0int,
{
    match expr.expr {
        ExprView::List(list) => if list.len() > 0 && list[0].expr is Symbol {
            let name = list[0].expr->Symbol_0;
            if name == "let"@ {
                lemma_resolve_let_keeps_depth(expr, list, 1, env);
            } else {
                lemma_resolve_terms_keep_depth(list, 1, env);
            }
        },
        _ => {},
    }
}

proof fn lemma_resolve_terms_keep_depth(list: Seq<AnnView>, i: int, env: EnvView)
    requires
        env.len() >= 1,
    ensures
        resolve_terms_spec(list, i, env).0.len() == env.len(),
    decreases list, list.len() - i,
{
    if 0 <= i < list.len() {
        lemma_resolve_keeps_depth(list[i], env);
        let (env1, first) = resolve_spec(list[i], env);
        if first is Ok {
            lemma_resolve_terms_keep_depth(list, i + 1, env1);
        }
    }
}

proof fn lemma_resolve_let_keeps_depth(expr: AnnView, list: Seq<AnnView>, i: int, env: EnvView)
    requires
        env.len() >= 1,
    ensures
        resolve_let_spec(expr, list, i, env).0.len() == env.len(),
    decreases list, list.len() - i,
{
    if 0 <= i && i + 1 < list.len() {
        match list[i].expr {
            ExprView::Symbol(name) => if !reserved_symbol(name) {
                lemma_resolve_keeps_depth(list[i + 1], env);
                let (env1, value) = resolve_spec(list[i + 1], env);
                match value {
                    Ok(value) => {
                        lemma_resolve_let_keeps_depth(
                            expr.annotate("type"@, value.type_annotation()),
                            list,
                            i + 2,
                            env_insert(env1, name, value),
                        );
                    },
                    Err(_) => {},
                }
            },
            _ => {},
        }
    }
}

proof fn lemma_load_keeps_depth(texts: Seq<Seq<char>>, i: int, env: EnvView)
    requires
        env.len() >= 1,
    ensures
        load_forms_spec(texts, i, env).0.len() == env.len(),
    decreases texts.len() - i,
{
    if 0 <= i < texts.len() {
        match crate::api::parse_text_spec(texts[i]) {
            Err(_) => {},
            Ok(exprs) => {
                lemma_resolve_terms_keep_depth(exprs, 0, env);
                let (env1, forms) = resolve_terms_spec(exprs, 0, env);
                if forms is Ok {
                    lemma_load_keeps_depth(texts, i + 1, env1);
                }
            },
        }
    }
}

proof fn lemma_apply_keeps_base(m: MachineView, callee: AnnView, args: Seq<AnnView>, range: Range)
    requires
        base_depth(m) >= 1,
    ensures
        base_depth(apply_spec(m, callee, args, range)) == base_depth(m),
{
    lemma_pending_push();
    lemma_pending_nonnegative(m.stack);
    match callee.expr {
        ExprView::Func(params, body) => {
            lemma_bind_keeps_depth(env_push(m.env), params, args, 0);
        },
        _ => {},
    }
}

proof fn lemma_special_keeps_base(
    m: MachineView,
    head: AnnView,
    name: Seq<char>,
    list: Seq<AnnView>,
    range: Range,
)
    requires
        base_depth(m) >= 1,
    ensures
        base_depth(special_spec(m, head, name, list, range)) == base_depth(m),
{
    lemma_pending_push();
    lemma_pending_nonnegative(m.stack);
    lemma_apply_keeps_base(m, head, Seq::empty(), range);
}

proof fn lemma_return_keeps_base(m: MachineView, frame: FrameView, v: AnnView)
    requires
        base_depth(m.push(frame)) >= 1,
    ensures
        base_depth(return_spec(m, frame, v)) == base_depth(m.push(frame)),
{
    lemma_pending_push();
    lemma_pending_nonnegative(m.stack);
    match frame {
        FrameView::Head { list, range } => {
            lemma_special_keeps_base(m, v, v.expr->Symbol_0, list, range);
            lemma_apply_keeps_base(m, v, Seq::empty(), range);
        },
        FrameView::Args { callee, list, done, range } => {
            lemma_apply_keeps_base(m, callee, done.push(v), range);
        },
        _ => {},
    }
}

/// A step leaves the base depth of a machine as it is, where that depth is
/// at least one.
pub proof fn lemma_step_keeps_base(m: MachineView)
    requires
        base_depth(m) >= 1,
    ensures
        base_depth(step_spec(m)) == base_depth(m),
{
    lemma_pending_push();
    lemma_pending_nonnegative(m.stack);
    match m.control {
        ControlView::Value(v) => if m.stack.len() > 0 {
            assert(m.drop().push(m.stack.last()).stack =~= m.stack);
            lemma_return_keeps_base(m.drop(), m.stack.last(), v);
        },
        ControlView::Raise(e, r) => if m.stack.len() > 0 {
            assert(m.drop().push(m.stack.last()).stack =~= m.stack);
            lemma_pending_nonnegative(m.drop().stack);
        },
        _ => {},
    }
}

/// Every event leaves the base depth of a machine as it is, where that
/// depth is at least one.
pub proof fn lemma_react_keeps_base(m: MachineView, event: Event)
    requires
        base_depth(m) >= 1,
    ensures
        base_depth(react(m, event)) == base_depth(m),
{
    lemma_pending_push();
    match event {
        Event::Step => lemma_step_keeps_base(m),
        Event::Resume(_) => {},
        Event::Load(sources) => {
            lemma_pending_nonnegative(m.stack);
            match sources {
                Some(texts) => lemma_load_keeps_depth(texts, 0, m.env),
                None => {},
            }
        },
    }
}

/// Whatever events follow, the base depth of a machine stays as it is,
/// where that depth is at least one. When the evaluation has ended, the
/// environment has as many scopes as the base depth says.
pub proof fn lemma_run_keeps_base(m: MachineView, events: Seq<Event>)
    requires
        base_depth(m) >= 1,
    ensures
        base_depth(run(m, events)) == base_depth(m),
        run(m, events).status() == Status::Finished ==> run(m, events).env.len() == base_depth(m),
    decreases events.len(),
{
    lemma_pending_push();
    if events.len() > 0 {
        lemma_run_keeps_base(m, events.drop_last());
        lemma_react_keeps_base(run(m, events.drop_last()), events.last());
    }
    let after = run(m, events);
    if after.status() == Status::Finished {
        assert(after.stack =~= Seq::empty());
    }
}

/// Scope balance: however an evaluation goes on, with whatever the host
/// hands over, when it has ended, with a value or with an error, the
/// environment has as many scopes as it had before.
pub proof fn lemma_scope_balance(expr: AnnView, env: EnvView, events: Seq<Event>)
    requires
        env.len() >= 1,
    ensures
        base_depth(run(MachineView::start(expr, env), events)) == env.len(),
        run(MachineView::start(expr, env), events).status() == Status::Finished ==> run(
            MachineView::start(expr, env),
            events,
        ).env.len() == env.len(),
{
    lemma_pending_push();
    lemma_run_keeps_base(MachineView::start(expr, env), events);
}

/// Scope balance for source text: however the evaluation of a text goes
/// on, when it has ended, the environment has as many scopes as it had
/// before. That holds too of a text that does not parse.
pub proof fn lemma_text_scope_balance(input: Seq<char>, env: EnvView, events: Seq<Event>)
    requires
        env.len() >= 1,
    ensures
        run(eval_text_spec(input, env), events).status() == Status::Finished ==> run(
            eval_text_spec(input, env),
            events,
        ).env.len() == env.len(),
{
    lemma_pending_push();
    let m = eval_text_spec(input, env);
    match crate::api::parse_text_spec(input) {
        Ok(exprs) => {
            let frame = FrameView::Forms { forms: exprs, next: 0 };
            assert(m.stack =~= Seq::<FrameView>::empty().push(frame));
        },
        Err(_) => {},
    }
    assert(base_depth(m) == env.len());
    lemma_run_keeps_base(m, events);
}

/// Self-evaluation: the value of a literal is the literal itself, with its
/// annotations and its range, and evaluating it leaves the environment as
/// it is.
pub proof fn lemma_literal_self_evaluates(expr: AnnView, env: EnvView)
    requires
        literal(expr.expr),
    ensures
        step_spec(MachineView::start(expr, env)).result() == Some(
            Ok::<AnnView, (ErrorView, Range)>(expr),
        ),
        step_spec(MachineView::start(expr, env)).env == env,
{
}

/// Reserved-symbol binding: a `let` whose first name is a reserved symbol
/// fails with `InvalidArguments`, at the name, and leaves the environment
/// as it is.
pub proof fn lemma_let_reserved_fails(form: AnnView, env: EnvView)
    requires
        form.expr is List,
        form.expr->List_0.len() >= 3,
        form.expr->List_0[0].expr == ExprView::Symbol("let"@),
        form.expr->List_0[1].expr is Symbol,
        reserved_symbol(form.expr->List_0[1].expr->Symbol_0),
    ensures
        ({
            let m = steps(MachineView::start(form, env), 3);
            &&& m.env == env
            &&& m.result() matches Some(Err(e))
            &&& e.0 is InvalidArguments
            &&& e.1 == form.expr->List_0[1].range_or_origin()
        }),
{
    reveal_with_fuel(steps, 4);
    lemma_let_is_let();
    let list = form.expr->List_0;
    let m0 = MachineView::start(form, env);
    let m1 = step_spec(m0);
    assert(m1 == m0.push(FrameView::Head { list, range: form.range_or_origin() }).eval(list[0]));
    let m2 = step_spec(m1);
    assert(m2 == m1.value(list[0]));
    assert(m2.stack.last() == FrameView::Head { list, range: form.range_or_origin() });
    assert(m2.drop().stack =~= m0.stack);
    let m3 = step_spec(m2);
    assert(m3 == let_spec(m2.drop(), list, 1));
}

/// No other special form has the name `let`, and `let` is reserved.
proof fn lemma_let_is_let()
    ensures
        "let"@ != "do"@,
        "let"@ != "ann"@,
        "let"@ != "eval"@,
        "let"@ != "quot"@,
        "let"@ != "for"@,
        "let"@ != "if"@,
        "let"@ != "for_each"@,
        "let"@ != "use"@,
        reserved_symbol("let"@),
{
    reveal_strlit("let");
    reveal_strlit("do");
    reveal_strlit("ann");
    reveal_strlit("eval");
    reveal_strlit("quot");
    reveal_strlit("for");
    reveal_strlit("if");
    reveal_strlit("for_each");
    reveal_strlit("use");
    assert("let"@[0] == 'l');
    assert("ann"@[0] == 'a');
    assert("for"@[0] == 'f');
    assert("use"@[0] == 'u');
}

/// No special form that is tried before `eval` and `quot` has one of
/// these names, the two differ, and both are reserved.
proof fn lemma_eval_is_eval()
    ensures
        "eval"@ != "do"@,
        "eval"@ != "ann"@,
        "quot"@ != "do"@,
        "quot"@ != "ann"@,
        "quot"@ != "eval"@,
        reserved_symbol("eval"@),
        reserved_symbol("quot"@),
{
    reveal_strlit("do");
    reveal_strlit("ann");
    reveal_strlit("eval");
    reveal_strlit("quot");
    assert("eval"@[0] == 'e');
    assert("quot"@[0] == 'q');
}

/// Quoting and evaluating: the form `(eval (quot E))` comes, in seven
/// steps, to the evaluation of `E` itself, without the annotations and the
/// range of `E`, in the same environment. From there on it goes as the
/// evaluation of that expression goes.
pub proof fn lemma_eval_quot(form: AnnView, env: EnvView)
    requires
        form.expr is List,
        form.expr->List_0.len() == 2,
        form.expr->List_0[0].expr == ExprView::Symbol("eval"@),
        form.expr->List_0[1].expr is List,
        form.expr->List_0[1].expr->List_0.len() == 2,
        form.expr->List_0[1].expr->List_0[0].expr == ExprView::Symbol("quot"@),
    ensures
        steps(MachineView::start(form, env), 7) == MachineView::start(
            AnnView::plain(form.expr->List_0[1].expr->List_0[1].expr),
            env,
        ),
{
    reveal_with_fuel(steps, 8);
    lemma_eval_is_eval();
    let outer = form.expr->List_0;
    let quoted = outer[1];
    let inner = quoted.expr->List_0;
    let target = inner[1];
    let m0 = MachineView::start(form, env);
    let head = FrameView::Head { list: outer, range: form.range_or_origin() };
    let m1 = step_spec(m0);
    assert(m1 == m0.push(head).eval(outer[0]));
    let m2 = step_spec(m1);
    assert(m2 == m1.value(outer[0]));
    assert(m2.stack.last() == head);
    assert(m2.drop().stack =~= m0.stack);
    let m3 = step_spec(m2);
    assert(m3 == m0.push(FrameView::Eval).eval(quoted));
    let inner_head = FrameView::Head { list: inner, range: quoted.range_or_origin() };
    let m4 = step_spec(m3);
    assert(m4 == m3.push(inner_head).eval(inner[0]));
    let m5 = step_spec(m4);
    assert(m5 == m4.value(inner[0]));
    assert(m5.stack.last() == inner_head);
    assert(m5.drop().stack =~= m3.stack);
    let m6 = step_spec(m5);
    assert(m6 == m3.plain(target.expr));
    assert(m6.stack.last() == FrameView::Eval);
    assert(m6.drop().stack =~= m0.stack);
    let m7 = step_spec(m6);
    assert(m7 == m0.eval(AnnView::plain(target.expr)));
}

} // verus!
