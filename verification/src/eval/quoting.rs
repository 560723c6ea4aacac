use vstd::prelude::*;
use crate::api::parse_text_spec;
use crate::error::ErrorView;
use crate::eval::env::EnvView;
use crate::eval::laws::{lemma_eval_quot, react, run, Event};
use crate::eval::load::load_spec;
use crate::eval::machine::{ControlView, FrameView, MachineView};
use crate::eval::step::{
    apply_spec, call_spec, dispatch_spec, eval_spec, method_of, return_spec, special_spec,
    step_spec, steps, unwind_spec,
};
use crate::expr::{AnnView, ExprView};
use crate::lexer::token::TokenView;
use crate::parser::laws::{holds_no_symbol, lemma_parsed_symbols_are_types};
use crate::parser::parse_tokens_spec;
use crate::range::Range;

verus! {

/// Whether two frames are the same but for the range they carry.
pub open spec fn same_frame(a: FrameView, b: FrameView) -> bool {
    match a {
        FrameView::Head { list, range } => b matches FrameView::Head { list: other, .. }
            && other == list,
        FrameView::Args { callee, list, done, range } => b == (FrameView::Args {
            callee,
            list,
            done,
            range: b->Args_range,
        }) && b is Args,
        FrameView::Use { forms, next, range } => b == (FrameView::Use {
            forms,
            next,
            range: b->Use_range,
        }) && b is Use,
        _ => a == b,
    }
}

/// Whether two machines are about to do the same but for the range of an
/// error or of a `use`.
pub open spec fn same_control(a: ControlView, b: ControlView) -> bool {
    match a {
        ControlView::Raise(e, _) => b matches ControlView::Raise(other, _) && other == e,
        ControlView::Load { path, .. } => b matches ControlView::Load { path: other, .. } && other
            == path,
        _ => a == b,
    }
}

/// Whether two machines go the same way: they have the same environment
/// and the same frames, but that their outermost frames may carry
/// different ranges, and are about to do the same, but that, once the
/// stack is empty, an error or a `use` may carry a different range.
pub open spec fn alike(a: MachineView, b: MachineView) -> bool {
    &&& a.env == b.env
    &&& a.stack.len() == b.stack.len()
    &&& same_control(a.control, b.control)
    &&& a.stack.len() > 0 ==> a.control == b.control && same_frame(a.stack[0], b.stack[0])
    &&& forall|i: int| 0 < i < a.stack.len() ==> a.stack[i] == b.stack[i]
}

/// Whether two machines go the same way, or have both ended with values
/// that are the same expression, in the same environment.
pub open spec fn akin(a: MachineView, b: MachineView) -> bool {
    ||| alike(a, b)
    ||| {
        &&& a.env == b.env
        &&& a.stack.len() == 0
        &&& b.stack.len() == 0
        &&& a.control matches ControlView::Value(v)
        &&& b.control matches ControlView::Value(w)
        &&& v.expr == w.expr
    }
}

/// The machine `m` with `bottom` as its outermost frame.
pub open spec fn graft(m: MachineView, bottom: FrameView) -> MachineView {
    MachineView { stack: m.stack.update(0, bottom), ..m }
}

/// Machines with the same environment, frames and control are the same.
proof fn lemma_same(x: MachineView, y: MachineView)
    requires
        x.env == y.env,
        x.control == y.control,
        x.stack =~= y.stack,
    ensures
        x == y,
{
}

proof fn lemma_apply_graft(
    m: MachineView,
    bottom: FrameView,
    callee: AnnView,
    args: Seq<AnnView>,
    range: Range,
)
    requires
        m.stack.len() > 0,
    ensures
        apply_spec(graft(m, bottom), callee, args, range) == graft(
            apply_spec(m, callee, args, range),
            bottom,
        ),
{
    lemma_same(
        apply_spec(graft(m, bottom), callee, args, range),
        graft(apply_spec(m, callee, args, range), bottom),
    );
}

proof fn lemma_special_graft(
    m: MachineView,
    bottom: FrameView,
    head: AnnView,
    name: Seq<char>,
    list: Seq<AnnView>,
    range: Range,
)
    requires
        m.stack.len() > 0,
    ensures
        special_spec(graft(m, bottom), head, name, list, range) == graft(
            special_spec(m, head, name, list, range),
            bottom,
        ),
{
    lemma_apply_graft(m, bottom, head, Seq::empty(), range);
    lemma_same(
        special_spec(graft(m, bottom), head, name, list, range),
        graft(special_spec(m, head, name, list, range), bottom),
    );
}

proof fn lemma_return_graft(m: MachineView, bottom: FrameView, frame: FrameView, v: AnnView)
    requires
        m.stack.len() > 0,
    ensures
        return_spec(graft(m, bottom), frame, v) == graft(return_spec(m, frame, v), bottom),
{
    match frame {
        FrameView::Head { list, range } => {
            lemma_special_graft(m, bottom, v, v.expr->Symbol_0, list, range);
            lemma_apply_graft(m, bottom, v, Seq::empty(), range);
        },
        FrameView::Args { callee, list, done, range } => {
            lemma_apply_graft(m, bottom, callee, done.push(v), range);
        },
        _ => {},
    }
    lemma_same(return_spec(graft(m, bottom), frame, v), graft(return_spec(m, frame, v), bottom));
}

/// Two machines that are alike but for their control are alike after the
/// same value is handed to frames that are the same but for their ranges,
/// where nothing is below these frames.
proof fn lemma_return_bottom(m: MachineView, a: FrameView, b: FrameView, v: AnnView)
    requires
        m.stack.len() == 0,
        same_frame(a, b),
    ensures
        alike(return_spec(m, a, v), return_spec(m, b, v)),
{
    let x = return_spec(m, a, v);
    let y = return_spec(m, b, v);
    assert(m.stack =~= Seq::empty());
    match a {
        FrameView::Head { list, range } => {
            lemma_dispatch_bottom(m, v, list, range, b->Head_range);
        },
        FrameView::Args { callee, list, done, range } => {
            lemma_apply_bottom(m, callee, done.push(v), range, b->Args_range);
        },
        _ => {},
    }
}

proof fn lemma_apply_bottom(
    m: MachineView,
    callee: AnnView,
    args: Seq<AnnView>,
    r1: Range,
    r2: Range,
)
    requires
        m.stack.len() == 0,
    ensures
        alike(apply_spec(m, callee, args, r1), apply_spec(m, callee, args, r2)),
{
}

proof fn lemma_call_bottom(
    m: MachineView,
    callee: AnnView,
    list: Seq<AnnView>,
    r1: Range,
    r2: Range,
)
    requires
        m.stack.len() == 0,
    ensures
        alike(call_spec(m, callee, list, r1), call_spec(m, callee, list, r2)),
{
    lemma_apply_bottom(m, callee, Seq::empty(), r1, r2);
}

proof fn lemma_dispatch_bottom(
    m: MachineView,
    head: AnnView,
    list: Seq<AnnView>,
    r1: Range,
    r2: Range,
)
    requires
        m.stack.len() == 0,
    ensures
        alike(dispatch_spec(m, head, list, r1), dispatch_spec(m, head, list, r2)),
{
    lemma_call_bottom(m, head, list, r1, r2);
    match head.expr {
        ExprView::Symbol(name) => {
            let x = special_spec(m, head, name, list, r1);
            let y = special_spec(m, head, name, list, r2);
            assert(alike(x, y));
        },
        _ => {},
    }
}

/// Machines that go the same way go the same way after a step.
proof fn lemma_step_alike(a: MachineView, b: MachineView)
    requires
        alike(a, b),
    ensures
        alike(step_spec(a), step_spec(b)),
{
    if a.stack.len() == 0 {
        assert(b.stack =~= a.stack);
        match a.control {
            ControlView::Eval(e) => {
                assert(a == b);
            },
            _ => {},
        }
    } else {
        assert(a.control == b.control);
        let bottom = b.stack[0];
        match a.control {
            ControlView::Eval(e) => {
                assert(b.stack =~= graft(a, bottom).stack);
                assert(b == graft(a, bottom));
                lemma_same(eval_spec(graft(a, bottom), e), graft(eval_spec(a, e), bottom));
                lemma_graft_alike(eval_spec(a, e), a.stack[0], bottom);
            },
            ControlView::Value(v) => {
                if a.stack.len() == 1 {
                    assert(a.drop().stack =~= Seq::empty());
                    assert(b.drop().stack =~= Seq::empty());
                    assert(a.drop() == b.drop());
                    assert(a.stack.last() == a.stack[0]);
                    assert(b.stack.last() == b.stack[0]);
                    lemma_return_bottom(a.drop(), a.stack[0], b.stack[0], v);
                } else {
                    assert(a.stack.last() == b.stack.last());
                    assert(b.drop().stack =~= graft(a.drop(), bottom).stack);
                    assert(b.drop() == graft(a.drop(), bottom));
                    lemma_return_graft(a.drop(), bottom, a.stack.last(), v);
                    lemma_graft_alike(return_spec(a.drop(), a.stack.last(), v), a.stack[0], bottom);
                }
            },
            ControlView::Raise(e, r) => {
                if a.stack.len() == 1 {
                    assert(a.drop().stack =~= Seq::empty());
                    assert(b.drop().stack =~= Seq::empty());
                    assert(a.stack.last() == a.stack[0]);
                    assert(b.stack.last() == b.stack[0]);
                } else {
                    assert(a.stack.last() == b.stack.last());
                    assert(b.drop().stack =~= graft(a.drop(), bottom).stack);
                    assert(b.drop() == graft(a.drop(), bottom));
                    let x = unwind_spec(a.drop(), a.stack.last(), e, r);
                    lemma_same(
                        unwind_spec(graft(a.drop(), bottom), a.stack.last(), e, r),
                        graft(x, bottom),
                    );
                    lemma_graft_alike(x, a.stack[0], bottom);
                }
            },
            _ => {},
        }
    }
}

/// A machine whose outermost frame is `was` goes the same way as the
/// machine with that frame replaced by a frame that is the same but for its
/// range.
proof fn lemma_graft_alike(m: MachineView, was: FrameView, bottom: FrameView)
    requires
        m.stack.len() > 0,
        m.stack[0] == was,
        same_frame(was, bottom),
    ensures
        alike(m, graft(m, bottom)),
{
}

/// Machines that go the same way go the same way after every event.
pub proof fn lemma_react_alike(a: MachineView, b: MachineView, event: Event)
    requires
        alike(a, b),
    ensures
        alike(react(a, event), react(b, event)),
{
    match event {
        Event::Step => lemma_step_alike(a, b),
        Event::Resume(result) => {},
        Event::Load(sources) => {
            if a.stack.len() == 0 {
                assert(b.stack =~= a.stack);
                match a.control {
                    ControlView::Load { path, range } => {
                        let x = load_spec(a, sources);
                        let y = load_spec(b, sources);
                        assert(alike(x, y));
                    },
                    _ => {},
                }
            } else {
                let bottom = b.stack[0];
                assert(b.stack =~= graft(a, bottom).stack);
                assert(b == graft(a, bottom));
                let x = load_spec(a, sources);
                lemma_same(load_spec(graft(a, bottom), sources), graft(x, bottom));
                lemma_graft_alike(x, a.stack[0], bottom);
            }
        },
    }
}

/// Machines that are akin are akin after every event.
pub proof fn lemma_react_akin(a: MachineView, b: MachineView, event: Event)
    requires
        akin(a, b),
    ensures
        akin(react(a, event), react(b, event)),
{
    if alike(a, b) {
        lemma_react_alike(a, b, event);
    }
}

/// Machines that are akin are akin after the same events.
pub proof fn lemma_run_akin(a: MachineView, b: MachineView, events: Seq<Event>)
    requires
        akin(a, b),
    ensures
        akin(run(a, events), run(b, events)),
    decreases events.len(),
{
    if events.len() > 0 {
        lemma_run_akin(a, b, events.drop_last());
        lemma_react_akin(run(a, events.drop_last()), run(b, events.drop_last()), events.last());
    }
}

/// The value, whatever its annotations and its range, or the error,
/// whatever its range, that an evaluation has ended with.
pub open spec fn outcome(m: MachineView) -> Option<Result<ExprView, ErrorView>> {
    match m.result() {
        Some(Ok(v)) => Some(Ok(v.expr)),
        Some(Err(e)) => Some(Err(e.0)),
        None => None,
    }
}

/// Evaluating an expression goes the same way without its annotations and
/// its range, unless it is a symbol that is annotated with a method.
proof fn lemma_stripped_akin(expr: AnnView, env: EnvView)
    requires
        expr.expr is Symbol ==> method_of(expr) is None,
    ensures
        akin(
            step_spec(MachineView::start(AnnView::plain(expr.expr), env)),
            step_spec(MachineView::start(expr, env)),
        ),
{
    let a = MachineView::start(AnnView::plain(expr.expr), env);
    let b = MachineView::start(expr, env);
    let x = step_spec(a);
    let y = step_spec(b);
    assert(a.stack =~= Seq::empty());
    match expr.expr {
        ExprView::Symbol(name) => {
            assert(method_of(AnnView::plain(expr.expr)) is None);
        },
        ExprView::List(list) => if list.len() > 0 {
            assert(x.stack.len() == 1);
            assert(alike(x, y));
        },
        ExprView::If(p, t, f) => {
            assert(x.stack.len() == 1);
            assert(alike(x, y));
        },
        _ => {},
    }
}

/// Quoting and evaluating: the form `(eval (quot E))` evaluates to the same
/// value as `E`. After the eight steps that take it to the first step of
/// `E`, it goes as the evaluation of `E` goes after its first step,
/// whatever the host hands over: the two stand alike, end alike, and end
/// with the same value or the same error, in the same environment. The
/// value may differ in its annotations and its range, and the error in its
/// range, which `quot` drops from `E`. A symbol that is annotated with a
/// method is left out: without the annotation it is looked up under its
/// own name.
pub proof fn lemma_eval_quot_same_value(form: AnnView, env: EnvView, events: Seq<Event>)
    requires
        form.expr is List,
        form.expr->List_0.len() == 2,
        form.expr->List_0[0].expr == ExprView::Symbol("eval"@),
        form.expr->List_0[1].expr is List,
        form.expr->List_0[1].expr->List_0.len() == 2,
        form.expr->List_0[1].expr->List_0[0].expr == ExprView::Symbol("quot"@),
        form.expr->List_0[1].expr->List_0[1].expr is Symbol ==> method_of(
            form.expr->List_0[1].expr->List_0[1],
        ) is None,
    ensures
        ({
            let target = form.expr->List_0[1].expr->List_0[1];
            let quoted = run(steps(MachineView::start(form, env), 8), events);
            let direct = run(step_spec(MachineView::start(target, env)), events);
            &&& quoted.status() == direct.status()
            &&& outcome(quoted) == outcome(direct)
            &&& quoted.env == direct.env
        }),
{
    let target = form.expr->List_0[1].expr->List_0[1];
    lemma_eval_quot(form, env);
    reveal_with_fuel(steps, 2);
    assert(steps(MachineView::start(form, env), 8) == step_spec(
        steps(MachineView::start(form, env), 7),
    ));
    lemma_stripped_akin(target, env);
    lemma_run_akin(
        steps(MachineView::start(form, env), 8),
        step_spec(MachineView::start(target, env)),
        events,
    );
}

/// Whether `form` is `(eval (quot E))` for the expression `target` as `E`.
pub open spec fn eval_quot_of(form: AnnView, target: AnnView) -> bool {
    &&& form.expr is List
    &&& form.expr->List_0.len() == 2
    &&& form.expr->List_0[0].expr == ExprView::Symbol("eval"@)
    &&& form.expr->List_0[1].expr is List
    &&& form.expr->List_0[1].expr->List_0.len() == 2
    &&& form.expr->List_0[1].expr->List_0[0].expr == ExprView::Symbol("quot"@)
    &&& form.expr->List_0[1].expr->List_0[1] == target
}

/// Whether two evaluations stand alike: both go on, wait or have ended,
/// with the same value or the same error, in the same environment.
pub open spec fn same_outcome(a: MachineView, b: MachineView) -> bool {
    &&& a.status() == b.status()
    &&& outcome(a) == outcome(b)
    &&& a.env == b.env
}

/// Quoting and evaluating, for every expression `E` that the parser
/// returns: the form `(eval (quot E))` evaluates to the same value as `E`,
/// or fails with the same error, and leaves the same environment, whatever
/// the host hands over. No parsed expression is left out: the parser never
/// gives an expression a `method` annotation that holds a symbol.
pub proof fn lemma_parsed_eval_quot_same_value(
    tokens: Seq<(TokenView, Range)>,
    i: int,
    form: AnnView,
    env: EnvView,
    events: Seq<Event>,
)
    requires
        parse_tokens_spec(tokens) is Ok,
        0 <= i < parse_tokens_spec(tokens)->Ok_0.len(),
        eval_quot_of(form, parse_tokens_spec(tokens)->Ok_0[i]),
    ensures
        same_outcome(
            run(steps(MachineView::start(form, env), 8), events),
            run(step_spec(MachineView::start(parse_tokens_spec(tokens)->Ok_0[i], env)), events),
        ),
{
    let target = parse_tokens_spec(tokens)->Ok_0[i];
    assert("method"@ != "type"@) by {
        reveal_strlit("method");
        reveal_strlit("type");
        assert("method"@.len() == 6);
        assert("type"@.len() == 4);
    }
    lemma_parsed_symbols_are_types(tokens, "method"@);
    assert(holds_no_symbol(target, "method"@));
    assert(method_of(target) is None);
    lemma_eval_quot_same_value(form, env, events);
}

/// Quoting and evaluating, for every expression `E` of a source text: the
/// form `(eval (quot E))` evaluates to the same value as `E`, or fails with
/// the same error, and leaves the same environment.
pub proof fn lemma_text_eval_quot_same_value(
    input: Seq<char>,
    i: int,
    form: AnnView,
    env: EnvView,
    events: Seq<Event>,
)
    requires
        parse_text_spec(input) is Ok,
        0 <= i < parse_text_spec(input)->Ok_0.len(),
        eval_quot_of(form, parse_text_spec(input)->Ok_0[i]),
    ensures
        same_outcome(
            run(steps(MachineView::start(form, env), 8), events),
            run(step_spec(MachineView::start(parse_text_spec(input)->Ok_0[i], env)), events),
        ),
{
    match crate::lexer::lex_spec(input) {
        Ok(tokens) => {
            lemma_parsed_eval_quot_same_value(tokens, i, form, env, events);
        },
        Err(_) => {},
    }
}

} // verus!
