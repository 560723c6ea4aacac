use vstd::prelude::*;
use crate::ann::Ann;
use crate::error::{Error, ErrorView};
use crate::eval::env::{Env, EnvView};
use crate::expr::{anns_view, exprs_view, lemma_anns_view, AnnView, Expr, ExprView};
use crate::range::{Range, Ranged};

verus! {

/// What the evaluator will do with a value once it has it. The frames form
/// a stack; a value goes to the topmost one.
#[derive(Debug)]
pub enum Frame {
    /// The value is the head of `list`, which is read from `range`.
    Head { list: Vec<Ann<Expr>>, range: Range },
    /// The value is the next argument of a call. `callee` is the value of
    /// the head of `list`, and `done` holds the values of the arguments
    /// before this one.
    Args { callee: Ann<Expr>, list: Vec<Ann<Expr>>, done: Vec<Ann<Expr>>, range: Range },
    /// A scope was pushed, and is popped when a value or an error passes.
    Scope,
    /// The value is that of a term of a `do`; `list[next]` is the next
    /// term.
    Do { list: Vec<Ann<Expr>>, next: usize },
    /// The value is bound to `name`; the next name of the `let` is
    /// `list[next]`.
    Let { name: String, list: Vec<Ann<Expr>>, next: usize },
    /// The value is the predicate of a conditional.
    If { then: Ann<Expr>, otherwise: Option<Ann<Expr>> },
    /// The value is the predicate of a `for`; `last` is the value of the
    /// body in the last round.
    ForTest { test: Ann<Expr>, body: Ann<Expr>, last: Ann<Expr> },
    /// The value is that of the body of a `for`.
    ForBody { test: Ann<Expr>, body: Ann<Expr> },
    /// The value is the sequence of a `for_each` with the variable `var`.
    EachSeq { var: Ann<Expr>, body: Ann<Expr> },
    /// The value is that of the body of a `for_each` for one item;
    /// `items[next]` is the next item.
    Each { items: Vec<Expr>, next: usize, name: String, body: Ann<Expr> },
    /// The value is an expression that is evaluated in turn.
    Eval,
    /// The value is that of a form of a module that is being used;
    /// `forms[next]` is the next form. An error that passes becomes
    /// `FailedUse` at `range`.
    Use { forms: Vec<Ann<Expr>>, next: usize, range: Range },
    /// The value is that of a top-level form of a source text;
    /// `forms[next]` is the next form. The value of the last form is the
    /// value of the text.
    Forms { forms: Vec<Ann<Expr>>, next: usize },
}

/// The mathematical value of a [`Frame`].
pub ghost enum FrameView {
    Head { list: Seq<AnnView>, range: Range },
    Args { callee: AnnView, list: Seq<AnnView>, done: Seq<AnnView>, range: Range },
    Scope,
    Do { list: Seq<AnnView>, next: int },
    Let { name: Seq<char>, list: Seq<AnnView>, next: int },
    If { then: AnnView, otherwise: Option<AnnView> },
    ForTest { test: AnnView, body: AnnView, last: AnnView },
    ForBody { test: AnnView, body: AnnView },
    EachSeq { var: AnnView, body: AnnView },
    Each { items: Seq<ExprView>, next: int, name: Seq<char>, body: AnnView },
    Eval,
    Use { forms: Seq<AnnView>, next: int, range: Range },
    Forms { forms: Seq<AnnView>, next: int },
}

impl View for Frame {
    type V = FrameView;

    open spec fn view(&self) -> FrameView {
        match self {
            Frame::Head { list, range } => FrameView::Head {
                list: anns_view(list@),
                range: *range,
            },
            Frame::Args { callee, list, done, range } => FrameView::Args {
                callee: callee@,
                list: anns_view(list@),
                done: anns_view(done@),
                range: *range,
            },
            Frame::Scope => FrameView::Scope,
            Frame::Do { list, next } => FrameView::Do {
                list: anns_view(list@),
                next: *next as int,
            },
            Frame::Let { name, list, next } => FrameView::Let {
                name: name@,
                list: anns_view(list@),
                next: *next as int,
            },
            Frame::If { then, otherwise } => FrameView::If {
                then: then@,
                otherwise: match otherwise {
                    Some(e) => Some(e@),
                    None => None,
                },
            },
            Frame::ForTest { test, body, last } => FrameView::ForTest {
                test: test@,
                body: body@,
                last: last@,
            },
            Frame::ForBody { test, body } => FrameView::ForBody { test: test@, body: body@ },
            Frame::EachSeq { var, body } => FrameView::EachSeq { var: var@, body: body@ },
            Frame::Each { items, next, name, body } => FrameView::Each {
                items: exprs_view(items@),
                next: *next as int,
                name: name@,
                body: body@,
            },
            Frame::Eval => FrameView::Eval,
            Frame::Use { forms, next, range } => FrameView::Use {
                forms: anns_view(forms@),
                next: *next as int,
                range: *range,
            },
            Frame::Forms { forms, next } => FrameView::Forms {
                forms: anns_view(forms@),
                next: *next as int,
            },
        }
    }
}

/// What the evaluator is about to do.
#[derive(Debug)]
pub enum Control {
    /// Evaluate the expression.
    Eval(Ann<Expr>),
    /// Hand the value to the topmost frame; without a frame, the value is
    /// the result.
    Value(Ann<Expr>),
    /// Drop the topmost frame because of the error; without a frame, the
    /// error is the result.
    Raise(Ranged<Error>),
    /// Wait for the host to call the foreign function `name` with the
    /// arguments `args`.
    Call { name: String, args: Vec<Ann<Expr>> },
    /// Wait for the host to read the source files of the module at `path`.
    /// `range` is the range of the `use` expression.
    Load { path: String, range: Range },
}

/// The mathematical value of a [`Control`].
pub ghost enum ControlView {
    Eval(AnnView),
    Value(AnnView),
    Raise(ErrorView, Range),
    Call { name: Seq<char>, args: Seq<AnnView> },
    Load { path: Seq<char>, range: Range },
}

impl View for Control {
    type V = ControlView;

    open spec fn view(&self) -> ControlView {
        match self {
            Control::Eval(e) => ControlView::Eval(e@),
            Control::Value(v) => ControlView::Value(v@),
            Control::Raise(e) => ControlView::Raise(e.0@, e.1),
            Control::Call { name, args } => ControlView::Call {
                name: name@,
                args: anns_view(args@),
            },
            Control::Load { path, range } => ControlView::Load { path: path@, range: *range },
        }
    }
}

/// The state of an evaluation: the environment, the stack of frames,
/// innermost last, and what to do next.
#[derive(Debug)]
pub struct Machine {
    pub env: Env,
    pub stack: Vec<Frame>,
    pub control: Control,
}

/// The mathematical value of a [`Machine`].
pub ghost struct MachineView {
    pub env: EnvView,
    pub stack: Seq<FrameView>,
    pub control: ControlView,
}

/// The values of a sequence of frames, one by one.
pub open spec fn frames_view(frames: Seq<Frame>) -> Seq<FrameView> {
    frames.map_values(|f: Frame| f@)
}

impl View for Machine {
    type V = MachineView;

    open spec fn view(&self) -> MachineView {
        MachineView { env: self.env@, stack: frames_view(self.stack@), control: self.control@ }
    }
}

/// Where an evaluation stands, as far as the host is concerned.
#[derive(Debug, Clone, Copy, PartialEq, Eq, Structural)]
pub enum Status {
    /// The next step can be taken.
    Running,
    /// The machine waits for the result of a foreign function.
    AwaitingCall,
    /// The machine waits for the source files of a module.
    AwaitingLoad,
    /// The evaluation has ended with a value or an error.
    Finished,
}

impl MachineView {
    /// The machine that is about to evaluate `expr` in `env`.
    pub open spec fn start(expr: AnnView, env: EnvView) -> MachineView {
        MachineView { env, stack: Seq::empty(), control: ControlView::Eval(expr) }
    }

    /// The machine that is about to evaluate the top-level forms `forms`,
    /// one after the other, in `env`. The value of the last form is the
    /// result; without a form, the unit value is.
    pub open spec fn start_forms(forms: Seq<AnnView>, env: EnvView) -> MachineView {
        MachineView {
            env,
            stack: seq![FrameView::Forms { forms, next: 0 }],
            control: ControlView::Value(AnnView::plain(ExprView::One)),
        }
    }

    /// The machine whose evaluation in `env` has ended, before it began,
    /// with the error `e` at `r`.
    pub open spec fn failed(e: ErrorView, r: Range, env: EnvView) -> MachineView {
        MachineView { env, stack: Seq::empty(), control: ControlView::Raise(e, r) }
    }

    /// Where the evaluation stands.
    pub open spec fn status(self) -> Status {
        match self.control {
            ControlView::Eval(_) => Status::Running,
            ControlView::Value(_) => if self.stack.len() == 0 {
                Status::Finished
            } else {
                Status::Running
            },
            ControlView::Raise(_, _) => if self.stack.len() == 0 {
                Status::Finished
            } else {
                Status::Running
            },
            ControlView::Call { .. } => Status::AwaitingCall,
            ControlView::Load { .. } => Status::AwaitingLoad,
        }
    }

    /// The result of an evaluation that has ended.
    pub open spec fn result(self) -> Option<Result<AnnView, (ErrorView, Range)>> {
        if self.stack.len() == 0 {
            match self.control {
                ControlView::Value(v) => Some(Ok(v)),
                ControlView::Raise(e, r) => Some(Err((e, r))),
                _ => None,
            }
        } else {
            None
        }
    }

    /// The same machine, about to evaluate `e`.
    pub open spec fn eval(self, e: AnnView) -> MachineView {
        MachineView { control: ControlView::Eval(e), ..self }
    }

    /// The same machine, about to hand on the value `v`.
    pub open spec fn value(self, v: AnnView) -> MachineView {
        MachineView { control: ControlView::Value(v), ..self }
    }

    /// The same machine, about to hand on the expression `e` as a value
    /// without annotations.
    pub open spec fn plain(self, e: ExprView) -> MachineView {
        self.value(AnnView::plain(e))
    }

    /// The same machine, about to raise the error `e` at `r`.
    pub open spec fn raise(self, e: ErrorView, r: Range) -> MachineView {
        MachineView { control: ControlView::Raise(e, r), ..self }
    }

    /// The same machine, about to raise `InvalidArguments` with the message
    /// `message` at `r`.
    pub open spec fn invalid(self, message: Seq<char>, r: Range) -> MachineView {
        self.raise(ErrorView::InvalidArguments(message), r)
    }

    /// The same machine with the frame `f` on top of the stack.
    pub open spec fn push(self, f: FrameView) -> MachineView {
        MachineView { stack: self.stack.push(f), ..self }
    }

    /// The same machine without the topmost frame.
    pub open spec fn drop(self) -> MachineView {
        MachineView { stack: self.stack.drop_last(), ..self }
    }

    /// The same machine with the environment `env`.
    pub open spec fn with_env(self, env: EnvView) -> MachineView {
        MachineView { env, ..self }
    }
}

/// A copy of the term `list[i]`.
pub(crate) fn term(list: &Vec<Ann<Expr>>, i: usize) -> (r: Ann<Expr>)
    requires
        i < list.len(),
    ensures
        r@ == anns_view(list@)[i as int],
{
    proof {
        lemma_anns_view(list@);
    }
    list[i].clone()
}

/// The number of terms of `list`.
pub(crate) fn count(list: &Vec<Ann<Expr>>) -> (n: usize)
    ensures
        n == anns_view(list@).len(),
        n == list.len(),
{
    proof {
        lemma_anns_view(list@);
    }
    list.len()
}

impl Machine {
    /// The machine that is about to evaluate `expr` in `env`.
    pub fn new(expr: Ann<Expr>, env: Env) -> (m: Machine)
        ensures
            m@ == MachineView::start(expr@, env@),
    {
        let m = Machine { env, stack: Vec::new(), control: Control::Eval(expr) };
        assert(m@.stack =~= Seq::empty());
        m
    }

    /// The machine that is about to evaluate the top-level forms `forms`,
    /// one after the other, in `env`.
    pub fn with_forms(forms: Vec<Ann<Expr>>, env: Env) -> (m: Machine)
        ensures
            m@ == MachineView::start_forms(anns_view(forms@), env@),
    {
        let ghost frame = FrameView::Forms { forms: anns_view(forms@), next: 0 };
        let mut stack: Vec<Frame> = Vec::new();
        stack.push(Frame::Forms { forms, next: 0 });
        let m = Machine { env, stack, control: Control::Value(Ann::new(Expr::One)) };
        assert(m@.stack =~= seq![frame]);
        m
    }

    /// The machine whose evaluation in `env` has ended, before it began,
    /// with `error`.
    pub fn failed(error: Ranged<Error>, env: Env) -> (m: Machine)
        ensures
            m@ == MachineView::failed(error@.0, error@.1, env@),
    {
        let m = Machine { env, stack: Vec::new(), control: Control::Raise(error) };
        assert(m@.stack =~= Seq::empty());
        m
    }

    /// Where the evaluation stands.
    pub fn status(&self) -> (s: Status)
        ensures
            s == self@.status(),
    {
        match &self.control {
            Control::Eval(_) => Status::Running,
            Control::Value(_) => if self.stack.len() == 0 {
                Status::Finished
            } else {
                Status::Running
            },
            Control::Raise(_) => if self.stack.len() == 0 {
                Status::Finished
            } else {
                Status::Running
            },
            Control::Call { .. } => Status::AwaitingCall,
            Control::Load { .. } => Status::AwaitingLoad,
        }
    }

    /// The result of an evaluation that has ended.
    pub fn result(&self) -> (r: Option<Result<Ann<Expr>, Ranged<Error>>>)
        ensures
            match r {
                Some(Ok(v)) => self@.result() == Some(
                    Ok::<AnnView, (ErrorView, Range)>(v@),
                ),
                Some(Err(e)) => self@.result() == Some(
                    Err::<AnnView, (ErrorView, Range)>(e@),
                ),
                None => self@.result() is None,
            },
    {
        if self.stack.len() != 0 {
            return None;
        }
        match &self.control {
            Control::Value(v) => Some(Ok(v.clone())),
            Control::Raise(e) => Some(Err(Ranged(e.0.clone(), e.1))),
            _ => None,
        }
    }

    /// Puts `f` on top of the stack.
    pub(crate) fn push_frame(&mut self, f: Frame)
        ensures
            final(self)@ == old(self)@.push(f@),
    {
        self.stack.push(f);
        assert(self@.stack =~= old(self)@.stack.push(f@));
    }

    /// Takes the topmost frame off the stack.
    pub(crate) fn pop_frame(&mut self) -> (f: Option<Frame>)
        ensures
            match f {
                Some(frame) => old(self)@.stack.len() > 0 && frame@ == old(self)@.stack.last()
                    && final(self)@ == old(self)@.drop(),
                None => old(self)@.stack.len() == 0 && final(self)@ == old(self)@,
            },
    {
        let f = self.stack.pop();
        proof {
            if f is Some {
                assert(self@.stack =~= old(self)@.stack.drop_last());
            } else {
                assert(self@.stack =~= old(self)@.stack);
            }
        }
        f
    }

    /// Sets out to evaluate `e`.
    pub(crate) fn go_eval(&mut self, e: Ann<Expr>)
        ensures
            final(self)@ == old(self)@.eval(e@),
    {
        self.control = Control::Eval(e);
    }

    /// Sets out to hand on the value `v`.
    pub(crate) fn go_value(&mut self, v: Ann<Expr>)
        ensures
            final(self)@ == old(self)@.value(v@),
    {
        self.control = Control::Value(v);
    }

    /// Sets out to hand on `e` as a value without annotations.
    pub(crate) fn go_plain(&mut self, e: Expr)
        ensures
            final(self)@ == old(self)@.plain(e@),
    {
        self.control = Control::Value(Ann::new(e));
    }

    /// Sets out to raise the error `e` at `r`.
    pub(crate) fn go_raise(&mut self, e: Error, r: Range)
        ensures
            final(self)@ == old(self)@.raise(e@, r),
    {
        self.control = Control::Raise(Ranged(e, r));
    }

    /// Sets out to raise `InvalidArguments` with `message` at `r`.
    pub(crate) fn go_invalid(&mut self, message: &str, r: Range)
        ensures
            final(self)@ == old(self)@.invalid(message@, r),
    {
        self.control = Control::Raise(Ranged(Error::invalid_arguments(message), r));
    }

    /// Pushes a scope, and the frame that will pop it.
    pub(crate) fn push_scope(&mut self)
        ensures
            final(self)@ == old(self)@.with_env(
                crate::eval::env::env_push(old(self)@.env),
            ).push(FrameView::Scope),
    {
        self.env.push_new_scope();
        self.push_frame(Frame::Scope);
    }
}

} // verus!
