use vstd::prelude::*;
use crate::ann::Ann;
use crate::eval::env::{env_insert, Env, EnvView};
use crate::expr::{AnnView, Expr, ExprView};

verus! {

/// A foreign function, given by the name under which the host knows it,
/// without annotations.
pub open spec fn foreign(name: Seq<char>) -> AnnView {
    AnnView::plain(ExprView::ForeignFunc(name))
}

/// A foreign function, given by the name under which the host knows it,
/// that returns values of the type `result_type`.
pub open spec fn typed_foreign(name: Seq<char>, result_type: Seq<char>) -> AnnView {
    foreign(name).annotate("type"@, ExprView::Symbol(result_type))
}

/// The environment with the bindings for numbers added to the innermost
/// scope: addition for integers, under `+` and `+$$Int$$Int`, and for
/// floating-point numbers, under `+$$Float$$Float`; subtraction and
/// multiplication.
pub open spec fn with_numbers(env: EnvView) -> EnvView {
    let env = env_insert(env, "+"@, typed_foreign("add_int"@, "Int"@));
    let env = env_insert(env, "+$$Int$$Int"@, typed_foreign("add_int"@, "Int"@));
    let env = env_insert(env, "+$$Float$$Float"@, typed_foreign("add_float"@, "Float"@));
    let env = env_insert(env, "-"@, foreign("sub"@));
    env_insert(env, "*"@, foreign("mul"@))
}

/// The environment with the bindings for comparisons added to the
/// innermost scope.
pub open spec fn with_comparisons(env: EnvView) -> EnvView {
    let env = env_insert(env, "="@, foreign("eq"@));
    let env = env_insert(env, ">"@, foreign("gt"@));
    env_insert(env, "<"@, foreign("lt"@))
}

/// The environment with the bindings for input and output added to the
/// innermost scope.
pub open spec fn with_io(env: EnvView) -> EnvView {
    let env = env_insert(env, "write"@, foreign("write"@));
    let env = env_insert(env, "write$$String"@, foreign("write"@));
    let env = env_insert(env, "writeln"@, foreign("writeln"@));
    let env = env_insert(env, "writeln$$String"@, foreign("writeln"@));
    let env = env_insert(env, "File:read_as_string"@, foreign("file_read_as_string"@));
    env_insert(env, "File:read_as_string$$String"@, foreign("file_read_as_string"@))
}

/// The environment with the bindings for the process added to the
/// innermost scope.
pub open spec fn with_process(env: EnvView) -> EnvView {
    let env = env_insert(env, "exit"@, foreign("exit"@));
    env_insert(env, "exit$$"@, foreign("exit"@))
}

/// The environment with the whole prelude added to the innermost scope.
pub open spec fn prelude_spec(env: EnvView) -> EnvView {
    with_process(with_io(with_comparisons(with_numbers(env))))
}

/// Binds `name` to the foreign function that the host knows as
/// `function`.
fn bind_foreign(env: &mut Env, name: &str, function: &str)
    ensures
        final(env)@ == env_insert(old(env)@, name@, foreign(function@)),
{
    env.insert(
        String::from_str(name),
        Ann::new(Expr::ForeignFunc(String::from_str(function))),
    );
}

/// Binds `name` to the foreign function that the host knows as `function`
/// and that returns values of the type `result_type`.
fn bind_typed_foreign(env: &mut Env, name: &str, function: &str, result_type: &str)
    ensures
        final(env)@ == env_insert(old(env)@, name@, typed_foreign(function@, result_type@)),
{
    env.insert(
        String::from_str(name),
        Ann::with_type(
            Expr::ForeignFunc(String::from_str(function)),
            Expr::symbol(result_type),
        ),
    );
}

/// Adds the prelude to the innermost scope of `env`: the names of the
/// built-in functions, each bound to the foreign function that the host
/// provides for it.
pub fn setup_prelude(env: Env) -> (r: Env)
    ensures
        r@ == prelude_spec(env@),
{
    let mut env = env;

    // num
    bind_typed_foreign(&mut env, "+", "add_int", "Int");
    bind_typed_foreign(&mut env, "+$$Int$$Int", "add_int", "Int");
    bind_typed_foreign(&mut env, "+$$Float$$Float", "add_float", "Float");
    bind_foreign(&mut env, "-", "sub");
    bind_foreign(&mut env, "*", "mul");

    // eq
    bind_foreign(&mut env, "=", "eq");
    bind_foreign(&mut env, ">", "gt");
    bind_foreign(&mut env, "<", "lt");

    // io
    bind_foreign(&mut env, "write", "write");
    bind_foreign(&mut env, "write$$String", "write");
    bind_foreign(&mut env, "writeln", "writeln");
    bind_foreign(&mut env, "writeln$$String", "writeln");
    bind_foreign(&mut env, "File:read_as_string", "file_read_as_string");
    bind_foreign(&mut env, "File:read_as_string$$String", "file_read_as_string");

    // process
    bind_foreign(&mut env, "exit", "exit");
    bind_foreign(&mut env, "exit$$", "exit");

    env
}

impl Env {
    /// An environment whose only scope holds the prelude.
    pub fn prelude() -> (env: Env)
        ensures
            env@ == prelude_spec(seq![Seq::<(Seq<char>, AnnView)>::empty()]),
    {
        setup_prelude(Env::new())
    }
}

} // verus!
