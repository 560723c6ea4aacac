pub mod arithmetic;
pub mod eq;
pub mod lang;
pub mod process;

use vstd::prelude::*;
use crate::ann::Ann;
use crate::error::Error;
use crate::eval::env::Env;
use crate::expr::{AnnView, Expr};
use crate::ops::arithmetic::{
    args_view, difference_spec, int_outcome, outcome_view, product_spec, sum_spec, Outcome,
};
use crate::ops::eq::{equal_spec, greater_spec, less_spec};
use crate::range::Ranged;
use crate::text::same_text;

verus! {

/// What the built-in function that the prelude knows as `name` gives for
/// the arguments `args`. Only the functions that compute on their
/// arguments alone are built in; every other name is left to the host.
pub open spec fn builtin_spec(name: Seq<char>, args: Seq<AnnView>) -> Option<Outcome> {
    if name == "add_int"@ {
        Some(int_outcome(sum_spec(args, args.len() as int)))
    } else if name == "sub"@ {
        Some(difference_spec(args))
    } else if name == "mul"@ {
        Some(int_outcome(product_spec(args, args.len() as int)))
    } else if name == "eq"@ {
        Some(equal_spec(args))
    } else if name == "gt"@ {
        Some(greater_spec(args))
    } else if name == "lt"@ {
        Some(less_spec(args))
    } else {
        None
    }
}

/// Calls the built-in function that the prelude knows as `name`, if there
/// is one: the arithmetic and the comparison of integers. Returns nothing
/// for a name that is left to the host.
pub fn call_builtin(name: &str, args: &[Ann<Expr>], env: &Env) -> (r: Option<
    Result<Ann<Expr>, Ranged<Error>>,
>)
    ensures
        match r {
            Some(result) => builtin_spec(name@, args_view(args@)) == Some(outcome_view(result)),
            None => builtin_spec(name@, args_view(args@)) is None,
        },
{
    if same_text(name, "add_int") {
        Some(arithmetic::add_int(args, env))
    } else if same_text(name, "sub") {
        Some(arithmetic::sub(args, env))
    } else if same_text(name, "mul") {
        Some(arithmetic::mul(args, env))
    } else if same_text(name, "eq") {
        Some(eq::eq(args, env))
    } else if same_text(name, "gt") {
        Some(eq::gt(args, env))
    } else if same_text(name, "lt") {
        Some(eq::lt(args, env))
    } else {
        None
    }
}

} // verus!
