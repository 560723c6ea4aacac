use vstd::prelude::*;
use crate::ann::Ann;
use crate::error::Error;
use crate::eval::env::Env;
use crate::expr::{AnnView, Expr, ExprView};
use crate::ops::arithmetic::{args_view, outcome_view, two_ints, two_ints_spec, Outcome};
use crate::range::Ranged;

verus! {

/// The truth value as a value without annotations.
pub open spec fn bool_outcome(b: bool) -> Outcome {
    Ok(AnnView::plain(ExprView::Bool(b)))
}

/// Whether two integers are equal.
pub open spec fn equal_spec(args: Seq<AnnView>) -> Outcome {
    match two_ints_spec(args, "`=` requires two arguments"@) {
        Err(e) => Err(e),
        Ok((a, b)) => bool_outcome(a == b),
    }
}

/// Whether the first integer is greater than the second.
pub open spec fn greater_spec(args: Seq<AnnView>) -> Outcome {
    match two_ints_spec(args, "`>` requires two arguments"@) {
        Err(e) => Err(e),
        Ok((a, b)) => bool_outcome(a > b),
    }
}

/// Whether the first integer is less than the second.
pub open spec fn less_spec(args: Seq<AnnView>) -> Outcome {
    match two_ints_spec(args, "`<` requires two arguments"@) {
        Err(e) => Err(e),
        Ok((a, b)) => bool_outcome(a < b),
    }
}

/// Whether two integers are equal.
pub fn eq(args: &[Ann<Expr>], _env: &Env) -> (r: Result<Ann<Expr>, Ranged<Error>>)
    ensures
        outcome_view(r) == equal_spec(args_view(args@)),
{
    match two_ints(args, "`=` requires two arguments") {
        Ok((a, b)) => Ok(Ann::new(Expr::Bool(a == b))),
        Err(e) => Err(e),
    }
}

/// Whether the first integer is greater than the second.
pub fn gt(args: &[Ann<Expr>], _env: &Env) -> (r: Result<Ann<Expr>, Ranged<Error>>)
    ensures
        outcome_view(r) == greater_spec(args_view(args@)),
{
    match two_ints(args, "`>` requires two arguments") {
        Ok((a, b)) => Ok(Ann::new(Expr::Bool(a > b))),
        Err(e) => Err(e),
    }
}

/// Whether the first integer is less than the second.
pub fn lt(args: &[Ann<Expr>], _env: &Env) -> (r: Result<Ann<Expr>, Ranged<Error>>)
    ensures
        outcome_view(r) == less_spec(args_view(args@)),
{
    match two_ints(args, "`<` requires two arguments") {
        Ok((a, b)) => Ok(Ann::new(Expr::Bool(a < b))),
        Err(e) => Err(e),
    }
}

} // verus!
