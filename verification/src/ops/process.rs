use vstd::prelude::*;
use crate::ann::Ann;
use crate::error::{Error, ErrorView};
use crate::expr::{Expr, ExprView};

verus! {

/// The exit status that the arguments of `exit` ask for: the status 0
/// without an argument; else the first argument, which has to be an
/// integer, cut down to 32 bits.
pub open spec fn exit_status_spec(args: Seq<Ann<Expr>>) -> Result<i32, ErrorView> {
    if args.len() == 0 {
        Ok(0i32)
    } else {
        match args[0]@.expr {
            ExprView::Int(code) => Ok(code as i32),
            _ => Err(ErrorView::InvalidArguments("expected Int argument"@)),
        }
    }
}

/// The exit status with which `exit` has to terminate the current process,
/// or the error that it returns instead. Exits with the status 0 by
/// default.
pub fn exit_status(args: &[Ann<Expr>]) -> (r: Result<i32, Error>)
    ensures
        match r {
            Ok(status) => exit_status_spec(args@) == Ok::<i32, ErrorView>(status),
            Err(e) => exit_status_spec(args@) == Err::<i32, ErrorView>(e@),
        },
{
    if args.len() == 0 {
        return Ok(0);
    }
    match &args[0].0 {
        Expr::Int(code) => Ok(#[verifier::truncate] (*code as i32)),
        _ => Err(Error::invalid_arguments("expected Int argument")),
    }
}

} // verus!
