use vstd::prelude::*;
use crate::error::{Error, ErrorView};
use crate::eval::env::Env;
use crate::expr::{Expr, ExprView};

verus! {

/// The foreign function `ann`. It takes exactly one argument. A foreign
/// function gets the values of its arguments, which carry no annotations,
/// so that the result is the unit value.
pub fn ann(args: &[Expr], _env: &Env) -> (r: Result<Expr, Error>)
    ensures
        match r {
            Ok(e) => args@.len() == 1 && e@ == ExprView::One,
            Err(e) => args@.len() != 1 && e@ == ErrorView::InvalidArguments(
                "`ann` requires one argument"@,
            ),
        },
{
    if args.len() != 1 {
        return Err(Error::invalid_arguments("`ann` requires one argument"));
    }
    Ok(Expr::One)
}

} // verus!
