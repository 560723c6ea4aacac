use vstd::prelude::*;
use crate::ann::{range_or_origin, Ann};
use crate::error::{Error, ErrorView};
use crate::eval::env::Env;
use crate::expr::{AnnView, Expr, ExprView};
use crate::range::{Range, Ranged};

verus! {

/// What a built-in function gives: a value, or an error with its range.
pub type Outcome = Result<AnnView, (ErrorView, Range)>;

/// The value of what a built-in function returned.
pub open spec fn outcome_view(r: Result<Ann<Expr>, Ranged<Error>>) -> Outcome {
    match r {
        Ok(v) => Ok(v@),
        Err(e) => Err(e@),
    }
}

/// The values of a sequence of arguments, one by one.
pub open spec fn args_view(args: Seq<Ann<Expr>>) -> Seq<AnnView> {
    args.map_values(|a: Ann<Expr>| a@)
}

/// The error for the argument `args[i]`, with the range of that argument.
pub open spec fn argument_error(args: Seq<AnnView>, i: int, message: Seq<char>) -> (
    ErrorView,
    Range,
) {
    (ErrorView::InvalidArguments(message), args[i].range_or_origin())
}

/// The error for arguments that are too few or too many, with the range
/// of the first argument, if there is one.
pub open spec fn arity_error(args: Seq<AnnView>, message: Seq<char>) -> (ErrorView, Range) {
    (
        ErrorView::InvalidArguments(message),
        if args.len() > 0 {
            args[0].range_or_origin()
        } else {
            range_or_origin(None)
        },
    )
}

/// Whether `n` is a 64-bit signed integer.
pub open spec fn fits(n: int) -> bool {
    i64::MIN <= n <= i64::MAX
}

/// The sum of the first `n` arguments, which are added from left to right.
/// An argument that is no integer, or with which the sum no longer fits in
/// 64 bits, is an error.
pub open spec fn sum_spec(args: Seq<AnnView>, n: int) -> Result<int, (ErrorView, Range)>
    decreases n,
{
    if n <= 0 {
        Ok(0)
    } else {
        match sum_spec(args, n - 1) {
            Err(e) => Err(e),
            Ok(sum) => match args[n - 1].expr {
                ExprView::Int(v) => if fits(sum + v) {
                    Ok(sum + v)
                } else {
                    Err(argument_error(args, n - 1, "integer overflow"@))
                },
                _ => Err(argument_error(args, n - 1, "expected Int argument"@)),
            },
        }
    }
}

/// The product of the first `n` arguments, which are multiplied from left
/// to right. An argument that is no integer, or with which the product no
/// longer fits in 64 bits, is an error.
pub open spec fn product_spec(args: Seq<AnnView>, n: int) -> Result<int, (ErrorView, Range)>
    decreases n,
{
    if n <= 0 {
        Ok(1)
    } else {
        match product_spec(args, n - 1) {
            Err(e) => Err(e),
            Ok(product) => match args[n - 1].expr {
                ExprView::Int(v) => if fits(product * v) {
                    Ok(product * v)
                } else {
                    Err(argument_error(args, n - 1, "integer overflow"@))
                },
                _ => Err(argument_error(args, n - 1, "expected Int argument"@)),
            },
        }
    }
}

/// The integer as a value without annotations.
pub open spec fn int_outcome(r: Result<int, (ErrorView, Range)>) -> Outcome {
    match r {
        Ok(n) => Ok(AnnView::plain(ExprView::Int(n))),
        Err(e) => Err(e),
    }
}

/// The two integers that a function of two integers is called with. There
/// have to be exactly two arguments, and both have to be integers.
pub open spec fn two_ints_spec(args: Seq<AnnView>, arity: Seq<char>) -> Result<
    (int, int),
    (ErrorView, Range),
> {
    if args.len() != 2 {
        Err(arity_error(args, arity))
    } else {
        match (args[0].expr, args[1].expr) {
            (ExprView::Int(a), ExprView::Int(b)) => Ok((a, b)),
            (ExprView::Int(_), _) => Err(argument_error(args, 1, "expected Int argument"@)),
            _ => Err(argument_error(args, 0, "expected Int argument"@)),
        }
    }
}

/// The difference of two integers, which has to fit in 64 bits.
pub open spec fn difference_spec(args: Seq<AnnView>) -> Outcome {
    match two_ints_spec(args, "`-` requires two arguments"@) {
        Err(e) => Err(e),
        Ok((a, b)) => if fits(a - b) {
            Ok(AnnView::plain(ExprView::Int(a - b)))
        } else {
            Err(argument_error(args, 1, "integer overflow"@))
        },
    }
}

/// A sum that has failed stays failed, with the same error, whatever
/// arguments follow.
proof fn lemma_sum_error_stays(args: Seq<AnnView>, k: int, n: int)
    requires
        0 <= k <= n,
        sum_spec(args, k) is Err,
    ensures
        sum_spec(args, n) == sum_spec(args, k),
    decreases n - k,
{
    if k < n {
        lemma_sum_error_stays(args, k, n - 1);
    }
}

/// A product that has failed stays failed, with the same error, whatever
/// arguments follow.
proof fn lemma_product_error_stays(args: Seq<AnnView>, k: int, n: int)
    requires
        0 <= k <= n,
        product_spec(args, k) is Err,
    ensures
        product_spec(args, n) == product_spec(args, k),
    decreases n - k,
{
    if k < n {
        lemma_product_error_stays(args, k, n - 1);
    }
}

/// An `InvalidArguments` error at the argument `args[i]`.
pub(crate) fn error_at(args: &[Ann<Expr>], i: usize, message: &str) -> (e: Ranged<Error>)
    requires
        i < args@.len(),
    ensures
        e@ == argument_error(args_view(args@), i as int, message@),
{
    Ranged(Error::invalid_arguments(message), args[i].get_range())
}

/// The two integers that a function of two integers is called with.
pub(crate) fn two_ints(args: &[Ann<Expr>], arity: &str) -> (r: Result<(i64, i64), Ranged<Error>>)
    ensures
        match r {
            Ok((a, b)) => two_ints_spec(args_view(args@), arity@) == Ok::<
                (int, int),
                (ErrorView, Range),
            >((a as int, b as int)),
            Err(e) => two_ints_spec(args_view(args@), arity@) == Err::<
                (int, int),
                (ErrorView, Range),
            >(e@),
        },
{
    if args.len() != 2 {
        let range = if args.len() > 0 {
            args[0].get_range()
        } else {
            Range { start: 0, end: 0 }
        };
        return Err(Ranged(Error::invalid_arguments(arity), range));
    }
    match (&args[0].0, &args[1].0) {
        (Expr::Int(a), Expr::Int(b)) => Ok((*a, *b)),
        (Expr::Int(_), _) => Err(error_at(args, 1, "expected Int argument")),
        _ => Err(error_at(args, 0, "expected Int argument")),
    }
}

/// The sum of integers. Without an argument the sum is 0.
pub fn add_int(args: &[Ann<Expr>], _env: &Env) -> (r: Result<Ann<Expr>, Ranged<Error>>)
    ensures
        outcome_view(r) == int_outcome(sum_spec(args_view(args@), args@.len() as int)),
{
    let mut sum: i64 = 0;
    let mut i: usize = 0;
    while i < args.len()
        invariant
            i <= args.len(),
            sum_spec(args_view(args@), i as int) == Ok::<int, (ErrorView, Range)>(sum as int),
        decreases args.len() - i,
    {
        match &args[i].0 {
            Expr::Int(v) => match sum.checked_add(*v) {
                Some(next) => {
                    sum = next;
                },
                None => {
                    proof {
                        lemma_sum_error_stays(args_view(args@), i + 1, args@.len() as int);
                    }
                    return Err(error_at(args, i, "integer overflow"));
                },
            },
            _ => {
                proof {
                    lemma_sum_error_stays(args_view(args@), i + 1, args@.len() as int);
                }
                return Err(error_at(args, i, "expected Int argument"));
            },
        }
        i += 1;
    }
    Ok(Ann::new(Expr::Int(sum)))
}

/// The product of integers. Without an argument the product is 1.
pub fn mul(args: &[Ann<Expr>], _env: &Env) -> (r: Result<Ann<Expr>, Ranged<Error>>)
    ensures
        outcome_view(r) == int_outcome(product_spec(args_view(args@), args@.len() as int)),
{
    let mut product: i64 = 1;
    let mut i: usize = 0;
    while i < args.len()
        invariant
            i <= args.len(),
            product_spec(args_view(args@), i as int) == Ok::<int, (ErrorView, Range)>(
                product as int,
            ),
        decreases args.len() - i,
    {
        match &args[i].0 {
            Expr::Int(v) => match product.checked_mul(*v) {
                Some(next) => {
                    product = next;
                },
                None => {
                    proof {
                        lemma_product_error_stays(args_view(args@), i + 1, args@.len() as int);
                    }
                    return Err(error_at(args, i, "integer overflow"));
                },
            },
            _ => {
                proof {
                    lemma_product_error_stays(args_view(args@), i + 1, args@.len() as int);
                }
                return Err(error_at(args, i, "expected Int argument"));
            },
        }
        i += 1;
    }
    Ok(Ann::new(Expr::Int(product)))
}

/// The first integer less the second.
pub fn sub(args: &[Ann<Expr>], _env: &Env) -> (r: Result<Ann<Expr>, Ranged<Error>>)
    ensures
        outcome_view(r) == difference_spec(args_view(args@)),
{
    let (a, b) = match two_ints(args, "`-` requires two arguments") {
        Ok(pair) => pair,
        Err(e) => {
            return Err(e);
        },
    };
    match a.checked_sub(b) {
        Some(difference) => Ok(Ann::new(Expr::Int(difference))),
        None => Err(error_at(args, 1, "integer overflow")),
    }
}

} // verus!
