use vstd::prelude::*;
use crate::ann::Ann;
use crate::expr::Expr;

verus! {

/// Whether `r` is a result of transforming `a` with the mapping function
/// `f`, from the leaves up: each term of a list is transformed, and `f`
/// maps the list of the transformed terms to `r`; `f` maps anything other
/// than a list to `r` directly. What `f` maps a value to is given by what
/// `f` ensures.
pub open spec fn transformed<F: Fn(Ann<Expr>) -> Ann<Expr>>(a: Ann<Expr>, f: F, r: Ann<Expr>)
    -> bool
    decreases a,
{
    match a.0 {
        Expr::List(terms) => exists|rebuilt: Vec<Ann<Expr>>|
            #![trigger rebuilt.len()]
            {
                &&& rebuilt.len() == terms.len()
                &&& forall|i: int|
                    0 <= i < terms.len() ==> transformed(terms@[i], f, #[trigger] rebuilt@[i])
                &&& call_ensures(f, (Ann(Expr::List(rebuilt), a.1, a.2),), r)
            },
        _ => call_ensures(f, (a,), r),
    }
}

impl Ann<Expr> {
    /// Transforms the expression by recursively applying the `f` mapping
    /// function.
    pub fn transform<F>(self, f: &F) -> (r: Ann<Expr>) where F: Fn(Ann<Expr>) -> Ann<Expr>
        requires
            forall|a: Ann<Expr>| call_requires(*f, (a,)),
        ensures
            transformed(self, *f, r),
        decreases self,
    {
        match self {
            Ann(Expr::List(terms), annotations, range) => {
                let mut rebuilt: Vec<Ann<Expr>> = Vec::new();
                let ghost given = terms@;
                for t in it: terms
                    invariant
                        given == it.seq(),
                        self.0 matches Expr::List(v) && v@ == given,
                        forall|a: Ann<Expr>| call_requires(*f, (a,)),
                        rebuilt.len() == it.index(),
                        forall|i: int|
                            0 <= i < it.index() ==> transformed(
                                given[i],
                                *f,
                                #[trigger] rebuilt@[i],
                            ),
                {
                    let done = t.transform(f);
                    rebuilt.push(done);
                }
                let list = Ann(Expr::List(rebuilt), annotations, range);
                let r = f(list);
                assert(rebuilt.len() == given.len());
                r
            },
            other => f(other),
        }
    }
}

} // verus!
