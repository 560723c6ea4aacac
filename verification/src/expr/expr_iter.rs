use vstd::prelude::*;
use crate::ann::Ann;
use crate::expr::Expr;

verus! {

/// The expression `a` and all the expressions below it, depth first: `a`
/// itself, then, where `a` is a list, its terms in order, each with what
/// is below it. Only lists are looked into.
pub open spec fn preorder(a: Ann<Expr>) -> Seq<Ann<Expr>>
    decreases a, 0int,
{
    seq![a] + match a.0 {
        Expr::List(terms) => preorder_all(terms@, 0),
        _ => Seq::empty(),
    }
}

/// The terms `terms[from..]` in order, each with what is below it.
pub open spec fn preorder_all(terms: Seq<Ann<Expr>>, from: int) -> Seq<Ann<Expr>>
    decreases terms, terms.len() - from,
{
    if from < 0 || from >= terms.len() {
        Seq::empty()
    } else {
        preorder(terms[from]) + preorder_all(terms, from + 1)
    }
}

/// What the cursors of a stack still have to yield, the topmost cursor,
/// which is the last, first.
pub open spec fn pending(stack: Seq<(&Vec<Ann<Expr>>, usize)>) -> Seq<Ann<Expr>>
    decreases stack.len(),
{
    if stack.len() == 0 {
        Seq::empty()
    } else {
        preorder_all(stack.last().0@, stack.last().1 as int) + pending(stack.drop_last())
    }
}

/// What a stack with one more cursor has to yield.
proof fn lemma_pending_push(stack: Seq<(&Vec<Ann<Expr>>, usize)>, top: (&Vec<Ann<Expr>>, usize))
    ensures
        pending(stack.push(top)) == preorder_all(top.0@, top.1 as int) + pending(stack),
        pending(Seq::empty()) == Seq::<Ann<Expr>>::empty(),
{
    assert(stack.push(top).drop_last() =~= stack);
}

/// A depth-first Expr iterator.
pub struct ExprIter<'a> {
    root: Option<&'a Ann<Expr>>,
    stack: Vec<(&'a Vec<Ann<Expr>>, usize)>,
}

impl Ann<Expr> {
    /// An iterator over this expression and all the expressions below it,
    /// depth first.
    pub fn iter(&self) -> (it: ExprIter<'_>)
        ensures
            it.remaining() == preorder(*self),
    {
        let it = ExprIter { root: Some(self), stack: Vec::new() };
        proof {
            assert(it.stack@ =~= Seq::empty());
            if self.0 is List {
                let terms = self.0->List_0;
                lemma_pending_push(it.stack@, (&terms, 0usize));
                assert(preorder_all(terms@, 0) + Seq::<Ann<Expr>>::empty() =~= preorder_all(
                    terms@,
                    0,
                ));
            }
        }
        it
    }
}

impl<'a> ExprIter<'a> {
    /// The expressions that the iterator has still to yield, in order.
    pub closed spec fn remaining(&self) -> Seq<Ann<Expr>> {
        match self.root {
            Some(root) => seq![*root] + match root.0 {
                Expr::List(terms) => pending(self.stack@.push((&terms, 0usize))),
                _ => pending(self.stack@),
            },
            None => pending(self.stack@),
        }
    }

    /// The next expression, if any is left.
    pub fn next(&mut self) -> (r: Option<&'a Ann<Expr>>)
        ensures
            match r {
                Some(a) => old(self).remaining().len() > 0 && *a == old(self).remaining()[0]
                    && final(self).remaining() == old(self).remaining().drop_first(),
                None => old(self).remaining().len() == 0 && final(self).remaining().len() == 0,
            },
    {
        if let Some(root) = self.root.take() {
            if let Expr::List(children) = &root.0 {
                self.stack.push((children, 0));
            }
            assert(self.remaining() =~= old(self).remaining().drop_first());
            return Some(root);
        }
        loop
            invariant
                self.root is None,
                self.remaining() == old(self).remaining(),
            decreases self.stack.len(),
        {
            let ghost before = self.stack@;
            let Some((list, i)) = self.stack.pop() else {
                return None;
            };
            assert(before.drop_last() =~= self.stack@);
            if i < list.len() {
                let item = &list[i];
                let ghost rest = self.stack@;
                self.stack.push((list, i + 1));
                proof {
                    assert(self.stack@.drop_last() =~= rest);
                }
                let ghost mid = self.stack@;
                if let Expr::List(children) = &item.0 {
                    self.stack.push((children, 0));
                    proof {
                        assert(self.stack@.drop_last() =~= mid);
                    }
                }
                proof {
                    let old_remaining = preorder_all(list@, i as int) + pending(rest);
                    assert(old(self).remaining() == old_remaining);
                    let below = if item.0 is List {
                        preorder_all(item.0->List_0@, 0)
                    } else {
                        Seq::empty()
                    };
                    let after = preorder_all(list@, i + 1);
                    assert(preorder(*item) == seq![*item] + below);
                    assert(old_remaining =~= seq![*item] + (below + after + pending(rest)));
                    lemma_pending_push(rest, (list, (i + 1) as usize));
                    assert(pending(mid) == after + pending(rest));
                    if item.0 is List {
                        lemma_pending_push(mid, (&item.0->List_0, 0usize));
                    }
                    assert(self.remaining() =~= below + after + pending(rest));
                    assert(self.remaining() =~= old_remaining.drop_first());
                }
                return Some(item);
            }
        }
    }
}

} // verus!
