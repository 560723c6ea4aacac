use vstd::prelude::*;
use crate::ann::Ann;
use crate::expr::{
    assoc_distinct, assoc_find, assoc_get, assoc_insert, lemma_assoc_insert, AnnView, Expr,
};
use crate::text::same_text;

verus! {

/// One scope: the bindings of names to values, in the order in which the
/// names were first bound.
#[derive(Debug)]
pub struct Scope {
    pub bindings: Vec<(String, Ann<Expr>)>,
}

/// The mathematical value of a [`Scope`].
pub type ScopeView = Seq<(Seq<char>, AnnView)>;

/// The mathematical value of an [`Env`]: its scopes, outermost first.
pub type EnvView = Seq<ScopeView>;

/// The values of a sequence of bindings, one by one.
pub open spec fn bindings_view(bindings: Seq<(String, Ann<Expr>)>) -> ScopeView {
    bindings.map_values(|b: (String, Ann<Expr>)| (b.0@, b.1@))
}

impl View for Scope {
    type V = ScopeView;

    open spec fn view(&self) -> ScopeView {
        bindings_view(self.bindings@)
    }
}

/// An environment: a stack of scopes. The first scope is the outermost one
/// and holds the prelude; the last one is the innermost.
#[derive(Debug)]
pub struct Env {
    pub scopes: Vec<Scope>,
}

impl View for Env {
    type V = EnvView;

    open spec fn view(&self) -> EnvView {
        self.scopes@.map_values(|s: Scope| s@)
    }
}

/// The value bound to `name` in the innermost scope that binds it.
pub open spec fn env_get(env: EnvView, name: Seq<char>) -> Option<AnnView>
    decreases env.len(),
{
    if env.len() == 0 {
        None
    } else {
        match assoc_get(env.last(), name) {
            Some(v) => Some(v),
            None => env_get(env.drop_last(), name),
        }
    }
}

/// The environment after `name` has been bound to `value` in the innermost
/// scope. An environment without a scope gets one.
pub open spec fn env_insert(env: EnvView, name: Seq<char>, value: AnnView) -> EnvView {
    if env.len() == 0 {
        seq![seq![(name, value)]]
    } else {
        env.update(env.len() - 1, assoc_insert(env.last(), name, value))
    }
}

/// The environment with a new, empty innermost scope.
pub open spec fn env_push(env: EnvView) -> EnvView {
    env.push(Seq::empty())
}

/// The environment without its innermost scope.
pub open spec fn env_pop(env: EnvView) -> EnvView {
    if env.len() == 0 {
        env
    } else {
        env.drop_last()
    }
}

impl Clone for Scope {
    fn clone(&self) -> (r: Scope)
        ensures
            r@ == self@,
    {
        let mut out: Vec<(String, Ann<Expr>)> = Vec::new();
        let mut i: usize = 0;
        while i < self.bindings.len()
            invariant
                i <= self.bindings.len(),
                out.len() == i,
                forall|j: int|
                    0 <= j < i ==> out@[j].0@ == self.bindings@[j].0@ && out@[j].1@
                        == self.bindings@[j].1@,
            decreases self.bindings.len() - i,
        {
            out.push((self.bindings[i].0.clone(), self.bindings[i].1.clone()));
            i += 1;
        }
        let r = Scope { bindings: out };
        assert(r@ =~= self@);
        r
    }
}

impl Scope {
    /// Whether no name is bound twice. Every scope that is made by
    /// inserting into the empty scope is of this kind.
    pub open spec fn distinct(&self) -> bool {
        assoc_distinct(self@)
    }

    /// The empty scope.
    pub fn new() -> (s: Scope)
        ensures
            s@ == Seq::<(Seq<char>, AnnView)>::empty(),
            s.distinct(),
    {
        let s = Scope { bindings: Vec::new() };
        assert(s@ =~= Seq::<(Seq<char>, AnnView)>::empty());
        s
    }

    /// The position of the first binding of `name`.
    fn position(&self, name: &str) -> (i: usize)
        ensures
            i == assoc_find(self@, name@, 0),
            i <= self.bindings.len(),
    {
        let mut i: usize = 0;
        while i < self.bindings.len()
            invariant
                i <= self.bindings.len(),
                assoc_find(self@, name@, 0) == assoc_find(self@, name@, i as int),
            decreases self.bindings.len() - i,
        {
            if same_text(self.bindings[i].0.as_str(), name) {
                return i;
            }
            i += 1;
        }
        i
    }

    /// The value bound to `name`, if any.
    pub fn get(&self, name: &str) -> (r: Option<&Ann<Expr>>)
        ensures
            match r {
                Some(v) => assoc_get(self@, name@) == Some(v@),
                None => assoc_get(self@, name@) is None,
            },
    {
        let i = self.position(name);
        if i < self.bindings.len() {
            Some(&self.bindings[i].1)
        } else {
            None
        }
    }

    /// Binds `name` to `value`, in place of the value it was bound to, if
    /// any.
    pub fn insert(&mut self, name: String, value: Ann<Expr>)
        ensures
            final(self)@ == assoc_insert(old(self)@, name@, value@),
            old(self).distinct() ==> final(self).distinct(),
    {
        let i = self.position(name.as_str());
        if i < self.bindings.len() {
            self.bindings.set(i, (name, value));
        } else {
            self.bindings.push((name, value));
        }
        proof {
            assert(self@ =~= assoc_insert(old(self)@, name@, value@));
            lemma_assoc_insert(old(self)@, name@, value@);
        }
    }
}

impl Clone for Env {
    fn clone(&self) -> (r: Env)
        ensures
            r@ == self@,
    {
        let mut out: Vec<Scope> = Vec::new();
        let mut i: usize = 0;
        while i < self.scopes.len()
            invariant
                i <= self.scopes.len(),
                out.len() == i,
                forall|j: int| 0 <= j < i ==> out@[j]@ == self.scopes@[j]@,
            decreases self.scopes.len() - i,
        {
            out.push(self.scopes[i].clone());
            i += 1;
        }
        let r = Env { scopes: out };
        assert(r@ =~= self@);
        r
    }
}

impl Env {
    /// An environment with one scope, which is empty.
    pub fn new() -> (env: Env)
        ensures
            env@ == seq![Seq::<(Seq<char>, AnnView)>::empty()],
    {
        let mut scopes: Vec<Scope> = Vec::new();
        scopes.push(Scope::new());
        let env = Env { scopes };
        assert(env@ =~= seq![Seq::<(Seq<char>, AnnView)>::empty()]);
        env
    }

    /// The number of scopes.
    pub fn depth(&self) -> (n: usize)
        ensures
            n == self@.len(),
    {
        self.scopes.len()
    }

    /// Adds a new, empty innermost scope.
    pub fn push_new_scope(&mut self)
        ensures
            final(self)@ == env_push(old(self)@),
    {
        self.scopes.push(Scope::new());
        assert(self@ =~= env_push(old(self)@));
    }

    /// Removes the innermost scope, if there is one.
    pub fn pop(&mut self)
        ensures
            final(self)@ == env_pop(old(self)@),
    {
        self.scopes.pop();
        assert(self@ =~= env_pop(old(self)@));
    }

    /// Binds `name` to `value` in the innermost scope.
    pub fn insert(&mut self, name: String, value: Ann<Expr>)
        ensures
            final(self)@ == env_insert(old(self)@, name@, value@),
    {
        match self.scopes.pop() {
            Some(mut scope) => {
                scope.insert(name, value);
                self.scopes.push(scope);
            },
            None => {
                let mut scope = Scope::new();
                scope.insert(name, value);
                self.scopes.push(scope);
            },
        }
        assert(self@ =~= env_insert(old(self)@, name@, value@));
    }

    /// The value bound to `name` in the innermost scope that binds it.
    pub fn get(&self, name: &str) -> (r: Option<&Ann<Expr>>)
        ensures
            match r {
                Some(v) => env_get(self@, name@) == Some(v@),
                None => env_get(self@, name@) is None,
            },
    {
        let mut i: usize = self.scopes.len();
        assert(self@.take(i as int) =~= self@);
        while i > 0
            invariant
                i <= self.scopes.len(),
                env_get(self@, name@) == env_get(self@.take(i as int), name@),
            decreases i,
        {
            i -= 1;
            assert(self@.take(i + 1).last() == self.scopes@[i as int]@);
            assert(self@.take(i + 1).drop_last() =~= self@.take(i as int));
            match self.scopes[i].get(name) {
                Some(v) => {
                    return Some(v);
                },
                None => {},
            }
        }
        None
    }
}

} // verus!
