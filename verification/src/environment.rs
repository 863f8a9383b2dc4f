//! The names in scope while a formula is lowered: a stack, innermost last.
//! A variable is resolved to the number of entries between the end of the
//! stack and the innermost entry of its name.

use crate::ast::Variable;
use vstd::prelude::*;

verus! {

/// An entry of the stack: a named variable, or the place of a wildcard.
#[derive(Clone, Copy, PartialEq, Eq, Hash, Debug, Structural)]
pub enum BoundName {
    Named(Variable),
    Wildcard,
}

/// The stack of names in scope. It changes only by `push` and `pop`, and
/// whoever pushes pops again before it returns.
pub struct Environment {
    bound_names: Vec<BoundName>,
}

impl View for Environment {
    type V = Seq<BoundName>;

    closed spec fn view(&self) -> Seq<BoundName> {
        self.bound_names@
    }
}

/// The number of entries between the end of `names` and the innermost entry
/// named `v`; `None` when no entry has that name.
pub open spec fn depth_of(names: Seq<BoundName>, v: Variable) -> Option<nat>
    decreases names.len(),
{
    if names.len() == 0 {
        None
    } else if names.last() == BoundName::Named(v) {
        Some(0)
    } else {
        match depth_of(names.drop_last(), v) {
            Some(d) => Some(d + 1),
            None => None,
        }
    }
}

/// `n` places for wildcards.
pub open spec fn wildcard_names(n: nat) -> Seq<BoundName> {
    Seq::new(n, |i: int| BoundName::Wildcard)
}

/// The names `names`, each as an entry of the stack.
pub open spec fn named(names: Seq<Variable>) -> Seq<BoundName> {
    Seq::new(names.len(), |i: int| BoundName::Named(names[i]))
}

/// A variable has a depth exactly when the stack holds an entry of its name,
/// and the depth lies inside the stack.
pub proof fn lemma_depth_of(names: Seq<BoundName>, v: Variable)
    ensures
        depth_of(names, v) is Some <==> names.contains(BoundName::Named(v)),
        depth_of(names, v) matches Some(d) ==> d < names.len() && names[names.len() - 1 - d]
            == BoundName::Named(v),
    decreases names.len(),
{
    if names.len() > 0 {
        lemma_depth_of(names.drop_last(), v);
        if names.last() == BoundName::Named(v) {
            assert(names[names.len() - 1] == BoundName::Named(v));
        } else {
            if names.contains(BoundName::Named(v)) {
                let i = choose|i: int| 0 <= i < names.len() && names[i] == BoundName::Named(v);
                assert(names.drop_last()[i] == BoundName::Named(v));
            }
            if names.drop_last().contains(BoundName::Named(v)) {
                let i = choose|i: int|
                    0 <= i < names.drop_last().len() && names.drop_last()[i] == BoundName::Named(
                        v,
                    );
                assert(names[i] == BoundName::Named(v));
            }
        }
    }
}

impl Environment {
    /// The empty stack.
    pub fn new() -> (env: Environment)
        ensures
            env@ == Seq::<BoundName>::empty(),
    {
        Environment { bound_names: Vec::new() }
    }

    /// The number of entries.
    pub fn len(&self) -> (n: usize)
        ensures
            n == self@.len(),
    {
        self.bound_names.len()
    }

    /// Pushes the name `v`: it becomes the innermost entry.
    pub fn push_bound_name(&mut self, v: Variable)
        ensures
            final(self)@ == old(self)@.push(BoundName::Named(v)),
            final(self)@.len() <= usize::MAX,
    {
        self.bound_names.push(BoundName::Named(v));
        let len: usize = self.bound_names.len();
        assert(self@.len() == len);
    }

    /// Pops the innermost entry.
    pub fn pop_bound_name(&mut self)
        requires
            old(self)@.len() > 0,
        ensures
            final(self)@ == old(self)@.drop_last(),
    {
        self.bound_names.pop();
    }

    /// Pushes `n` places for wildcards.
    pub fn push_wildcards(&mut self, n: usize)
        ensures
            final(self)@ == old(self)@ + wildcard_names(n as nat),
            final(self)@.len() <= usize::MAX,
    {
        let len: usize = self.bound_names.len();
        assert(self@.len() == len);
        let mut i: usize = 0;
        assert(self@ =~= old(self)@ + wildcard_names(0));
        while i < n
            invariant
                i <= n,
                self@ == old(self)@ + wildcard_names(i as nat),
                self@.len() <= usize::MAX,
            decreases n - i,
        {
            self.bound_names.push(BoundName::Wildcard);
            let len: usize = self.bound_names.len();
            assert(self@.len() == len);
            i = i + 1;
            assert(self@ =~= old(self)@ + wildcard_names(i as nat));
        }
    }

    /// Pops the `n` innermost entries.
    pub fn pop_wildcards(&mut self, n: usize)
        requires
            n <= old(self)@.len(),
        ensures
            final(self)@ == old(self)@.take(old(self)@.len() - n),
    {
        let len = self.bound_names.len();
        self.bound_names.truncate(len - n);
    }

    /// The depth of the variable `v`: the number of entries between the end
    /// of the stack and the innermost entry of its name.
    pub fn lookup(&self, v: Variable) -> (depth: Option<usize>)
        ensures
            depth is Some <==> depth_of(self@, v) is Some,
            depth matches Some(d) ==> depth_of(self@, v) == Some(d as nat),
    {
        let len = self.bound_names.len();
        let mut d: usize = 0;
        assert(self@.take(len as int) =~= self@);
        while d < len
            invariant
                d <= len,
                len == self@.len(),
                depth_of(self@, v) == match depth_of(self@.take(len - d), v) {
                    Some(k) => Some((k + d) as nat),
                    None => None,
                },
            decreases len - d,
        {
            let ghost prefix = self@.take(len - d);
            assert(prefix.drop_last() =~= self@.take(len - d - 1));
            assert(prefix.last() == self@[len - d - 1]);
            match self.bound_names[len - 1 - d] {
                BoundName::Named(w) => {
                    if w.id == v.id {
                        return Some(d);
                    }
                },
                BoundName::Wildcard => {},
            }
            d = d + 1;
        }
        assert(self@.take(0) =~= Seq::<BoundName>::empty());
        None
    }
}

} // verus!
