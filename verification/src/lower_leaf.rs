//! Lowering of an application to a leaf.

use crate::ast::{
    lemma_wildcards_upto_monotonic, value_variables, value_wildcards, variables_upto,
    wildcards_upto, Application, Value,
};
use crate::environment::{lemma_depth_of, wildcard_names, BoundName, Environment};
use crate::formula::Leaf;
use crate::lower::{
    application_leaf, lemma_argument_variables, lowered_application, lowered_value, names_bound,
};
use vstd::prelude::*;

verus! {

/// Lowers `value`. The wildcards have their places in `env` from position
/// `base` on; `seen` of them stand before `value`. Returns the leaf, and the
/// number of wildcards that stand before what follows `value`.
fn lower_value(value: &Value, env: &Environment, base: usize, seen: usize) -> (r: (Leaf, usize))
    requires
        names_bound(value_variables(*value), env@),
        base + seen + value_wildcards(*value) <= env@.len(),
    ensures
        r.0@ == lowered_value(*value, env@, base as nat, seen as nat),
        r.1 == seen + value_wildcards(*value),
    decreases value,
{
    match value {
        Value::Constant(c) => {
            let leaf = Leaf::Application(*c, Vec::new());
            assert(leaf@->Application_1 =~= Seq::empty());
            (leaf, seen)
        },
        Value::Variable(v) => {
            proof {
                assert(value_variables(*value)[0] == *v);
                lemma_depth_of(env@, *v);
            }
            match env.lookup(*v) {
                Some(depth) => (Leaf::BoundVariable(depth), seen),
                None => (Leaf::BoundVariable(0), seen),
            }
        },
        Value::Wildcard => (Leaf::BoundVariable(env.len() - 1 - (base + seen)), seen + 1),
        Value::Application(app) => lower_application(app, env, base, seen),
    }
}

/// Lowers `app` with its arguments, from left to right.
fn lower_application(app: &Application, env: &Environment, base: usize, seen: usize) -> (r: (
    Leaf,
    usize,
))
    requires
        names_bound(app.variables(), env@),
        base + seen + app.wildcards() <= env@.len(),
    ensures
        r.0@ == lowered_application(*app, env@, base as nat, seen as nat),
        r.1 == seen + app.wildcards(),
    decreases app,
{
    let mut args: Vec<Leaf> = Vec::new();
    let mut now: usize = seen;
    let mut i: usize = 0;
    while i < app.args.len()
        invariant
            i <= app.args.len(),
            args@.len() == i,
            names_bound(app.variables(), env@),
            base + seen + app.wildcards() <= env@.len(),
            now == seen + wildcards_upto(*app, i as nat),
            forall|j: int|
                0 <= j < i ==> (#[trigger] args@[j])@ == lowered_value(
                    app.args@[j],
                    env@,
                    base as nat,
                    (seen + wildcards_upto(*app, j as nat)) as nat,
                ),
        decreases app.args.len() - i,
    {
        proof {
            lemma_wildcards_upto_monotonic(*app, (i + 1) as nat, app.args@.len());
            assert(wildcards_upto(*app, (i + 1) as nat) == wildcards_upto(*app, i as nat)
                + value_wildcards(app.args@[i as int]));
            lemma_argument_variables(*app, i as int, app.args@.len());
        }
        let (leaf, next) = lower_value(&app.args[i], env, base, now);
        args.push(leaf);
        now = next;
        i = i + 1;
    }
    let leaf = Leaf::Application(app.constant, args);
    assert(leaf@->Application_1 =~= lowered_application(
        *app,
        env@,
        base as nat,
        seen as nat,
    )->Application_1);
    (leaf, now)
}

/// Tests that each variable of `app` has an entry in `env`.
pub fn application_is_scoped(app: &Application, env: &Environment) -> (b: bool)
    ensures
        b == names_bound(app.variables(), env@),
    decreases app,
{
    let mut i: usize = 0;
    while i < app.args.len()
        invariant
            i <= app.args.len(),
            names_bound(variables_upto(*app, i as nat), env@),
        decreases app.args.len() - i,
    {
        let ghost before = variables_upto(*app, i as nat);
        let ghost here = value_variables(app.args@[i as int]);
        assert(variables_upto(*app, (i + 1) as nat) == before + here);
        let bound = match &app.args[i] {
            Value::Variable(v) => {
                proof {
                    lemma_depth_of(env@, *v);
                    assert(here[0] == *v);
                }
                env.lookup(*v).is_some()
            },
            Value::Application(inner) => application_is_scoped(inner, env),
            _ => true,
        };
        if !bound {
            proof {
                lemma_argument_variables(*app, i as int, app.args@.len());
                if names_bound(app.variables(), env@) {
                    assert forall|k: int| 0 <= k < here.len() implies env@.contains(
                        BoundName::Named(#[trigger] here[k]),
                    ) by {
                        let j = choose|j: int|
                            0 <= j < app.variables().len() && app.variables()[j] == here[k];
                        assert(env@.contains(
                            BoundName::Named(app.variables()[j]),
                        ));
                    }
                }
            }
            return false;
        }
        proof {
            assert forall|k: int| 0 <= k < (before + here).len() implies env@.contains(
                BoundName::Named(#[trigger] (before + here)[k]),
            ) by {
                if k < before.len() {
                    assert((before + here)[k] == before[k]);
                } else {
                    assert((before + here)[k] == here[k - before.len()]);
                }
            }
        }
        i = i + 1;
    }
    true
}

/// Pushes one place for each wildcard of `app`. Returns their number.
pub fn push_wildcards_of(app: &Application, env: &mut Environment) -> (n: usize)
    ensures
        n == app.wildcards(),
        final(env)@ == old(env)@ + wildcard_names(app.wildcards()),
        final(env)@.len() <= usize::MAX,
    decreases app,
{
    let start = env.len();
    let mut i: usize = 0;
    assert(env@ =~= old(env)@ + wildcard_names(0));
    while i < app.args.len()
        invariant
            i <= app.args.len(),
            start == old(env)@.len(),
            env@ == old(env)@ + wildcard_names(wildcards_upto(*app, i as nat)),
        decreases app.args.len() - i,
    {
        let ghost before = wildcards_upto(*app, i as nat);
        assert(wildcards_upto(*app, (i + 1) as nat) == before + value_wildcards(app.args@[i as int]));
        match &app.args[i] {
            Value::Wildcard => {
                env.push_wildcards(1);
            },
            Value::Application(inner) => {
                push_wildcards_of(inner, env);
            },
            _ => {},
        }
        assert(env@ =~= old(env)@ + wildcard_names(wildcards_upto(*app, (i + 1) as nat)));
        i = i + 1;
    }
    env.len() - start
}

impl Application {
    /// Lowers the atomic formula to a leaf. Its wildcards must have been
    /// pushed: they have the innermost places of `env`, the first wildcard
    /// of the source the outermost of them.
    pub fn lower_leaf(&self, env: &Environment) -> (leaf: Leaf)
        requires
            names_bound(self.variables(), env@),
            self.wildcards() <= env@.len(),
            env@.subrange(env@.len() - self.wildcards(), env@.len() as int) == wildcard_names(
                self.wildcards(),
            ),
        ensures
            leaf@ == application_leaf(*self, env@),
    {
        let n = env.len();
        let k = self.count_wildcards();
        let (leaf, _) = lower_application(self, env, n - k, 0);
        leaf
    }
}

} // verus!
