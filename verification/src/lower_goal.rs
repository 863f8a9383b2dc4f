//! Lowering of facts and applications to goals.

use crate::ast::{Application, Fact, FactData};
use crate::environment::{wildcard_names, Environment};
use crate::formula::{Goal, GoalModel};
use crate::lower::{
    application_goal, fact_goal, fact_scoped, lemma_names_bound_extend, names_bound, Error,
    LowerResult,
};
use crate::lower_clause::lower_fact_clause;
use crate::lower_leaf::push_wildcards_of;
use vstd::prelude::*;

verus! {

/// What a lowering to a goal returned, as a model.
pub open spec fn goal_result(r: LowerResult<Goal>) -> Result<GoalModel, Error> {
    match r {
        Ok(g) => Ok(g@),
        Err(e) => Err(e),
    }
}

/// Lowers the atomic formula `app` to a goal: its leaf, under one
/// existential binder for each of its wildcards.
fn lower_application_goal(app: &Application, env: &mut Environment) -> (goal: Goal)
    requires
        names_bound(app.variables(), old(env)@),
    ensures
        final(env)@ == old(env)@,
        goal@ == application_goal(*app, old(env)@),
{
    let wildcards = push_wildcards_of(app, env);
    proof {
        lemma_names_bound_extend(app.variables(), old(env)@, wildcard_names(wildcards as nat));
    }
    assert(env@.subrange(env@.len() - app.wildcards(), env@.len() as int) =~= wildcard_names(
        app.wildcards(),
    ));
    let leaf = app.lower_leaf(env);
    let goal = Goal::Leaf(leaf).in_exists(wildcards);
    env.pop_wildcards(wildcards);
    assert(env@ =~= old(env)@);
    goal
}

/// Lowers `fact` to a goal, or returns the first error in the order of the
/// source. Whether it succeeds or fails, the names in scope are the same
/// afterwards as before.
pub fn lower_fact_goal(fact: &Fact, env: &mut Environment) -> (r: LowerResult<Goal>)
    requires
        fact_scoped(*fact, old(env)@),
    ensures
        final(env)@ == old(env)@,
        goal_result(r) == fact_goal(*fact, old(env)@),
    decreases fact,
{
    match &*fact.data {
        FactData::And(f1, f2) => {
            let g1 = match lower_fact_goal(f1, env) {
                Ok(g) => g,
                Err(e) => {
                    return Err(e);
                },
            };
            let g2 = match lower_fact_goal(f2, env) {
                Ok(g) => g,
                Err(e) => {
                    return Err(e);
                },
            };
            Ok(Goal::And(Box::new(g1), Box::new(g2)))
        },
        FactData::Or(f1, f2) => {
            let g1 = match lower_fact_goal(f1, env) {
                Ok(g) => g,
                Err(e) => {
                    return Err(e);
                },
            };
            let g2 = match lower_fact_goal(f2, env) {
                Ok(g) => g,
                Err(e) => {
                    return Err(e);
                },
            };
            Ok(Goal::Or(Box::new(g1), Box::new(g2)))
        },
        FactData::Implication(f1, f2) => {
            let hypothesis = match lower_fact_clause(f1, env) {
                Ok(c) => c,
                Err(e) => {
                    return Err(e);
                },
            };
            let goal = match lower_fact_goal(f2, env) {
                Ok(g) => g,
                Err(e) => {
                    return Err(e);
                },
            };
            Ok(Goal::Implication(Box::new(hypothesis), Box::new(goal)))
        },
        FactData::ForAll(v, f1) => {
            env.push_bound_name(*v);
            let lowered = lower_fact_goal(f1, env);
            env.pop_bound_name();
            assert(env@ =~= old(env)@);
            match lowered {
                Ok(g) => Ok(g.in_foralls(1)),
                Err(e) => Err(e),
            }
        },
        FactData::Exists(v, f1) => {
            env.push_bound_name(*v);
            let lowered = lower_fact_goal(f1, env);
            env.pop_bound_name();
            assert(env@ =~= old(env)@);
            match lowered {
                Ok(g) => Ok(g.in_exists(1)),
                Err(e) => Err(e),
            }
        },
        FactData::Apply(appl) => Ok(lower_application_goal(appl, env)),
    }
}

impl Application {
    /// Lowers the atomic formula to a goal: its leaf, under one existential
    /// binder for each of its wildcards. The names in scope are the same
    /// afterwards as before.
    pub fn lower_goal(&self, env: &mut Environment) -> (r: LowerResult<Goal>)
        requires
            names_bound(self.variables(), old(env)@),
        ensures
            final(env)@ == old(env)@,
            goal_result(r) == Ok::<GoalModel, Error>(application_goal(*self, old(env)@)),
    {
        Ok(lower_application_goal(self, env))
    }
}

impl Fact {
    /// Lowers the fact to a goal, or returns the first error in the order of
    /// the source. Whether it succeeds or fails, the names in scope are the
    /// same afterwards as before.
    pub fn lower_goal(&self, env: &mut Environment) -> (r: LowerResult<Goal>)
        requires
            fact_scoped(*self, old(env)@),
        ensures
            final(env)@ == old(env)@,
            goal_result(r) == fact_goal(*self, old(env)@),
    {
        lower_fact_goal(self, env)
    }
}

} // verus!
