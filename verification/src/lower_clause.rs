//! Lowering of items, rules, facts and applications to clauses.

use crate::ast::{lemma_add_distinct_contains, Application, Fact, FactData, Item, Rule, Variable};
use crate::environment::{named, wildcard_names, BoundName, Environment};
use crate::formula::{Clause, ClauseKind, ClauseModel};
use crate::lower::{
    application_clause, fact_clause, fact_scoped, item_clause, lemma_fact_scoped,
    lemma_names_bound_extend, names_bound, rule_clause, Error, ErrorKind, LowerResult,
};
use crate::lower_goal::lower_fact_goal;
use crate::lower_leaf::{application_is_scoped, push_wildcards_of};
use vstd::prelude::*;

verus! {

/// What a lowering to a clause returned, as a model.
pub open spec fn clause_result(r: LowerResult<Clause>) -> Result<ClauseModel, Error> {
    match r {
        Ok(c) => Ok(c@),
        Err(e) => Err(e),
    }
}

/// A formula that can be lowered to a clause.
pub trait LowerClause {
    /// The formula can be lowered with the names `env` in scope: each of its
    /// variables is bound, by a quantifier around it or by a name in scope.
    spec fn lowers_in(&self, env: Seq<BoundName>) -> bool;

    /// The clause of the formula with the names `env` in scope, or the error.
    spec fn lowered(&self, env: Seq<BoundName>) -> Result<ClauseModel, Error>;

    /// Tests that the formula can be lowered with the names of `env` in
    /// scope. The names in scope are the same afterwards as before.
    fn lowers(&self, env: &mut Environment) -> (b: bool)
        ensures
            final(env)@ == old(env)@,
            b == self.lowers_in(old(env)@),
    ;

    /// Lowers the formula to a clause. Whether it succeeds or fails, the
    /// names in scope are the same afterwards as before.
    fn lower_clause(&self, env: &mut Environment) -> (r: LowerResult<Clause>)
        requires
            self.lowers_in(old(env)@),
        ensures
            final(env)@ == old(env)@,
            clause_result(r) == self.lowered(old(env)@),
    ;
}

/// Lowers the atomic formula `app` to a clause: its leaf, under one universal
/// binder for each of its wildcards.
fn lower_application_clause(app: &Application, env: &mut Environment) -> (clause: Clause)
    requires
        names_bound(app.variables(), old(env)@),
    ensures
        final(env)@ == old(env)@,
        clause@ == application_clause(*app, old(env)@),
        old(env)@.len() + clause@.foralls <= usize::MAX,
{
    // The wildcards are bound right around the atomic formula.
    let wildcards = push_wildcards_of(app, env);
    proof {
        lemma_names_bound_extend(app.variables(), old(env)@, wildcard_names(wildcards as nat));
    }
    assert(env@.subrange(env@.len() - app.wildcards(), env@.len() as int) =~= wildcard_names(
        app.wildcards(),
    ));
    let leaf = app.lower_leaf(env);
    let clause = Clause::new(ClauseKind::Leaf(leaf));
    let clause = clause.in_foralls(wildcards);
    env.pop_wildcards(wildcards);
    assert(env@ =~= old(env)@);
    clause
}

/// Tests that each variable of `fact` is bound, by a quantifier of the fact
/// around it or by a name in scope.
pub fn fact_is_scoped(fact: &Fact, env: &mut Environment) -> (b: bool)
    ensures
        final(env)@ == old(env)@,
        b == fact_scoped(*fact, old(env)@),
    decreases fact,
{
    match &*fact.data {
        FactData::And(a, b) | FactData::Or(a, b) | FactData::Implication(a, b) => {
            fact_is_scoped(a, env) && fact_is_scoped(b, env)
        },
        FactData::ForAll(v, body) | FactData::Exists(v, body) => {
            env.push_bound_name(*v);
            let scoped = fact_is_scoped(body, env);
            env.pop_bound_name();
            assert(env@ =~= old(env)@);
            scoped
        },
        FactData::Apply(app) => application_is_scoped(app, env),
    }
}

/// Lowers `fact` to a clause, or returns the first error in the order of the
/// source. Whether it succeeds or fails, the names in scope are the same
/// afterwards as before.
pub fn lower_fact_clause(fact: &Fact, env: &mut Environment) -> (r: LowerResult<Clause>)
    requires
        fact_scoped(*fact, old(env)@),
    ensures
        final(env)@ == old(env)@,
        clause_result(r) == fact_clause(*fact, old(env)@),
        r matches Ok(c) ==> old(env)@.len() + c@.foralls <= usize::MAX,
    decreases fact,
{
    match &*fact.data {
        FactData::And(f1, f2) => {
            let c1 = match lower_fact_clause(f1, env) {
                Ok(c) => c,
                Err(e) => {
                    return Err(e);
                },
            };
            let c2 = match lower_fact_clause(f2, env) {
                Ok(c) => c,
                Err(e) => {
                    return Err(e);
                },
            };
            let ghost m1 = c1@;
            let ghost m2 = c2@;
            let mut both: Vec<Clause> = Vec::new();
            both.push(c1);
            both.push(c2);
            let clause = Clause::new(ClauseKind::And(both));
            assert(clause@.kind->And_0 =~= seq![m1, m2]);
            Ok(clause)
        },
        FactData::Implication(f1, f2) => {
            let condition = match lower_fact_goal(f1, env) {
                Ok(g) => g,
                Err(e) => {
                    return Err(e);
                },
            };
            let consequence = match lower_fact_clause(f2, env) {
                Ok(c) => c,
                Err(e) => {
                    return Err(e);
                },
            };
            Ok(Clause::new(ClauseKind::Implication(condition, Box::new(consequence))))
        },
        FactData::ForAll(v, f1) => {
            env.push_bound_name(*v);
            let lowered = lower_fact_clause(f1, env);
            env.pop_bound_name();
            assert(env@ =~= old(env)@);
            match lowered {
                Ok(c) => Ok(c.in_foralls(1)),
                Err(e) => Err(e),
            }
        },
        FactData::Exists(_, _) => Err(Error { span: fact.span, kind: ErrorKind::ExistsInClause }),
        FactData::Apply(appl) => Ok(lower_application_clause(appl, env)),
        FactData::Or(_, _) => Err(Error { span: fact.span, kind: ErrorKind::OrInClause }),
    }
}

impl LowerClause for Item {
    open spec fn lowers_in(&self, env: Seq<BoundName>) -> bool {
        true
    }

    open spec fn lowered(&self, env: Seq<BoundName>) -> Result<ClauseModel, Error> {
        item_clause(*self, env)
    }

    fn lowers(&self, env: &mut Environment) -> (b: bool) {
        true
    }

    fn lower_clause(&self, env: &mut Environment) -> (r: LowerResult<Clause>) {
        // Bring the free variables into scope, the wildcards left aside: a
        // free variable is bound once, around the whole item, while a
        // wildcard is bound right around the atomic formula that holds it.
        let names = self.collect_free_variables();
        let count = names.len();
        let mut i: usize = 0;
        assert(env@ =~= old(env)@ + named(names@.take(0)));
        while i < count
            invariant
                i <= count,
                count == names@.len(),
                env@ == old(env)@ + named(names@.take(i as int)),
            decreases count - i,
        {
            env.push_bound_name(names[i]);
            i = i + 1;
            assert(env@ =~= old(env)@ + named(names@.take(i as int)));
        }
        assert(names@.take(count as int) == names@);
        let ghost scope = env@;
        proof {
            lemma_item_scoped(*self, old(env)@);
        }

        let lowered = match self {
            Item::Fact(appl) => Ok(lower_application_clause(appl, env)),
            Item::Rule(rule) => lower_rule_clause(rule, env),
        };

        let mut i: usize = 0;
        while i < count
            invariant
                i <= count,
                count == names@.len(),
                env@ == scope.take(scope.len() - i),
                scope == old(env)@ + named(names@),
            decreases count - i,
        {
            env.pop_bound_name();
            i = i + 1;
            assert(env@ =~= scope.take(scope.len() - i));
        }
        assert(env@ =~= old(env)@);

        match lowered {
            Ok(clause) => Ok(clause.in_foralls(count)),
            Err(e) => Err(e),
        }
    }
}

/// With the free variables of an item in scope, each variable of the item is
/// bound.
pub proof fn lemma_item_scoped(item: Item, env: Seq<BoundName>)
    ensures
        match item {
            Item::Fact(app) => names_bound(app.variables(), env + named(item.free_variables())),
            Item::Rule(rule) => names_bound(
                rule.consequence.variables(),
                env + named(item.free_variables()),
            ) && fact_scoped(rule.condition, env + named(item.free_variables())),
        },
{
    let free = item.free_variables();
    let scope = env + named(free);
    let occurrences = item.free_occurrences();
    assert forall|v: Variable| occurrences.contains(v) implies scope.contains(
        BoundName::Named(v),
    ) by {
        lemma_add_distinct_contains(Seq::empty(), occurrences, v);
        let j = choose|j: int| 0 <= j < free.len() && free[j] == v;
        assert(scope[env.len() + j] == BoundName::Named(v));
    }
    match item {
        Item::Fact(app) => {
            assert forall|i: int| 0 <= i < app.variables().len() implies scope.contains(
                BoundName::Named(#[trigger] app.variables()[i]),
            ) by {
                assert(occurrences[i] == app.variables()[i]);
                assert(occurrences.contains(app.variables()[i]));
            }
        },
        Item::Rule(rule) => {
            let head = rule.consequence.variables();
            let body = rule.condition.free_variables(Seq::empty());
            assert forall|i: int| 0 <= i < head.len() implies scope.contains(
                BoundName::Named(#[trigger] head[i]),
            ) by {
                assert(occurrences[i] == head[i]);
                assert(occurrences.contains(head[i]));
            }
            assert forall|i: int| 0 <= i < body.len() implies scope.contains(
                BoundName::Named(#[trigger] body[i]),
            ) by {
                assert(occurrences[head.len() + i] == body[i]);
                assert(occurrences.contains(body[i]));
            }
            lemma_fact_scoped(rule.condition, Seq::empty(), scope);
        },
    }
}

/// Lowers `rule` to a clause: its condition as a goal implies its
/// consequence as a clause.
fn lower_rule_clause(rule: &Rule, env: &mut Environment) -> (r: LowerResult<Clause>)
    requires
        names_bound(rule.consequence.variables(), old(env)@),
        fact_scoped(rule.condition, old(env)@),
    ensures
        final(env)@ == old(env)@,
        clause_result(r) == rule_clause(*rule, old(env)@),
        r matches Ok(c) ==> c@.foralls == 0,
{
    let consequence = lower_application_clause(&rule.consequence, env);
    let condition = match lower_fact_goal(&rule.condition, env) {
        Ok(g) => g,
        Err(e) => {
            return Err(e);
        },
    };
    Ok(Clause::new(ClauseKind::Implication(condition, Box::new(consequence))))
}

impl LowerClause for Application {
    open spec fn lowers_in(&self, env: Seq<BoundName>) -> bool {
        names_bound(self.variables(), env)
    }

    open spec fn lowered(&self, env: Seq<BoundName>) -> Result<ClauseModel, Error> {
        Ok(application_clause(*self, env))
    }

    fn lowers(&self, env: &mut Environment) -> (b: bool) {
        application_is_scoped(self, env)
    }

    fn lower_clause(&self, env: &mut Environment) -> (r: LowerResult<Clause>) {
        Ok(lower_application_clause(self, env))
    }
}

impl LowerClause for Rule {
    open spec fn lowers_in(&self, env: Seq<BoundName>) -> bool {
        names_bound(self.consequence.variables(), env) && fact_scoped(self.condition, env)
    }

    open spec fn lowered(&self, env: Seq<BoundName>) -> Result<ClauseModel, Error> {
        rule_clause(*self, env)
    }

    fn lowers(&self, env: &mut Environment) -> (b: bool) {
        application_is_scoped(&self.consequence, env) && fact_is_scoped(&self.condition, env)
    }

    fn lower_clause(&self, env: &mut Environment) -> (r: LowerResult<Clause>) {
        lower_rule_clause(self, env)
    }
}

impl LowerClause for Fact {
    open spec fn lowers_in(&self, env: Seq<BoundName>) -> bool {
        fact_scoped(*self, env)
    }

    open spec fn lowered(&self, env: Seq<BoundName>) -> Result<ClauseModel, Error> {
        fact_clause(*self, env)
    }

    fn lowers(&self, env: &mut Environment) -> (b: bool) {
        fact_is_scoped(self, env)
    }

    fn lower_clause(&self, env: &mut Environment) -> (r: LowerResult<Clause>) {
        lower_fact_clause(self, env)
    }
}

} // verus!
