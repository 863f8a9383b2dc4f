//! What lowering yields, stated over the parsed form and the names in scope:
//! the leaf of an application, the clause and the goal of a fact, the clause
//! of a rule and of an item, and the errors.

use crate::ast::{
    value_variables, variables_upto, wildcards_upto, without, Application, Fact, FactData, Item,
    Rule, Span, Value, Variable,
};
use crate::environment::{depth_of, named, wildcard_names, BoundName};
use crate::formula::{ClauseKindModel, ClauseModel, GoalModel, LeafModel};
use vstd::prelude::*;

verus! {

/// Why a formula cannot be lowered.
#[derive(Clone, Copy, PartialEq, Eq, Hash, Debug, Structural)]
pub enum ErrorKind {
    /// An existential quantifier stands where a clause is expected.
    ExistsInClause,
    /// A disjunction stands where a clause is expected.
    OrInClause,
}

/// An error, with the place of the formula that caused it.
#[derive(Clone, Copy, PartialEq, Eq, Hash, Debug, Structural)]
pub struct Error {
    pub span: Span,
    pub kind: ErrorKind,
}

/// What lowering returns: the lowered value, or the error.
pub type LowerResult<T> = Result<T, Error>;

/// The stack holds an entry for each name of `names`.
pub open spec fn names_bound(names: Seq<Variable>, env: Seq<BoundName>) -> bool {
    forall|i: int| 0 <= i < names.len() ==> env.contains(BoundName::Named(#[trigger] names[i]))
}

/// Every variable of `fact` is bound: by a quantifier of the fact around it,
/// or by an entry of the stack.
pub open spec fn fact_scoped(fact: Fact, env: Seq<BoundName>) -> bool
    decreases fact,
{
    match *fact.data {
        FactData::And(a, b) => fact_scoped(a, env) && fact_scoped(b, env),
        FactData::Or(a, b) => fact_scoped(a, env) && fact_scoped(b, env),
        FactData::Implication(a, b) => fact_scoped(a, env) && fact_scoped(b, env),
        FactData::ForAll(v, body) => fact_scoped(body, env.push(BoundName::Named(v))),
        FactData::Exists(v, body) => fact_scoped(body, env.push(BoundName::Named(v))),
        FactData::Apply(app) => names_bound(app.variables(), env),
    }
}

/// The leaf of `value`. A variable becomes its depth in `env`. The wildcards
/// have their places in `env` from position `base` on, in the order of the
/// source; `seen` of them stand before `value`.
pub open spec fn lowered_value(value: Value, env: Seq<BoundName>, base: nat, seen: nat) -> LeafModel
    decreases value,
{
    match value {
        Value::Constant(c) => LeafModel::Application(c, Seq::empty()),
        Value::Variable(v) => LeafModel::BoundVariable(depth_of(env, v).unwrap()),
        Value::Wildcard => LeafModel::BoundVariable((env.len() - 1 - (base + seen)) as nat),
        Value::Application(app) => lowered_application(app, env, base, seen),
    }
}

/// The leaf of `app`: its constant, applied to the leaves of its arguments.
pub open spec fn lowered_application(
    app: Application,
    env: Seq<BoundName>,
    base: nat,
    seen: nat,
) -> LeafModel
    decreases app,
{
    LeafModel::Application(
        app.constant,
        Seq::new(
            app.args@.len(),
            |i: int|
                if 0 <= i < app.args@.len() {
                    lowered_value(app.args@[i], env, base, seen + wildcards_upto(app, i as nat))
                } else {
                    arbitrary()
                },
        ),
    )
}

/// The leaf of the atomic formula `app`, when its wildcards have the
/// innermost places of `env`.
pub open spec fn application_leaf(app: Application, env: Seq<BoundName>) -> LeafModel {
    lowered_application(app, env, (env.len() - app.wildcards()) as nat, 0)
}

/// The clause of the atomic formula `app`: its leaf, under one universal
/// binder for each of its wildcards, which are bound right around it.
pub open spec fn application_clause(app: Application, env: Seq<BoundName>) -> ClauseModel {
    ClauseModel {
        foralls: app.wildcards(),
        kind: ClauseKindModel::Leaf(application_leaf(app, env + wildcard_names(app.wildcards()))),
    }
}

/// The goal of the atomic formula `app`: its leaf, under one existential
/// binder for each of its wildcards.
pub open spec fn application_goal(app: Application, env: Seq<BoundName>) -> GoalModel {
    GoalModel::Leaf(application_leaf(app, env + wildcard_names(app.wildcards()))).in_exists(
        app.wildcards(),
    )
}

/// The clause of `fact`, or the first error in the order of the source. An
/// existential quantifier and a disjunction are errors, each at the place of
/// the fact that holds it.
pub open spec fn fact_clause(fact: Fact, env: Seq<BoundName>) -> Result<ClauseModel, Error>
    decreases fact,
{
    match *fact.data {
        FactData::And(a, b) => match fact_clause(a, env) {
            Err(e) => Err(e),
            Ok(c1) => match fact_clause(b, env) {
                Err(e) => Err(e),
                Ok(c2) => Ok(ClauseModel { foralls: 0, kind: ClauseKindModel::And(seq![c1, c2]) }),
            },
        },
        FactData::Implication(condition, consequence) => match fact_goal(condition, env) {
            Err(e) => Err(e),
            Ok(g) => match fact_clause(consequence, env) {
                Err(e) => Err(e),
                Ok(c) => Ok(
                    ClauseModel { foralls: 0, kind: ClauseKindModel::Implication(g, Box::new(c)) },
                ),
            },
        },
        FactData::ForAll(v, body) => match fact_clause(body, env.push(BoundName::Named(v))) {
            Err(e) => Err(e),
            Ok(c) => Ok(c.in_foralls(1)),
        },
        FactData::Exists(_, _) => Err(Error { span: fact.span, kind: ErrorKind::ExistsInClause }),
        FactData::Apply(app) => Ok(application_clause(app, env)),
        FactData::Or(_, _) => Err(Error { span: fact.span, kind: ErrorKind::OrInClause }),
    }
}

/// The goal of `fact`, or the first error in the order of the source. The
/// hypothesis of an implication is a clause.
pub open spec fn fact_goal(fact: Fact, env: Seq<BoundName>) -> Result<GoalModel, Error>
    decreases fact,
{
    match *fact.data {
        FactData::And(a, b) => match fact_goal(a, env) {
            Err(e) => Err(e),
            Ok(g1) => match fact_goal(b, env) {
                Err(e) => Err(e),
                Ok(g2) => Ok(GoalModel::And(Box::new(g1), Box::new(g2))),
            },
        },
        FactData::Or(a, b) => match fact_goal(a, env) {
            Err(e) => Err(e),
            Ok(g1) => match fact_goal(b, env) {
                Err(e) => Err(e),
                Ok(g2) => Ok(GoalModel::Or(Box::new(g1), Box::new(g2))),
            },
        },
        FactData::Implication(hypothesis, goal) => match fact_clause(hypothesis, env) {
            Err(e) => Err(e),
            Ok(c) => match fact_goal(goal, env) {
                Err(e) => Err(e),
                Ok(g) => Ok(GoalModel::Implication(Box::new(c), Box::new(g))),
            },
        },
        FactData::ForAll(v, body) => match fact_goal(body, env.push(BoundName::Named(v))) {
            Err(e) => Err(e),
            Ok(g) => Ok(g.in_foralls(1)),
        },
        FactData::Exists(v, body) => match fact_goal(body, env.push(BoundName::Named(v))) {
            Err(e) => Err(e),
            Ok(g) => Ok(g.in_exists(1)),
        },
        FactData::Apply(app) => Ok(application_goal(app, env)),
    }
}

/// The clause of `rule`: its condition as a goal implies its consequence as
/// a clause.
pub open spec fn rule_clause(rule: Rule, env: Seq<BoundName>) -> Result<ClauseModel, Error> {
    match fact_goal(rule.condition, env) {
        Err(e) => Err(e),
        Ok(condition) => Ok(
            ClauseModel {
                foralls: 0,
                kind: ClauseKindModel::Implication(
                    condition,
                    Box::new(application_clause(rule.consequence, env)),
                ),
            },
        ),
    }
}

/// The clause of `item`: the clause of its fact or rule with the free
/// variables of the item in scope, under one universal binder for each of
/// them. The first free variable is the outermost.
pub open spec fn item_clause(item: Item, env: Seq<BoundName>) -> Result<ClauseModel, Error> {
    let scope = env + named(item.free_variables());
    let body = match item {
        Item::Fact(app) => Ok(application_clause(app, scope)),
        Item::Rule(rule) => rule_clause(rule, scope),
    };
    match body {
        Err(e) => Err(e),
        Ok(c) => Ok(c.in_foralls(item.free_variables().len())),
    }
}

/// `fact` has the form of a clause: no existential quantifier and no
/// disjunction stands where a clause is expected. The condition of an
/// implication is a goal, and may hold either.
pub open spec fn clause_formed(fact: Fact) -> bool
    decreases fact,
{
    match *fact.data {
        FactData::And(a, b) => clause_formed(a) && clause_formed(b),
        FactData::Implication(condition, consequence) => goal_formed(condition) && clause_formed(
            consequence,
        ),
        FactData::ForAll(_, body) => clause_formed(body),
        FactData::Exists(_, _) => false,
        FactData::Or(_, _) => false,
        FactData::Apply(_) => true,
    }
}

/// `fact` has the form of a goal: the hypothesis of each implication in it
/// has the form of a clause.
pub open spec fn goal_formed(fact: Fact) -> bool
    decreases fact,
{
    match *fact.data {
        FactData::And(a, b) => goal_formed(a) && goal_formed(b),
        FactData::Or(a, b) => goal_formed(a) && goal_formed(b),
        FactData::Implication(hypothesis, goal) => clause_formed(hypothesis) && goal_formed(goal),
        FactData::ForAll(_, body) => goal_formed(body),
        FactData::Exists(_, body) => goal_formed(body),
        FactData::Apply(_) => true,
    }
}

/// A fact is lowered to a clause exactly when it has the form of a clause;
/// else the error is `ExistsInClause` or `OrInClause`. A fact that is itself
/// an existential quantifier is rejected with `ExistsInClause`, and one that
/// is itself a disjunction with `OrInClause`, each at its own place.
pub proof fn lemma_clause_is_lowered_if_formed(fact: Fact, env: Seq<BoundName>)
    ensures
        fact_clause(fact, env) is Ok <==> clause_formed(fact),
        *fact.data is Exists ==> fact_clause(fact, env) == Err::<ClauseModel, Error>(
            Error { span: fact.span, kind: ErrorKind::ExistsInClause },
        ),
        *fact.data is Or ==> fact_clause(fact, env) == Err::<ClauseModel, Error>(
            Error { span: fact.span, kind: ErrorKind::OrInClause },
        ),
    decreases fact, 0nat,
{
    match *fact.data {
        FactData::And(a, b) => {
            lemma_clause_is_lowered_if_formed(a, env);
            lemma_clause_is_lowered_if_formed(b, env);
        },
        FactData::Implication(condition, consequence) => {
            lemma_goal_is_lowered_if_formed(condition, env);
            lemma_clause_is_lowered_if_formed(consequence, env);
        },
        FactData::ForAll(v, body) => {
            lemma_clause_is_lowered_if_formed(body, env.push(BoundName::Named(v)));
        },
        _ => {},
    }
}

/// A fact is lowered to a goal exactly when it has the form of a goal.
pub proof fn lemma_goal_is_lowered_if_formed(fact: Fact, env: Seq<BoundName>)
    ensures
        fact_goal(fact, env) is Ok <==> goal_formed(fact),
    decreases fact, 0nat,
{
    match *fact.data {
        FactData::And(a, b) | FactData::Or(a, b) => {
            lemma_goal_is_lowered_if_formed(a, env);
            lemma_goal_is_lowered_if_formed(b, env);
        },
        FactData::Implication(hypothesis, goal) => {
            lemma_clause_is_lowered_if_formed(hypothesis, env);
            lemma_goal_is_lowered_if_formed(goal, env);
        },
        FactData::ForAll(v, body) | FactData::Exists(v, body) => {
            lemma_goal_is_lowered_if_formed(body, env.push(BoundName::Named(v)));
        },
        FactData::Apply(_) => {},
    }
}

/// An item that is a fact is always lowered; one that is a rule is lowered
/// exactly when its condition has the form of a goal. The clause is under
/// one binder for each free variable of the item, and a fact is under one
/// more for each of its wildcards.
pub proof fn lemma_item_is_lowered_if_formed(item: Item, env: Seq<BoundName>)
    ensures
        item_clause(item, env) is Ok <==> match item {
            Item::Fact(_) => true,
            Item::Rule(rule) => goal_formed(rule.condition),
        },
        item_clause(item, env) matches Ok(c) ==> c.foralls == item.free_variables().len() + match item {
            Item::Fact(app) => app.wildcards(),
            Item::Rule(_) => 0,
        },
{
    match item {
        Item::Rule(rule) => {
            lemma_goal_is_lowered_if_formed(rule.condition, env + named(item.free_variables()));
        },
        _ => {},
    }
}

/// The two sides of a rule are lowered apart. The consequence becomes a
/// clause under one universal binder for each of its own wildcards, and
/// nothing of the condition enters it; the condition becomes a goal, which
/// binds its own wildcards inside, and nothing of the consequence enters it.
/// So a wildcard of the one side never stands for a wildcard of the other.
pub proof fn lemma_rule_sides_apart(rule: Rule, env: Seq<BoundName>)
    requires
        rule_clause(rule, env) is Ok,
    ensures
        rule_clause(rule, env)->Ok_0.foralls == 0,
        rule_clause(rule, env)->Ok_0.kind is Implication,
        Ok::<GoalModel, Error>(rule_clause(rule, env)->Ok_0.kind->Implication_0) == fact_goal(
            rule.condition,
            env,
        ),
        *rule_clause(rule, env)->Ok_0.kind->Implication_1 == application_clause(
            rule.consequence,
            env,
        ),
        application_clause(rule.consequence, env).foralls == rule.consequence.wildcards(),
{
}

/// The variables of an argument are among those of its application.
pub proof fn lemma_argument_variables(app: Application, i: int, n: nat)
    requires
        0 <= i < n <= app.args@.len(),
    ensures
        forall|k: int|
            0 <= k < value_variables(app.args@[i]).len() ==> variables_upto(app, n).contains(
                #[trigger] value_variables(app.args@[i])[k],
            ),
    decreases n,
{
    let here = value_variables(app.args@[n - 1]);
    let before = variables_upto(app, (n - 1) as nat);
    assert(variables_upto(app, n) == before + here);
    if i == n - 1 {
        assert forall|k: int| 0 <= k < here.len() implies variables_upto(app, n).contains(
            #[trigger] here[k],
        ) by {
            assert((before + here)[before.len() + k] == here[k]);
        }
    } else {
        lemma_argument_variables(app, i, (n - 1) as nat);
        let arg = value_variables(app.args@[i]);
        assert forall|k: int| 0 <= k < arg.len() implies variables_upto(app, n).contains(
            #[trigger] arg[k],
        ) by {
            let j = choose|j: int| 0 <= j < before.len() && before[j] == arg[k];
            assert((before + here)[j] == arg[k]);
        }
    }
}

/// Names that are bound stay bound when entries are pushed.
pub proof fn lemma_names_bound_extend(names: Seq<Variable>, env: Seq<BoundName>, more: Seq<BoundName>)
    requires
        names_bound(names, env),
    ensures
        names_bound(names, env + more),
{
    assert forall|i: int| 0 <= i < names.len() implies (env + more).contains(
        BoundName::Named(#[trigger] names[i]),
    ) by {
        let j = choose|j: int| 0 <= j < env.len() && env[j] == BoundName::Named(names[i]);
        assert((env + more)[j] == BoundName::Named(names[i]));
    }
}

/// A name that `without` keeps is a name of the list, and not one of those
/// left out; every other name of the list is left out.
pub proof fn lemma_without_contains(names: Seq<Variable>, bound: Seq<Variable>, v: Variable)
    ensures
        without(names, bound).contains(v) <==> names.contains(v) && !bound.contains(v),
    decreases names.len(),
{
    if names.len() > 0 {
        let rest = without(names.drop_last(), bound);
        lemma_without_contains(names.drop_last(), bound, v);
        if names.contains(v) {
            let i = choose|i: int| 0 <= i < names.len() && names[i] == v;
            if i < names.len() - 1 {
                assert(names.drop_last()[i] == v);
            }
        }
        if names.drop_last().contains(v) {
            let i = choose|i: int| 0 <= i < names.drop_last().len() && names.drop_last()[i] == v;
            assert(names[i] == v);
        }
        if v == names.last() {
            assert(names[names.len() - 1] == v);
        }
        if !bound.contains(names.last()) {
            if rest.push(names.last()).contains(v) {
                let i = choose|i: int|
                    0 <= i < rest.push(names.last()).len() && rest.push(names.last())[i] == v;
                if i < rest.len() {
                    assert(rest[i] == v);
                }
            }
            if rest.contains(v) {
                let i = choose|i: int| 0 <= i < rest.len() && rest[i] == v;
                assert(rest.push(names.last())[i] == v);
            }
            if v == names.last() {
                assert(rest.push(names.last())[rest.len() as int] == v);
            }
        }
    }
}

/// A fact is scoped in a stack that holds its free variables and the names
/// bound around it.
pub proof fn lemma_fact_scoped(fact: Fact, bound: Seq<Variable>, env: Seq<BoundName>)
    requires
        names_bound(fact.free_variables(bound), env),
        names_bound(bound, env),
    ensures
        fact_scoped(fact, env),
    decreases fact,
{
    match *fact.data {
        FactData::And(a, b) | FactData::Or(a, b) | FactData::Implication(a, b) => {
            let fa = a.free_variables(bound);
            let fb = b.free_variables(bound);
            assert forall|i: int| 0 <= i < fa.len() implies env.contains(
                BoundName::Named(#[trigger] fa[i]),
            ) by {
                assert((fa + fb)[i] == fa[i]);
            }
            assert forall|i: int| 0 <= i < fb.len() implies env.contains(
                BoundName::Named(#[trigger] fb[i]),
            ) by {
                assert((fa + fb)[fa.len() + i] == fb[i]);
            }
            lemma_fact_scoped(a, bound, env);
            lemma_fact_scoped(b, bound, env);
        },
        FactData::ForAll(v, body) | FactData::Exists(v, body) => {
            let inner = env.push(BoundName::Named(v));
            assert(inner =~= env + seq![BoundName::Named(v)]);
            lemma_names_bound_extend(body.free_variables(bound.push(v)), env, seq![BoundName::Named(v)]);
            assert forall|i: int| 0 <= i < bound.push(v).len() implies inner.contains(
                BoundName::Named(#[trigger] bound.push(v)[i]),
            ) by {
                if i < bound.len() {
                    let j = choose|j: int|
                        0 <= j < env.len() && env[j] == BoundName::Named(bound[i]);
                    assert(inner[j] == BoundName::Named(bound[i]));
                } else {
                    assert(inner[env.len() as int] == BoundName::Named(v));
                }
            }
            lemma_fact_scoped(body, bound.push(v), inner);
        },
        FactData::Apply(app) => {
            let names = app.variables();
            assert forall|i: int| 0 <= i < names.len() implies env.contains(
                BoundName::Named(#[trigger] names[i]),
            ) by {
                lemma_without_contains(names, bound, names[i]);
                if bound.contains(names[i]) {
                    let j = choose|j: int| 0 <= j < bound.len() && bound[j] == names[i];
                    assert(env.contains(BoundName::Named(bound[j])));
                } else {
                    let kept = without(names, bound);
                    let j = choose|j: int| 0 <= j < kept.len() && kept[j] == names[i];
                    assert(env.contains(BoundName::Named(kept[j])));
                }
            }
        },
    }
}

} // verus!
