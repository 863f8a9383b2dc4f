//! Substitution of parameters for the bound variables of a value, and the
//! test that a value has no bound variable outside a binder list.

use crate::ir::{
    parameter_models, placeholder_models, DomainGoal, DomainGoalModel, FromEnv, FromEnvModel, Goal,
    GoalModel, ImplicationModel, Parameter, ParameterModel, ProgramClauseImplication, TraitId,
    TraitRef, TraitRefModel, Ty, TyModel, Variable, VariableKind, WellFormed, WellFormedModel,
};
use vstd::prelude::*;

verus! {

/// `v` with a bound variable `i` replaced by the variable `with[i]` holds,
/// where `with[i]` is a parameter of kind `kind`; any other variable stays.
pub open spec fn variable_substituted(
    v: Variable,
    kind: VariableKind,
    with: Seq<ParameterModel>,
) -> Variable {
    match v {
        Variable::Bound(i) => if i < with.len() {
            match with[i as int] {
                ParameterModel::Lifetime(w) => if kind == VariableKind::Lifetime {
                    w
                } else {
                    v
                },
                ParameterModel::Const(w) => if kind == VariableKind::Const {
                    w
                } else {
                    v
                },
                ParameterModel::Ty(_) => v,
            }
        } else {
            v
        },
        _ => v,
    }
}

/// `t` with each bound type variable `i` replaced by the type `with[i]`, and
/// likewise for the lifetimes and constants inside it.
pub open spec fn ty_substituted(t: TyModel, with: Seq<ParameterModel>) -> TyModel
    decreases t,
{
    match t {
        TyModel::Apply(name, ps) => TyModel::Apply(
            name,
            Seq::new(
                ps.len(),
                |i: int|
                    if 0 <= i < ps.len() {
                        parameter_substituted(ps[i], with)
                    } else {
                        arbitrary()
                    },
            ),
        ),
        TyModel::Alias(id, ps) => TyModel::Alias(
            id,
            Seq::new(
                ps.len(),
                |i: int|
                    if 0 <= i < ps.len() {
                        parameter_substituted(ps[i], with)
                    } else {
                        arbitrary()
                    },
            ),
        ),
        TyModel::Function(ps) => TyModel::Function(
            Seq::new(
                ps.len(),
                |i: int|
                    if 0 <= i < ps.len() {
                        parameter_substituted(ps[i], with)
                    } else {
                        arbitrary()
                    },
            ),
        ),
        TyModel::BoundVar(i) => if i < with.len() {
            match with[i as int] {
                ParameterModel::Ty(w) => w,
                _ => t,
            }
        } else {
            t
        },
        TyModel::Placeholder(_) => t,
        TyModel::InferenceVar(_) => t,
        TyModel::Dyn(_) => t,
    }
}

/// `p` with each bound variable `i` replaced by what `with[i]` holds.
pub open spec fn parameter_substituted(p: ParameterModel, with: Seq<ParameterModel>) -> ParameterModel
    decreases p,
{
    match p {
        ParameterModel::Ty(t) => ParameterModel::Ty(ty_substituted(t, with)),
        ParameterModel::Lifetime(v) => ParameterModel::Lifetime(
            variable_substituted(v, VariableKind::Lifetime, with),
        ),
        ParameterModel::Const(v) => ParameterModel::Const(
            variable_substituted(v, VariableKind::Const, with),
        ),
    }
}

/// Each parameter of `ps` substituted.
pub open spec fn parameters_substituted(
    ps: Seq<ParameterModel>,
    with: Seq<ParameterModel>,
) -> Seq<ParameterModel> {
    Seq::new(ps.len(), |i: int| parameter_substituted(ps[i], with))
}

/// `tr` with each bound variable `i` replaced by what `with[i]` holds.
pub open spec fn trait_ref_substituted(tr: TraitRefModel, with: Seq<ParameterModel>) -> TraitRefModel {
    TraitRefModel { trait_id: tr.trait_id, parameters: parameters_substituted(tr.parameters, with) }
}

/// `d` with each bound variable `i` replaced by what `with[i]` holds.
pub open spec fn domain_goal_substituted(
    d: DomainGoalModel,
    with: Seq<ParameterModel>,
) -> DomainGoalModel {
    match d {
        DomainGoalModel::Holds(tr) => DomainGoalModel::Holds(trait_ref_substituted(tr, with)),
        DomainGoalModel::WellFormed(WellFormedModel::Trait(tr)) => DomainGoalModel::WellFormed(
            WellFormedModel::Trait(trait_ref_substituted(tr, with)),
        ),
        DomainGoalModel::WellFormed(WellFormedModel::Ty(t)) => DomainGoalModel::WellFormed(
            WellFormedModel::Ty(ty_substituted(t, with)),
        ),
        DomainGoalModel::FromEnv(FromEnvModel::Trait(tr)) => DomainGoalModel::FromEnv(
            FromEnvModel::Trait(trait_ref_substituted(tr, with)),
        ),
        DomainGoalModel::FromEnv(FromEnvModel::Ty(t)) => DomainGoalModel::FromEnv(
            FromEnvModel::Ty(ty_substituted(t, with)),
        ),
    }
}

/// `g` with each bound variable `i` replaced by what `with[i]` holds.
pub open spec fn goal_substituted(g: GoalModel, with: Seq<ParameterModel>) -> GoalModel
    decreases g,
{
    match g {
        GoalModel::DomainGoal(d) => GoalModel::DomainGoal(domain_goal_substituted(d, with)),
        GoalModel::Not(inner) => GoalModel::Not(Box::new(goal_substituted(*inner, with))),
        GoalModel::All(gs) => GoalModel::All(
            Seq::new(
                gs.len(),
                |i: int|
                    if 0 <= i < gs.len() {
                        goal_substituted(gs[i], with)
                    } else {
                        arbitrary()
                    },
            ),
        ),
    }
}

/// Each goal of `gs` substituted.
pub open spec fn goals_substituted(gs: Seq<GoalModel>, with: Seq<ParameterModel>) -> Seq<GoalModel> {
    Seq::new(gs.len(), |i: int| goal_substituted(gs[i], with))
}

/// `imp` with each bound variable `i` replaced by what `with[i]` holds, in
/// the consequence and in each condition.
pub open spec fn implication_substituted(
    imp: ImplicationModel,
    with: Seq<ParameterModel>,
) -> ImplicationModel {
    ImplicationModel {
        consequence: domain_goal_substituted(imp.consequence, with),
        conditions: goals_substituted(imp.conditions, with),
    }
}

/// A bound variable `v` used as a parameter of kind `kind` refers to a binder
/// of `binders`, and to one of that kind.
pub open spec fn variable_closed(v: Variable, kind: VariableKind, binders: Seq<VariableKind>) -> bool {
    match v {
        Variable::Bound(i) => i < binders.len() && binders[i as int] == kind,
        _ => true,
    }
}

/// Every bound variable of `t` refers to a binder of `binders` of its kind.
pub open spec fn ty_closed(t: TyModel, binders: Seq<VariableKind>) -> bool
    decreases t,
{
    match t {
        TyModel::Apply(_, ps) => forall|i: int|
            0 <= i < ps.len() ==> parameter_closed(#[trigger] ps[i], binders),
        TyModel::Alias(_, ps) => forall|i: int|
            0 <= i < ps.len() ==> parameter_closed(#[trigger] ps[i], binders),
        TyModel::Function(ps) => forall|i: int|
            0 <= i < ps.len() ==> parameter_closed(#[trigger] ps[i], binders),
        TyModel::BoundVar(i) => i < binders.len() && binders[i as int] == VariableKind::Ty,
        TyModel::Placeholder(_) => true,
        TyModel::InferenceVar(_) => true,
        TyModel::Dyn(_) => true,
    }
}

/// Every bound variable of `p` refers to a binder of `binders` of its kind.
pub open spec fn parameter_closed(p: ParameterModel, binders: Seq<VariableKind>) -> bool
    decreases p,
{
    match p {
        ParameterModel::Ty(t) => ty_closed(t, binders),
        ParameterModel::Lifetime(v) => variable_closed(v, VariableKind::Lifetime, binders),
        ParameterModel::Const(v) => variable_closed(v, VariableKind::Const, binders),
    }
}

/// Every bound variable of each parameter of `ps` refers to a binder of
/// `binders` of its kind.
pub open spec fn parameters_closed(ps: Seq<ParameterModel>, binders: Seq<VariableKind>) -> bool {
    forall|i: int| 0 <= i < ps.len() ==> parameter_closed(#[trigger] ps[i], binders)
}

/// Every bound variable of `tr` refers to a binder of `binders` of its kind.
pub open spec fn trait_ref_closed(tr: TraitRefModel, binders: Seq<VariableKind>) -> bool {
    parameters_closed(tr.parameters, binders)
}

/// Every bound variable of `d` refers to a binder of `binders` of its kind.
pub open spec fn domain_goal_closed(d: DomainGoalModel, binders: Seq<VariableKind>) -> bool {
    match d {
        DomainGoalModel::Holds(tr) => trait_ref_closed(tr, binders),
        DomainGoalModel::WellFormed(WellFormedModel::Trait(tr)) => trait_ref_closed(tr, binders),
        DomainGoalModel::WellFormed(WellFormedModel::Ty(t)) => ty_closed(t, binders),
        DomainGoalModel::FromEnv(FromEnvModel::Trait(tr)) => trait_ref_closed(tr, binders),
        DomainGoalModel::FromEnv(FromEnvModel::Ty(t)) => ty_closed(t, binders),
    }
}

/// Every bound variable of `g` refers to a binder of `binders` of its kind.
pub open spec fn goal_closed(g: GoalModel, binders: Seq<VariableKind>) -> bool
    decreases g,
{
    match g {
        GoalModel::DomainGoal(d) => domain_goal_closed(d, binders),
        GoalModel::Not(inner) => goal_closed(*inner, binders),
        GoalModel::All(gs) => forall|i: int|
            0 <= i < gs.len() ==> goal_closed(#[trigger] gs[i], binders),
    }
}

/// Every bound variable of each goal of `gs` refers to a binder of `binders`
/// of its kind.
pub open spec fn goals_closed(gs: Seq<GoalModel>, binders: Seq<VariableKind>) -> bool {
    forall|i: int| 0 <= i < gs.len() ==> goal_closed(#[trigger] gs[i], binders)
}

/// Every bound variable of `imp` refers to a binder of `binders` of its
/// kind.
pub open spec fn implication_closed(imp: ImplicationModel, binders: Seq<VariableKind>) -> bool {
    domain_goal_closed(imp.consequence, binders) && goals_closed(imp.conditions, binders)
}

/// A type that refers only to binders of `binders` does so when more binders
/// are pushed after them: its bound variables mean the same binders.
pub proof fn lemma_ty_closed_extends(t: TyModel, binders: Seq<VariableKind>, more: Seq<VariableKind>)
    requires
        ty_closed(t, binders),
    ensures
        ty_closed(t, binders + more),
    decreases t,
{
    match t {
        TyModel::Apply(_, ps) | TyModel::Alias(_, ps) | TyModel::Function(ps) => {
            assert forall|i: int| 0 <= i < ps.len() implies parameter_closed(
                #[trigger] ps[i],
                binders + more,
            ) by {
                lemma_parameter_closed_extends(ps[i], binders, more);
            }
        },
        _ => {},
    }
}

/// A parameter that refers only to binders of `binders` does so when more
/// binders are pushed after them.
pub proof fn lemma_parameter_closed_extends(
    p: ParameterModel,
    binders: Seq<VariableKind>,
    more: Seq<VariableKind>,
)
    requires
        parameter_closed(p, binders),
    ensures
        parameter_closed(p, binders + more),
    decreases p,
{
    match p {
        ParameterModel::Ty(t) => {
            lemma_ty_closed_extends(t, binders, more);
        },
        _ => {},
    }
}

/// A consequence that refers only to binders of `binders` does so when more
/// binders are pushed after them.
pub proof fn lemma_domain_goal_closed_extends(
    d: DomainGoalModel,
    binders: Seq<VariableKind>,
    more: Seq<VariableKind>,
)
    requires
        domain_goal_closed(d, binders),
    ensures
        domain_goal_closed(d, binders + more),
{
    match d {
        DomainGoalModel::Holds(tr)
        | DomainGoalModel::WellFormed(WellFormedModel::Trait(tr))
        | DomainGoalModel::FromEnv(FromEnvModel::Trait(tr)) => {
            assert forall|i: int| 0 <= i < tr.parameters.len() implies parameter_closed(
                #[trigger] tr.parameters[i],
                binders + more,
            ) by {
                lemma_parameter_closed_extends(tr.parameters[i], binders, more);
            }
        },
        DomainGoalModel::WellFormed(WellFormedModel::Ty(t))
        | DomainGoalModel::FromEnv(FromEnvModel::Ty(t)) => {
            lemma_ty_closed_extends(t, binders, more);
        },
    }
}

/// A goal that refers only to binders of `binders` does so when more binders
/// are pushed after them.
pub proof fn lemma_goal_closed_extends(g: GoalModel, binders: Seq<VariableKind>, more: Seq<VariableKind>)
    requires
        goal_closed(g, binders),
    ensures
        goal_closed(g, binders + more),
    decreases g,
{
    match g {
        GoalModel::DomainGoal(d) => {
            lemma_domain_goal_closed_extends(d, binders, more);
        },
        GoalModel::Not(inner) => {
            lemma_goal_closed_extends(*inner, binders, more);
        },
        GoalModel::All(gs) => {
            assert forall|i: int| 0 <= i < gs.len() implies goal_closed(
                #[trigger] gs[i],
                binders + more,
            ) by {
                lemma_goal_closed_extends(gs[i], binders, more);
            }
        },
    }
}

/// An implication that refers only to binders of `binders` does so when more
/// binders are pushed after them: what was built before a push stays valid
/// after it.
pub proof fn lemma_implication_closed_extends(
    imp: ImplicationModel,
    binders: Seq<VariableKind>,
    more: Seq<VariableKind>,
)
    requires
        implication_closed(imp, binders),
    ensures
        implication_closed(imp, binders + more),
{
    lemma_domain_goal_closed_extends(imp.consequence, binders, more);
    assert forall|i: int| 0 <= i < imp.conditions.len() implies goal_closed(
        #[trigger] imp.conditions[i],
        binders + more,
    ) by {
        lemma_goal_closed_extends(imp.conditions[i], binders, more);
    }
}

/// A type under `binders`, with the placeholders of `binders` in place of its
/// bound variables, refers only to binders of the scope with `binders` at its
/// end.
pub proof fn lemma_ty_substituted_closed(
    t: TyModel,
    binders: Seq<VariableKind>,
    scope: Seq<VariableKind>,
)
    requires
        ty_closed(t, binders),
        scope.len() + binders.len() <= usize::MAX,
    ensures
        ty_closed(ty_substituted(t, placeholder_models(binders, scope.len())), scope + binders),
    decreases t,
{
    let with = placeholder_models(binders, scope.len());
    match t {
        TyModel::Apply(_, ps) | TyModel::Alias(_, ps) | TyModel::Function(ps) => {
            assert forall|i: int| 0 <= i < ps.len() implies parameter_closed(
                parameter_substituted(#[trigger] ps[i], with),
                scope + binders,
            ) by {
                lemma_parameter_substituted_closed(ps[i], binders, scope);
            }
        },
        _ => {},
    }
}

/// A parameter under `binders`, with the placeholders of `binders` in place
/// of its bound variables, refers only to binders of the scope with
/// `binders` at its end.
pub proof fn lemma_parameter_substituted_closed(
    p: ParameterModel,
    binders: Seq<VariableKind>,
    scope: Seq<VariableKind>,
)
    requires
        parameter_closed(p, binders),
        scope.len() + binders.len() <= usize::MAX,
    ensures
        parameter_closed(
            parameter_substituted(p, placeholder_models(binders, scope.len())),
            scope + binders,
        ),
    decreases p,
{
    match p {
        ParameterModel::Ty(t) => {
            lemma_ty_substituted_closed(t, binders, scope);
        },
        _ => {},
    }
}

/// A consequence under `binders`, with the placeholders of `binders` in
/// place of its bound variables, refers only to binders of the scope with
/// `binders` at its end.
pub proof fn lemma_domain_goal_substituted_closed(
    d: DomainGoalModel,
    binders: Seq<VariableKind>,
    scope: Seq<VariableKind>,
)
    requires
        domain_goal_closed(d, binders),
        scope.len() + binders.len() <= usize::MAX,
    ensures
        domain_goal_closed(
            domain_goal_substituted(d, placeholder_models(binders, scope.len())),
            scope + binders,
        ),
{
    let with = placeholder_models(binders, scope.len());
    match d {
        DomainGoalModel::Holds(tr)
        | DomainGoalModel::WellFormed(WellFormedModel::Trait(tr))
        | DomainGoalModel::FromEnv(FromEnvModel::Trait(tr)) => {
            assert forall|i: int| 0 <= i < tr.parameters.len() implies parameter_closed(
                #[trigger] parameters_substituted(tr.parameters, with)[i],
                scope + binders,
            ) by {
                lemma_parameter_substituted_closed(tr.parameters[i], binders, scope);
            }
        },
        DomainGoalModel::WellFormed(WellFormedModel::Ty(t))
        | DomainGoalModel::FromEnv(FromEnvModel::Ty(t)) => {
            lemma_ty_substituted_closed(t, binders, scope);
        },
    }
}

/// A goal under `binders`, with the placeholders of `binders` in place of
/// its bound variables, refers only to binders of the scope with `binders`
/// at its end.
pub proof fn lemma_goal_substituted_closed(
    g: GoalModel,
    binders: Seq<VariableKind>,
    scope: Seq<VariableKind>,
)
    requires
        goal_closed(g, binders),
        scope.len() + binders.len() <= usize::MAX,
    ensures
        goal_closed(goal_substituted(g, placeholder_models(binders, scope.len())), scope + binders),
    decreases g,
{
    let with = placeholder_models(binders, scope.len());
    match g {
        GoalModel::DomainGoal(d) => {
            lemma_domain_goal_substituted_closed(d, binders, scope);
        },
        GoalModel::Not(inner) => {
            lemma_goal_substituted_closed(*inner, binders, scope);
        },
        GoalModel::All(gs) => {
            assert forall|i: int| 0 <= i < gs.len() implies goal_closed(
                goal_substituted(#[trigger] gs[i], with),
                scope + binders,
            ) by {
                lemma_goal_substituted_closed(gs[i], binders, scope);
            }
        },
    }
}

/// An implication under `binders`, with the placeholders of `binders` in
/// place of its bound variables, refers only to binders of the scope with
/// `binders` at its end: the clause that a builder emits for it has no
/// dangling variable.
pub proof fn lemma_implication_substituted_closed(
    imp: ImplicationModel,
    binders: Seq<VariableKind>,
    scope: Seq<VariableKind>,
)
    requires
        implication_closed(imp, binders),
        scope.len() + binders.len() <= usize::MAX,
    ensures
        implication_closed(
            implication_substituted(imp, placeholder_models(binders, scope.len())),
            scope + binders,
        ),
{
    let with = placeholder_models(binders, scope.len());
    lemma_domain_goal_substituted_closed(imp.consequence, binders, scope);
    assert forall|i: int| 0 <= i < imp.conditions.len() implies goal_closed(
        #[trigger] goals_substituted(imp.conditions, with)[i],
        scope + binders,
    ) by {
        lemma_goal_substituted_closed(imp.conditions[i], binders, scope);
    }
}

/// Putting the placeholders of its own binders, counted from 0, in place of
/// the bound variables of a type leaves the type as it is.
pub proof fn lemma_ty_substituted_in_place(t: TyModel, binders: Seq<VariableKind>)
    requires
        ty_closed(t, binders),
        binders.len() <= usize::MAX,
    ensures
        ty_substituted(t, placeholder_models(binders, 0)) == t,
    decreases t,
{
    let with = placeholder_models(binders, 0);
    match t {
        TyModel::Apply(name, ps) => {
            assert forall|i: int| 0 <= i < ps.len() implies parameter_substituted(
                #[trigger] ps[i],
                with,
            ) == ps[i] by {
                lemma_parameter_substituted_in_place(ps[i], binders);
            }
            assert(ty_substituted(t, with)->Apply_1 =~= ps);
        },
        TyModel::Alias(id, ps) => {
            assert forall|i: int| 0 <= i < ps.len() implies parameter_substituted(
                #[trigger] ps[i],
                with,
            ) == ps[i] by {
                lemma_parameter_substituted_in_place(ps[i], binders);
            }
            assert(ty_substituted(t, with)->Alias_1 =~= ps);
        },
        TyModel::Function(ps) => {
            assert forall|i: int| 0 <= i < ps.len() implies parameter_substituted(
                #[trigger] ps[i],
                with,
            ) == ps[i] by {
                lemma_parameter_substituted_in_place(ps[i], binders);
            }
            assert(ty_substituted(t, with)->Function_0 =~= ps);
        },
        _ => {},
    }
}

/// Putting the placeholders of its own binders, counted from 0, in place of
/// the bound variables of a parameter leaves the parameter as it is.
pub proof fn lemma_parameter_substituted_in_place(p: ParameterModel, binders: Seq<VariableKind>)
    requires
        parameter_closed(p, binders),
        binders.len() <= usize::MAX,
    ensures
        parameter_substituted(p, placeholder_models(binders, 0)) == p,
    decreases p,
{
    match p {
        ParameterModel::Ty(t) => {
            lemma_ty_substituted_in_place(t, binders);
        },
        _ => {},
    }
}

/// Putting the placeholders of its own binders, counted from 0, in place of
/// the bound variables of a consequence leaves the consequence as it is.
pub proof fn lemma_domain_goal_substituted_in_place(d: DomainGoalModel, binders: Seq<VariableKind>)
    requires
        domain_goal_closed(d, binders),
        binders.len() <= usize::MAX,
    ensures
        domain_goal_substituted(d, placeholder_models(binders, 0)) == d,
{
    let with = placeholder_models(binders, 0);
    match d {
        DomainGoalModel::Holds(tr)
        | DomainGoalModel::WellFormed(WellFormedModel::Trait(tr))
        | DomainGoalModel::FromEnv(FromEnvModel::Trait(tr)) => {
            assert forall|i: int| 0 <= i < tr.parameters.len() implies parameter_substituted(
                #[trigger] tr.parameters[i],
                with,
            ) == tr.parameters[i] by {
                lemma_parameter_substituted_in_place(tr.parameters[i], binders);
            }
            assert(parameters_substituted(tr.parameters, with) =~= tr.parameters);
        },
        DomainGoalModel::WellFormed(WellFormedModel::Ty(t))
        | DomainGoalModel::FromEnv(FromEnvModel::Ty(t)) => {
            lemma_ty_substituted_in_place(t, binders);
        },
    }
}

/// Putting the placeholders of its own binders, counted from 0, in place of
/// the bound variables of a goal leaves the goal as it is.
pub proof fn lemma_goal_substituted_in_place(g: GoalModel, binders: Seq<VariableKind>)
    requires
        goal_closed(g, binders),
        binders.len() <= usize::MAX,
    ensures
        goal_substituted(g, placeholder_models(binders, 0)) == g,
    decreases g,
{
    let with = placeholder_models(binders, 0);
    match g {
        GoalModel::DomainGoal(d) => {
            lemma_domain_goal_substituted_in_place(d, binders);
        },
        GoalModel::Not(inner) => {
            lemma_goal_substituted_in_place(*inner, binders);
        },
        GoalModel::All(gs) => {
            assert forall|i: int| 0 <= i < gs.len() implies goal_substituted(
                #[trigger] gs[i],
                with,
            ) == gs[i] by {
                lemma_goal_substituted_in_place(gs[i], binders);
            }
            assert(goal_substituted(g, with)->All_0 =~= gs);
        },
    }
}

/// Putting the placeholders of its own binders, counted from 0, in place of
/// the bound variables of an implication leaves the implication as it is:
/// with no binder in scope, a builder emits an implication under binders
/// as it stands.
pub proof fn lemma_implication_substituted_in_place(imp: ImplicationModel, binders: Seq<VariableKind>)
    requires
        implication_closed(imp, binders),
        binders.len() <= usize::MAX,
    ensures
        implication_substituted(imp, placeholder_models(binders, 0)) == imp,
{
    let with = placeholder_models(binders, 0);
    lemma_domain_goal_substituted_in_place(imp.consequence, binders);
    assert forall|i: int| 0 <= i < imp.conditions.len() implies goal_substituted(
        #[trigger] imp.conditions[i],
        with,
    ) == imp.conditions[i] by {
        lemma_goal_substituted_in_place(imp.conditions[i], binders);
    }
    assert(goals_substituted(imp.conditions, with) =~= imp.conditions);
}

/// A value that can stand under binders: its bound variables can be tested
/// against a binder list, and replaced by the placeholders of a scope.
pub trait Fold: View + Sized {
    /// `m` with each bound variable `i` replaced by `with[i]`.
    spec fn substituted(m: Self::V, with: Seq<ParameterModel>) -> Self::V;

    /// Every bound variable of `m` refers to a binder of `binders` of its
    /// kind.
    spec fn closed(m: Self::V, binders: Seq<VariableKind>) -> bool;

    /// Replaces bound variable `i` by the placeholder of `binders[i]`, which
    /// stands at position `start + i`.
    fn substitute(&self, binders: &Vec<VariableKind>, start: usize) -> (r: Self)
        requires
            Self::closed(self@, binders@),
            start + binders@.len() <= usize::MAX,
        ensures
            r@ == Self::substituted(self@, placeholder_models(binders@, start as nat)),
    ;

    /// Tests that no bound variable refers outside `binders` or to a binder of
    /// another kind.
    fn is_closed(&self, binders: &Vec<VariableKind>) -> (b: bool)
        ensures
            b == Self::closed(self@, binders@),
    ;
}

/// Replaces a bound variable `i` by the placeholder of `binders[i]`, which
/// stands at position `start + i`.
fn substitute_variable(
    v: &Variable,
    kind: VariableKind,
    binders: &Vec<VariableKind>,
    start: usize,
) -> (r: Variable)
    requires
        variable_closed(*v, kind, binders@),
        kind != VariableKind::Ty,
        start + binders@.len() <= usize::MAX,
    ensures
        r == variable_substituted(*v, kind, placeholder_models(binders@, start as nat)),
{
    match v {
        Variable::Bound(i) => Variable::Bound(start + *i),
        Variable::Placeholder(i) => Variable::Placeholder(*i),
        Variable::Inference(i) => Variable::Inference(*i),
    }
}

/// Tests that `v`, used as a parameter of kind `kind`, refers to no binder
/// outside `binders` nor to one of another kind.
fn variable_is_closed(v: &Variable, kind: VariableKind, binders: &Vec<VariableKind>) -> (b: bool)
    ensures
        b == variable_closed(*v, kind, binders@),
{
    match v {
        Variable::Bound(i) => *i < binders.len() && binders[*i] == kind,
        _ => true,
    }
}

/// `ps` are the parameters that the type `t` holds.
pub open spec fn holds_parameters(t: Ty, ps: Vec<Parameter>) -> bool {
    match t {
        Ty::Apply(_, qs) => qs == ps,
        Ty::Alias(_, qs) => qs == ps,
        Ty::Function(qs) => qs == ps,
        _ => false,
    }
}

/// The parameters of a type that holds some.
pub open spec fn parameters_of(t: TyModel) -> Seq<ParameterModel> {
    match t {
        TyModel::Apply(_, ps) => ps,
        TyModel::Alias(_, ps) => ps,
        TyModel::Function(ps) => ps,
        _ => Seq::empty(),
    }
}

/// Replaces each bound variable `i` of `t` by the placeholder of
/// `binders[i]`, which stands at position `start + i`.
pub fn substitute_ty(t: &Ty, binders: &Vec<VariableKind>, start: usize) -> (r: Ty)
    requires
        ty_closed(t@, binders@),
        start + binders@.len() <= usize::MAX,
    ensures
        r@ == ty_substituted(t@, placeholder_models(binders@, start as nat)),
    decreases t,
{
    let ghost with = placeholder_models(binders@, start as nat);
    match t {
        Ty::Apply(_, ps) | Ty::Alias(_, ps) | Ty::Function(ps) => {
            let mut out: Vec<Parameter> = Vec::new();
            let mut i: usize = 0;
            while i < ps.len()
                invariant
                    i <= ps.len(),
                    out@.len() == i,
                    holds_parameters(*t, *ps),
                    ty_closed(t@, binders@),
                    start + binders@.len() <= usize::MAX,
                    with == placeholder_models(binders@, start as nat),
                    forall|j: int|
                        0 <= j < i ==> (#[trigger] out@[j])@ == parameter_substituted(ps@[j]@, with),
                decreases ps.len() - i,
            {
                assert(parameter_closed(parameters_of(t@)[i as int], binders@));
                let p = substitute_parameter(&ps[i], binders, start);
                out.push(p);
                i = i + 1;
            }
            let r = match t {
                Ty::Apply(name, _) => Ty::Apply(*name, out),
                Ty::Alias(id, _) => Ty::Alias(*id, out),
                _ => Ty::Function(out),
            };
            assert(parameters_of(r@) =~= parameters_of(ty_substituted(t@, with)));
            r
        },
        Ty::BoundVar(i) => Ty::BoundVar(start + *i),
        Ty::Placeholder(i) => Ty::Placeholder(*i),
        Ty::InferenceVar(i) => Ty::InferenceVar(*i),
        Ty::Dyn(traits) => {
            let mut out: Vec<TraitId> = Vec::new();
            let mut i: usize = 0;
            while i < traits.len()
                invariant
                    i <= traits.len(),
                    out@ == traits@.take(i as int),
                decreases traits.len() - i,
            {
                out.push(traits[i]);
                i = i + 1;
            }
            assert(traits@.take(i as int) == traits@);
            Ty::Dyn(out)
        },
    }
}

/// Replaces each bound variable `i` of `p` by the placeholder of
/// `binders[i]`, which stands at position `start + i`.
pub fn substitute_parameter(p: &Parameter, binders: &Vec<VariableKind>, start: usize) -> (r: Parameter)
    requires
        parameter_closed(p@, binders@),
        start + binders@.len() <= usize::MAX,
    ensures
        r@ == parameter_substituted(p@, placeholder_models(binders@, start as nat)),
    decreases p,
{
    match p {
        Parameter::Ty(t) => Parameter::Ty(substitute_ty(t, binders, start)),
        Parameter::Lifetime(v) => Parameter::Lifetime(
            substitute_variable(v, VariableKind::Lifetime, binders, start),
        ),
        Parameter::Const(v) => Parameter::Const(
            substitute_variable(v, VariableKind::Const, binders, start),
        ),
    }
}

/// Tests that no bound variable of `t` refers outside `binders` or to a
/// binder of another kind.
pub fn ty_is_closed(t: &Ty, binders: &Vec<VariableKind>) -> (b: bool)
    ensures
        b == ty_closed(t@, binders@),
    decreases t,
{
    match t {
        Ty::Apply(_, ps) | Ty::Alias(_, ps) | Ty::Function(ps) => {
            let mut i: usize = 0;
            while i < ps.len()
                invariant
                    i <= ps.len(),
                    holds_parameters(*t, *ps),
                    forall|j: int| 0 <= j < i ==> parameter_closed(#[trigger] ps@[j]@, binders@),
                decreases ps.len() - i,
            {
                if !parameter_is_closed(&ps[i], binders) {
                    assert(!parameter_closed(parameters_of(t@)[i as int], binders@));
                    return false;
                }
                i = i + 1;
            }
            let ghost models = parameters_of(t@);
            assert forall|j: int| 0 <= j < models.len() implies parameter_closed(
                #[trigger] models[j],
                binders@,
            ) by {
                assert(parameter_closed(ps@[j]@, binders@));
            }
            true
        },
        Ty::BoundVar(i) => *i < binders.len() && binders[*i] == VariableKind::Ty,
        Ty::Placeholder(_) => true,
        Ty::InferenceVar(_) => true,
        Ty::Dyn(_) => true,
    }
}

/// Tests that no bound variable of `p` refers outside `binders` or to a
/// binder of another kind.
pub fn parameter_is_closed(p: &Parameter, binders: &Vec<VariableKind>) -> (b: bool)
    ensures
        b == parameter_closed(p@, binders@),
    decreases p,
{
    match p {
        Parameter::Ty(t) => ty_is_closed(t, binders),
        Parameter::Lifetime(v) => variable_is_closed(v, VariableKind::Lifetime, binders),
        Parameter::Const(v) => variable_is_closed(v, VariableKind::Const, binders),
    }
}

/// Replaces the bound variables of each parameter of `ps`.
fn substitute_parameters(ps: &Vec<Parameter>, binders: &Vec<VariableKind>, start: usize) -> (r: Vec<
    Parameter,
>)
    requires
        parameters_closed(parameter_models(ps@), binders@),
        start + binders@.len() <= usize::MAX,
    ensures
        parameter_models(r@) == parameters_substituted(
            parameter_models(ps@),
            placeholder_models(binders@, start as nat),
        ),
{
    let mut out: Vec<Parameter> = Vec::new();
    let mut i: usize = 0;
    while i < ps.len()
        invariant
            i <= ps.len(),
            out@.len() == i,
            parameters_closed(parameter_models(ps@), binders@),
            start + binders@.len() <= usize::MAX,
            forall|j: int|
                0 <= j < i ==> (#[trigger] out@[j])@ == parameter_substituted(
                    ps@[j]@,
                    placeholder_models(binders@, start as nat),
                ),
        decreases ps.len() - i,
    {
        assert(parameter_closed(parameter_models(ps@)[i as int], binders@));
        let p = substitute_parameter(&ps[i], binders, start);
        out.push(p);
        i = i + 1;
    }
    assert(parameter_models(out@) =~= parameters_substituted(
        parameter_models(ps@),
        placeholder_models(binders@, start as nat),
    ));
    out
}

/// Tests that each parameter of `ps` is closed under `binders`.
fn parameters_are_closed(ps: &Vec<Parameter>, binders: &Vec<VariableKind>) -> (b: bool)
    ensures
        b == parameters_closed(parameter_models(ps@), binders@),
{
    let mut i: usize = 0;
    while i < ps.len()
        invariant
            i <= ps.len(),
            forall|j: int| 0 <= j < i ==> parameter_closed(#[trigger] ps@[j]@, binders@),
        decreases ps.len() - i,
    {
        if !parameter_is_closed(&ps[i], binders) {
            assert(!parameter_closed(parameter_models(ps@)[i as int], binders@));
            return false;
        }
        i = i + 1;
    }
    assert forall|j: int| 0 <= j < parameter_models(ps@).len() implies parameter_closed(
        #[trigger] parameter_models(ps@)[j],
        binders@,
    ) by {
        assert(parameter_closed(ps@[j]@, binders@));
    }
    true
}

/// Replaces each bound variable `i` of `tr` by the placeholder of
/// `binders[i]`, which stands at position `start + i`.
pub fn substitute_trait_ref(tr: &TraitRef, binders: &Vec<VariableKind>, start: usize) -> (r: TraitRef)
    requires
        trait_ref_closed(tr@, binders@),
        start + binders@.len() <= usize::MAX,
    ensures
        r@ == trait_ref_substituted(tr@, placeholder_models(binders@, start as nat)),
{
    TraitRef {
        trait_id: tr.trait_id,
        parameters: substitute_parameters(&tr.parameters, binders, start),
    }
}

/// Tests that no bound variable of `tr` refers outside `binders` or to a
/// binder of another kind.
pub fn trait_ref_is_closed(tr: &TraitRef, binders: &Vec<VariableKind>) -> (b: bool)
    ensures
        b == trait_ref_closed(tr@, binders@),
{
    parameters_are_closed(&tr.parameters, binders)
}

/// Replaces each bound variable `i` of `d` by the placeholder of
/// `binders[i]`, which stands at position `start + i`.
pub fn substitute_domain_goal(d: &DomainGoal, binders: &Vec<VariableKind>, start: usize) -> (r:
    DomainGoal)
    requires
        domain_goal_closed(d@, binders@),
        start + binders@.len() <= usize::MAX,
    ensures
        r@ == domain_goal_substituted(d@, placeholder_models(binders@, start as nat)),
{
    match d {
        DomainGoal::Holds(tr) => DomainGoal::Holds(substitute_trait_ref(tr, binders, start)),
        DomainGoal::WellFormed(WellFormed::Trait(tr)) => DomainGoal::WellFormed(
            WellFormed::Trait(substitute_trait_ref(tr, binders, start)),
        ),
        DomainGoal::WellFormed(WellFormed::Ty(t)) => DomainGoal::WellFormed(
            WellFormed::Ty(substitute_ty(t, binders, start)),
        ),
        DomainGoal::FromEnv(FromEnv::Trait(tr)) => DomainGoal::FromEnv(
            FromEnv::Trait(substitute_trait_ref(tr, binders, start)),
        ),
        DomainGoal::FromEnv(FromEnv::Ty(t)) => DomainGoal::FromEnv(
            FromEnv::Ty(substitute_ty(t, binders, start)),
        ),
    }
}

/// Tests that no bound variable of `d` refers outside `binders` or to a
/// binder of another kind.
pub fn domain_goal_is_closed(d: &DomainGoal, binders: &Vec<VariableKind>) -> (b: bool)
    ensures
        b == domain_goal_closed(d@, binders@),
{
    match d {
        DomainGoal::Holds(tr) => trait_ref_is_closed(tr, binders),
        DomainGoal::WellFormed(WellFormed::Trait(tr)) => trait_ref_is_closed(tr, binders),
        DomainGoal::WellFormed(WellFormed::Ty(t)) => ty_is_closed(t, binders),
        DomainGoal::FromEnv(FromEnv::Trait(tr)) => trait_ref_is_closed(tr, binders),
        DomainGoal::FromEnv(FromEnv::Ty(t)) => ty_is_closed(t, binders),
    }
}

/// Replaces each bound variable `i` of `g` by the placeholder of
/// `binders[i]`, which stands at position `start + i`.
pub fn substitute_goal(g: &Goal, binders: &Vec<VariableKind>, start: usize) -> (r: Goal)
    requires
        goal_closed(g@, binders@),
        start + binders@.len() <= usize::MAX,
    ensures
        r@ == goal_substituted(g@, placeholder_models(binders@, start as nat)),
    decreases g,
{
    let ghost with = placeholder_models(binders@, start as nat);
    match g {
        Goal::DomainGoal(d) => Goal::DomainGoal(substitute_domain_goal(d, binders, start)),
        Goal::Not(inner) => Goal::Not(Box::new(substitute_goal(inner, binders, start))),
        Goal::All(gs) => {
            let mut out: Vec<Goal> = Vec::new();
            let mut i: usize = 0;
            while i < gs.len()
                invariant
                    i <= gs.len(),
                    out@.len() == i,
                    *g == Goal::All(*gs),
                    goal_closed(g@, binders@),
                    start + binders@.len() <= usize::MAX,
                    with == placeholder_models(binders@, start as nat),
                    forall|j: int|
                        0 <= j < i ==> (#[trigger] out@[j])@ == goal_substituted(gs@[j]@, with),
                decreases gs.len() - i,
            {
                assert(goal_closed(g@->All_0[i as int], binders@));
                let s = substitute_goal(&gs[i], binders, start);
                out.push(s);
                i = i + 1;
            }
            let r = Goal::All(out);
            assert(r@->All_0 =~= goal_substituted(g@, with)->All_0);
            r
        },
    }
}

/// Tests that no bound variable of `g` refers outside `binders` or to a
/// binder of another kind.
pub fn goal_is_closed(g: &Goal, binders: &Vec<VariableKind>) -> (b: bool)
    ensures
        b == goal_closed(g@, binders@),
    decreases g,
{
    match g {
        Goal::DomainGoal(d) => domain_goal_is_closed(d, binders),
        Goal::Not(inner) => goal_is_closed(inner, binders),
        Goal::All(gs) => {
            let mut i: usize = 0;
            while i < gs.len()
                invariant
                    i <= gs.len(),
                    *g == Goal::All(*gs),
                    forall|j: int| 0 <= j < i ==> goal_closed(#[trigger] gs@[j]@, binders@),
                decreases gs.len() - i,
            {
                if !goal_is_closed(&gs[i], binders) {
                    assert(!goal_closed(g@->All_0[i as int], binders@));
                    return false;
                }
                i = i + 1;
            }
            assert forall|j: int| 0 <= j < g@->All_0.len() implies goal_closed(
                #[trigger] g@->All_0[j],
                binders@,
            ) by {
                assert(goal_closed(gs@[j]@, binders@));
            }
            true
        },
    }
}

/// Replaces each bound variable `i` of `imp` by the placeholder of
/// `binders[i]`, which stands at position `start + i`.
pub fn substitute_implication(
    imp: &ProgramClauseImplication,
    binders: &Vec<VariableKind>,
    start: usize,
) -> (r: ProgramClauseImplication)
    requires
        implication_closed(imp@, binders@),
        start + binders@.len() <= usize::MAX,
    ensures
        r@ == implication_substituted(imp@, placeholder_models(binders@, start as nat)),
{
    let consequence = substitute_domain_goal(&imp.consequence, binders, start);
    let mut conditions: Vec<Goal> = Vec::new();
    let mut i: usize = 0;
    while i < imp.conditions.len()
        invariant
            i <= imp.conditions.len(),
            conditions@.len() == i,
            implication_closed(imp@, binders@),
            start + binders@.len() <= usize::MAX,
            forall|j: int|
                0 <= j < i ==> (#[trigger] conditions@[j])@ == goal_substituted(
                    imp.conditions@[j]@,
                    placeholder_models(binders@, start as nat),
                ),
        decreases imp.conditions.len() - i,
    {
        assert(goal_closed(imp@.conditions[i as int], binders@));
        let g = substitute_goal(&imp.conditions[i], binders, start);
        conditions.push(g);
        i = i + 1;
    }
    let r = ProgramClauseImplication { consequence, conditions };
    assert(r@.conditions =~= implication_substituted(
        imp@,
        placeholder_models(binders@, start as nat),
    ).conditions);
    r
}

/// Tests that no bound variable of `imp` refers outside `binders` or to a
/// binder of another kind.
pub fn implication_is_closed(imp: &ProgramClauseImplication, binders: &Vec<VariableKind>) -> (b:
    bool)
    ensures
        b == implication_closed(imp@, binders@),
{
    if !domain_goal_is_closed(&imp.consequence, binders) {
        return false;
    }
    let mut i: usize = 0;
    while i < imp.conditions.len()
        invariant
            i <= imp.conditions.len(),
            forall|j: int| 0 <= j < i ==> goal_closed(#[trigger] imp.conditions@[j]@, binders@),
        decreases imp.conditions.len() - i,
    {
        if !goal_is_closed(&imp.conditions[i], binders) {
            assert(!goal_closed(imp@.conditions[i as int], binders@));
            return false;
        }
        i = i + 1;
    }
    assert forall|j: int| 0 <= j < imp@.conditions.len() implies goal_closed(
        #[trigger] imp@.conditions[j],
        binders@,
    ) by {
        assert(goal_closed(imp.conditions@[j]@, binders@));
    }
    true
}

impl Fold for Ty {
    open spec fn substituted(m: TyModel, with: Seq<ParameterModel>) -> TyModel {
        ty_substituted(m, with)
    }

    open spec fn closed(m: TyModel, binders: Seq<VariableKind>) -> bool {
        ty_closed(m, binders)
    }

    fn substitute(&self, binders: &Vec<VariableKind>, start: usize) -> (r: Self) {
        substitute_ty(self, binders, start)
    }

    fn is_closed(&self, binders: &Vec<VariableKind>) -> (b: bool) {
        ty_is_closed(self, binders)
    }
}

impl Fold for TraitRef {
    open spec fn substituted(m: TraitRefModel, with: Seq<ParameterModel>) -> TraitRefModel {
        trait_ref_substituted(m, with)
    }

    open spec fn closed(m: TraitRefModel, binders: Seq<VariableKind>) -> bool {
        trait_ref_closed(m, binders)
    }

    fn substitute(&self, binders: &Vec<VariableKind>, start: usize) -> (r: Self) {
        substitute_trait_ref(self, binders, start)
    }

    fn is_closed(&self, binders: &Vec<VariableKind>) -> (b: bool) {
        trait_ref_is_closed(self, binders)
    }
}

impl Fold for DomainGoal {
    open spec fn substituted(m: DomainGoalModel, with: Seq<ParameterModel>) -> DomainGoalModel {
        domain_goal_substituted(m, with)
    }

    open spec fn closed(m: DomainGoalModel, binders: Seq<VariableKind>) -> bool {
        domain_goal_closed(m, binders)
    }

    fn substitute(&self, binders: &Vec<VariableKind>, start: usize) -> (r: Self) {
        substitute_domain_goal(self, binders, start)
    }

    fn is_closed(&self, binders: &Vec<VariableKind>) -> (b: bool) {
        domain_goal_is_closed(self, binders)
    }
}

impl Fold for Goal {
    open spec fn substituted(m: GoalModel, with: Seq<ParameterModel>) -> GoalModel {
        goal_substituted(m, with)
    }

    open spec fn closed(m: GoalModel, binders: Seq<VariableKind>) -> bool {
        goal_closed(m, binders)
    }

    fn substitute(&self, binders: &Vec<VariableKind>, start: usize) -> (r: Self) {
        substitute_goal(self, binders, start)
    }

    fn is_closed(&self, binders: &Vec<VariableKind>) -> (b: bool) {
        goal_is_closed(self, binders)
    }
}

impl Fold for ProgramClauseImplication {
    open spec fn substituted(m: ImplicationModel, with: Seq<ParameterModel>) -> ImplicationModel {
        implication_substituted(m, with)
    }

    open spec fn closed(m: ImplicationModel, binders: Seq<VariableKind>) -> bool {
        implication_closed(m, binders)
    }

    fn substitute(&self, binders: &Vec<VariableKind>, start: usize) -> (r: Self) {
        substitute_implication(self, binders, start)
    }

    fn is_closed(&self, binders: &Vec<VariableKind>) -> (b: bool) {
        implication_is_closed(self, binders)
    }
}

} // verus!
