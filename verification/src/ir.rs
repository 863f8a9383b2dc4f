//! The clause algebra that the clause builder emits and the environment
//! elaborator reads: types, trait references, domain goals, goals and
//! program clauses, each with its mathematical model.

use vstd::prelude::*;

verus! {

/// What kind of variable a binder introduces. It carries no payload: a binder
/// records the kind of the variable it binds, not its value.
#[derive(Clone, Copy, PartialEq, Eq, Hash, Debug, Structural)]
pub enum VariableKind {
    Ty,
    Lifetime,
    Const,
}

/// Identifier of a trait in the database.
#[derive(Clone, Copy, PartialEq, Eq, Hash, Debug, Structural)]
pub struct TraitId(pub u32);

/// Identifier of an associated type in the database.
#[derive(Clone, Copy, PartialEq, Eq, Hash, Debug, Structural)]
pub struct AssocTypeId(pub u32);

/// Identifier of a struct in the database.
#[derive(Clone, Copy, PartialEq, Eq, Hash, Debug, Structural)]
pub struct StructId(pub u32);

/// The name at the head of an applied type.
#[derive(Clone, Copy, PartialEq, Eq, Hash, Debug, Structural)]
pub enum TypeName {
    Struct(StructId),
    AssociatedType(AssocTypeId),
    Error,
}

/// A variable of any kind. `Bound(i)` refers to position `i` of the binder
/// list that governs the value it occurs in.
#[derive(Clone, Copy, PartialEq, Eq, Hash, Debug, Structural)]
pub enum Variable {
    Bound(usize),
    Placeholder(usize),
    Inference(usize),
}

/// A type.
#[derive(PartialEq, Eq, Hash, Debug)]
pub enum Ty {
    /// A named type applied to parameters, such as `Vec<T>`.
    Apply(TypeName, Vec<Parameter>),
    /// An associated type of some parameters, such as `<T as Iterator>::Item`.
    Alias(AssocTypeId, Vec<Parameter>),
    /// Some unknown type that stands for all types.
    Placeholder(usize),
    /// The type that the binder at this position of the governing binder
    /// list binds.
    BoundVar(usize),
    /// A type yet to be inferred.
    InferenceVar(usize),
    /// A function type over the types of its arguments and result.
    Function(Vec<Parameter>),
    /// A trait object for the given traits.
    Dyn(Vec<TraitId>),
}

/// A generic argument: a type, a lifetime or a constant.
#[derive(PartialEq, Eq, Hash, Debug)]
pub enum Parameter {
    Ty(Ty),
    Lifetime(Variable),
    Const(Variable),
}

/// A trait applied to its parameters, the self type first.
#[derive(PartialEq, Eq, Hash, Debug)]
pub struct TraitRef {
    pub trait_id: TraitId,
    pub parameters: Vec<Parameter>,
}

/// A fact that may be assumed because the environment holds it.
#[derive(PartialEq, Eq, Hash, Debug)]
pub enum FromEnv {
    Trait(TraitRef),
    Ty(Ty),
}

/// A fact of well-formedness.
#[derive(PartialEq, Eq, Hash, Debug)]
pub enum WellFormed {
    Trait(TraitRef),
    Ty(Ty),
}

/// The consequence of a program clause.
#[derive(PartialEq, Eq, Hash, Debug)]
pub enum DomainGoal {
    Holds(TraitRef),
    WellFormed(WellFormed),
    FromEnv(FromEnv),
}

/// A condition of a program clause.
#[derive(PartialEq, Eq, Hash, Debug)]
pub enum Goal {
    DomainGoal(DomainGoal),
    Not(Box<Goal>),
    All(Vec<Goal>),
}

/// `consequence :- conditions`.
#[derive(PartialEq, Eq, Hash, Debug)]
pub struct ProgramClauseImplication {
    pub consequence: DomainGoal,
    pub conditions: Vec<Goal>,
}

/// A value under a list of binders. `Bound(i)` inside `value` refers to
/// `binders[i]`.
#[derive(PartialEq, Eq, Hash, Debug)]
pub struct Binders<V> {
    pub binders: Vec<VariableKind>,
    pub value: V,
}

/// A program clause: an implication, bare or under universal binders.
#[derive(PartialEq, Eq, Hash, Debug)]
pub enum ProgramClause {
    Implies(ProgramClauseImplication),
    ForAll(Binders<ProgramClauseImplication>),
}

/// Model of [`Ty`].
pub enum TyModel {
    Apply(TypeName, Seq<ParameterModel>),
    Alias(AssocTypeId, Seq<ParameterModel>),
    Placeholder(nat),
    BoundVar(nat),
    InferenceVar(nat),
    Function(Seq<ParameterModel>),
    Dyn(Seq<TraitId>),
}

/// Model of [`Parameter`].
pub enum ParameterModel {
    Ty(TyModel),
    Lifetime(Variable),
    Const(Variable),
}

/// Model of [`TraitRef`].
pub struct TraitRefModel {
    pub trait_id: TraitId,
    pub parameters: Seq<ParameterModel>,
}

/// Model of [`FromEnv`].
pub enum FromEnvModel {
    Trait(TraitRefModel),
    Ty(TyModel),
}

/// Model of [`WellFormed`].
pub enum WellFormedModel {
    Trait(TraitRefModel),
    Ty(TyModel),
}

/// Model of [`DomainGoal`].
pub enum DomainGoalModel {
    Holds(TraitRefModel),
    WellFormed(WellFormedModel),
    FromEnv(FromEnvModel),
}

/// Model of [`Goal`].
pub enum GoalModel {
    DomainGoal(DomainGoalModel),
    Not(Box<GoalModel>),
    All(Seq<GoalModel>),
}

/// Model of [`ProgramClauseImplication`].
pub struct ImplicationModel {
    pub consequence: DomainGoalModel,
    pub conditions: Seq<GoalModel>,
}

/// Model of [`ProgramClause`]. `ForAll` holds the binder list that wraps the
/// implication.
pub enum ProgramClauseModel {
    Implies(ImplicationModel),
    ForAll(Seq<VariableKind>, ImplicationModel),
}

/// The model of a type.
pub open spec fn ty_model(t: Ty) -> TyModel
    decreases t,
{
    match t {
        Ty::Apply(name, ps) => TyModel::Apply(
            name,
            Seq::new(
                ps@.len(),
                |i: int|
                    if 0 <= i < ps@.len() {
                        parameter_model(ps@[i])
                    } else {
                        arbitrary()
                    },
            ),
        ),
        Ty::Alias(id, ps) => TyModel::Alias(
            id,
            Seq::new(
                ps@.len(),
                |i: int|
                    if 0 <= i < ps@.len() {
                        parameter_model(ps@[i])
                    } else {
                        arbitrary()
                    },
            ),
        ),
        Ty::Placeholder(i) => TyModel::Placeholder(i as nat),
        Ty::BoundVar(i) => TyModel::BoundVar(i as nat),
        Ty::InferenceVar(i) => TyModel::InferenceVar(i as nat),
        Ty::Function(ps) => TyModel::Function(
            Seq::new(
                ps@.len(),
                |i: int|
                    if 0 <= i < ps@.len() {
                        parameter_model(ps@[i])
                    } else {
                        arbitrary()
                    },
            ),
        ),
        Ty::Dyn(traits) => TyModel::Dyn(traits@),
    }
}

/// The model of a parameter.
pub open spec fn parameter_model(p: Parameter) -> ParameterModel
    decreases p,
{
    match p {
        Parameter::Ty(t) => ParameterModel::Ty(ty_model(t)),
        Parameter::Lifetime(v) => ParameterModel::Lifetime(v),
        Parameter::Const(v) => ParameterModel::Const(v),
    }
}

/// The models of a list of parameters.
pub open spec fn parameter_models(ps: Seq<Parameter>) -> Seq<ParameterModel> {
    Seq::new(ps.len(), |i: int| parameter_model(ps[i]))
}

/// The model of a goal.
pub open spec fn goal_model(g: Goal) -> GoalModel
    decreases g,
{
    match g {
        Goal::DomainGoal(d) => GoalModel::DomainGoal(d@),
        Goal::Not(inner) => GoalModel::Not(Box::new(goal_model(*inner))),
        Goal::All(gs) => GoalModel::All(
            Seq::new(
                gs@.len(),
                |i: int|
                    if 0 <= i < gs@.len() {
                        goal_model(gs@[i])
                    } else {
                        arbitrary()
                    },
            ),
        ),
    }
}

/// The models of a list of goals.
pub open spec fn goal_models(gs: Seq<Goal>) -> Seq<GoalModel> {
    Seq::new(gs.len(), |i: int| goal_model(gs[i]))
}

/// The models of a list of program clauses.
pub open spec fn clause_models(cs: Seq<ProgramClause>) -> Seq<ProgramClauseModel> {
    Seq::new(cs.len(), |i: int| cs[i]@)
}

impl View for Ty {
    type V = TyModel;

    open spec fn view(&self) -> TyModel {
        ty_model(*self)
    }
}

impl View for Parameter {
    type V = ParameterModel;

    open spec fn view(&self) -> ParameterModel {
        parameter_model(*self)
    }
}

impl View for TraitRef {
    type V = TraitRefModel;

    open spec fn view(&self) -> TraitRefModel {
        TraitRefModel { trait_id: self.trait_id, parameters: parameter_models(self.parameters@) }
    }
}

impl View for FromEnv {
    type V = FromEnvModel;

    open spec fn view(&self) -> FromEnvModel {
        match self {
            FromEnv::Trait(tr) => FromEnvModel::Trait(tr@),
            FromEnv::Ty(t) => FromEnvModel::Ty(t@),
        }
    }
}

impl View for WellFormed {
    type V = WellFormedModel;

    open spec fn view(&self) -> WellFormedModel {
        match self {
            WellFormed::Trait(tr) => WellFormedModel::Trait(tr@),
            WellFormed::Ty(t) => WellFormedModel::Ty(t@),
        }
    }
}

impl View for DomainGoal {
    type V = DomainGoalModel;

    open spec fn view(&self) -> DomainGoalModel {
        match self {
            DomainGoal::Holds(tr) => DomainGoalModel::Holds(tr@),
            DomainGoal::WellFormed(wf) => DomainGoalModel::WellFormed(wf@),
            DomainGoal::FromEnv(fe) => DomainGoalModel::FromEnv(fe@),
        }
    }
}

impl View for Goal {
    type V = GoalModel;

    open spec fn view(&self) -> GoalModel {
        goal_model(*self)
    }
}

impl View for ProgramClauseImplication {
    type V = ImplicationModel;

    open spec fn view(&self) -> ImplicationModel {
        ImplicationModel { consequence: self.consequence@, conditions: goal_models(self.conditions@) }
    }
}

impl View for ProgramClause {
    type V = ProgramClauseModel;

    open spec fn view(&self) -> ProgramClauseModel {
        match self {
            ProgramClause::Implies(imp) => ProgramClauseModel::Implies(imp@),
            ProgramClause::ForAll(b) => ProgramClauseModel::ForAll(b.binders@, b.value@),
        }
    }
}

impl ProgramClauseModel {
    /// The implication inside the clause, whatever wraps it.
    pub open spec fn implication(self) -> ImplicationModel {
        match self {
            ProgramClauseModel::Implies(imp) => imp,
            ProgramClauseModel::ForAll(_, imp) => imp,
        }
    }

    /// The binder list that wraps the clause; empty for a bare implication.
    pub open spec fn binders(self) -> Seq<VariableKind> {
        match self {
            ProgramClauseModel::Implies(_) => Seq::empty(),
            ProgramClauseModel::ForAll(binders, _) => binders,
        }
    }
}

/// The reference to binder `index` as a parameter of kind `kind`.
pub open spec fn placeholder_model(kind: VariableKind, index: nat) -> ParameterModel {
    match kind {
        VariableKind::Ty => ParameterModel::Ty(TyModel::BoundVar(index)),
        VariableKind::Lifetime => ParameterModel::Lifetime(Variable::Bound(index as usize)),
        VariableKind::Const => ParameterModel::Const(Variable::Bound(index as usize)),
    }
}

/// The placeholders of the binders `kinds`, when the first of them stands at
/// position `start` of the full list.
pub open spec fn placeholder_models(kinds: Seq<VariableKind>, start: nat) -> Seq<ParameterModel> {
    Seq::new(kinds.len(), |i: int| placeholder_model(kinds[i], (start + i) as nat))
}

/// Builds the reference to binder `index` as a parameter of kind `kind`.
pub fn placeholder(kind: VariableKind, index: usize) -> (p: Parameter)
    ensures
        p@ == placeholder_model(kind, index as nat),
{
    match kind {
        VariableKind::Ty => Parameter::Ty(Ty::BoundVar(index)),
        VariableKind::Lifetime => Parameter::Lifetime(Variable::Bound(index)),
        VariableKind::Const => Parameter::Const(Variable::Bound(index)),
    }
}

} // verus!
