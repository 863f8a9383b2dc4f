//! The formulas that lowering yields: leaves, goals and clauses. A bound
//! variable is the number of binders between its occurrence and its own
//! binder, counted from the innermost.

use vstd::prelude::*;

verus! {

/// The name of a predicate or of a constant.
#[derive(Clone, Copy, PartialEq, Eq, Hash, Debug, Structural)]
pub struct Constant(pub u64);

/// An atomic formula or a term inside one.
#[derive(PartialEq, Eq, Hash, Debug)]
pub enum Leaf {
    /// The variable bound by the binder that many binders out.
    BoundVariable(usize),
    /// A constant applied to arguments; a bare constant has none.
    Application(Constant, Vec<Leaf>),
}

/// A formula to be proven.
#[derive(PartialEq, Eq, Hash, Debug)]
pub enum Goal {
    Leaf(Leaf),
    And(Box<Goal>, Box<Goal>),
    Or(Box<Goal>, Box<Goal>),
    /// Assume the clause, then prove the goal.
    Implication(Box<Clause>, Box<Goal>),
    /// The goal under that many universal binders.
    ForAll(usize, Box<Goal>),
    /// The goal under that many existential binders.
    Exists(usize, Box<Goal>),
}

/// The body of a clause.
#[derive(PartialEq, Eq, Hash, Debug)]
pub enum ClauseKind {
    Leaf(Leaf),
    And(Vec<Clause>),
    /// The condition, then the consequence.
    Implication(Goal, Box<Clause>),
}

/// A clause: a body under `foralls` universal binders. Only their number is
/// kept; their names are gone once the clause is built.
#[derive(PartialEq, Eq, Hash, Debug)]
pub struct Clause {
    pub foralls: usize,
    pub kind: ClauseKind,
}

/// Model of [`Leaf`].
pub enum LeafModel {
    BoundVariable(nat),
    Application(Constant, Seq<LeafModel>),
}

/// Model of [`Goal`].
pub enum GoalModel {
    Leaf(LeafModel),
    And(Box<GoalModel>, Box<GoalModel>),
    Or(Box<GoalModel>, Box<GoalModel>),
    Implication(Box<ClauseModel>, Box<GoalModel>),
    ForAll(nat, Box<GoalModel>),
    Exists(nat, Box<GoalModel>),
}

/// Model of [`ClauseKind`].
pub enum ClauseKindModel {
    Leaf(LeafModel),
    And(Seq<ClauseModel>),
    Implication(GoalModel, Box<ClauseModel>),
}

/// Model of [`Clause`].
pub struct ClauseModel {
    pub foralls: nat,
    pub kind: ClauseKindModel,
}

/// The model of a leaf.
pub open spec fn leaf_model(leaf: Leaf) -> LeafModel
    decreases leaf,
{
    match leaf {
        Leaf::BoundVariable(i) => LeafModel::BoundVariable(i as nat),
        Leaf::Application(c, args) => LeafModel::Application(
            c,
            Seq::new(
                args@.len(),
                |i: int|
                    if 0 <= i < args@.len() {
                        leaf_model(args@[i])
                    } else {
                        arbitrary()
                    },
            ),
        ),
    }
}

/// The model of a goal.
pub open spec fn goal_model(goal: Goal) -> GoalModel
    decreases goal,
{
    match goal {
        Goal::Leaf(leaf) => GoalModel::Leaf(leaf_model(leaf)),
        Goal::And(a, b) => GoalModel::And(Box::new(goal_model(*a)), Box::new(goal_model(*b))),
        Goal::Or(a, b) => GoalModel::Or(Box::new(goal_model(*a)), Box::new(goal_model(*b))),
        Goal::Implication(c, g) => GoalModel::Implication(
            Box::new(clause_model(*c)),
            Box::new(goal_model(*g)),
        ),
        Goal::ForAll(n, g) => GoalModel::ForAll(n as nat, Box::new(goal_model(*g))),
        Goal::Exists(n, g) => GoalModel::Exists(n as nat, Box::new(goal_model(*g))),
    }
}

/// The model of the body of a clause.
pub open spec fn clause_kind_model(kind: ClauseKind) -> ClauseKindModel
    decreases kind,
{
    match kind {
        ClauseKind::Leaf(leaf) => ClauseKindModel::Leaf(leaf_model(leaf)),
        ClauseKind::And(clauses) => ClauseKindModel::And(
            Seq::new(
                clauses@.len(),
                |i: int|
                    if 0 <= i < clauses@.len() {
                        clause_model(clauses@[i])
                    } else {
                        arbitrary()
                    },
            ),
        ),
        ClauseKind::Implication(g, c) => ClauseKindModel::Implication(
            goal_model(g),
            Box::new(clause_model(*c)),
        ),
    }
}

/// The model of a clause.
pub open spec fn clause_model(clause: Clause) -> ClauseModel
    decreases clause,
{
    ClauseModel { foralls: clause.foralls as nat, kind: clause_kind_model(clause.kind) }
}

impl View for Leaf {
    type V = LeafModel;

    open spec fn view(&self) -> LeafModel {
        leaf_model(*self)
    }
}

impl View for Goal {
    type V = GoalModel;

    open spec fn view(&self) -> GoalModel {
        goal_model(*self)
    }
}

impl View for ClauseKind {
    type V = ClauseKindModel;

    open spec fn view(&self) -> ClauseKindModel {
        clause_kind_model(*self)
    }
}

impl View for Clause {
    type V = ClauseModel;

    open spec fn view(&self) -> ClauseModel {
        clause_model(*self)
    }
}

impl ClauseModel {
    /// The clause under `n` more universal binders.
    pub open spec fn in_foralls(self, n: nat) -> ClauseModel {
        ClauseModel { foralls: self.foralls + n, kind: self.kind }
    }
}

impl GoalModel {
    /// The goal under `n` universal binders; the goal itself when `n` is 0.
    pub open spec fn in_foralls(self, n: nat) -> GoalModel {
        if n == 0 {
            self
        } else {
            GoalModel::ForAll(n, Box::new(self))
        }
    }

    /// The goal under `n` existential binders; the goal itself when `n` is 0.
    pub open spec fn in_exists(self, n: nat) -> GoalModel {
        if n == 0 {
            self
        } else {
            GoalModel::Exists(n, Box::new(self))
        }
    }
}

impl Clause {
    /// A clause with the body `kind`, under no binder.
    pub fn new(kind: ClauseKind) -> (clause: Clause)
        ensures
            clause@ == (ClauseModel { foralls: 0, kind: kind@ }),
    {
        Clause { foralls: 0, kind }
    }

    /// The clause under `n` more universal binders.
    pub fn in_foralls(self, n: usize) -> (clause: Clause)
        requires
            self.foralls + n <= usize::MAX,
        ensures
            clause@ == self@.in_foralls(n as nat),
    {
        Clause { foralls: self.foralls + n, kind: self.kind }
    }
}

impl Goal {
    /// The goal under `n` universal binders; the goal itself when `n` is 0.
    pub fn in_foralls(self, n: usize) -> (goal: Goal)
        ensures
            goal@ == self@.in_foralls(n as nat),
    {
        if n == 0 {
            self
        } else {
            Goal::ForAll(n, Box::new(self))
        }
    }

    /// The goal under `n` existential binders; the goal itself when `n` is 0.
    pub fn in_exists(self, n: usize) -> (goal: Goal)
        ensures
            goal@ == self@.in_exists(n as nat),
    {
        if n == 0 {
            self
        } else {
            Goal::Exists(n, Box::new(self))
        }
    }
}

} // verus!
