//! The clause builder: it owns the clauses emitted so far and the stack of
//! binders in scope, and wraps each clause it emits in the binders that are
//! in scope at that moment.

use crate::fold::Fold;
use crate::ir::{
    clause_models, goal_models, parameter_models, placeholder_models, Binders, DomainGoal, Goal,
    GoalModel, ImplicationModel, Parameter, ProgramClause, ProgramClauseImplication,
    ProgramClauseModel, Ty, TyModel, VariableKind,
};
use crate::rust_ir::RustIrDatabase;
use crate::scope::BinderStack;
use vstd::prelude::*;

verus! {

/// The clause that is emitted for `implication` while `binders` are in scope:
/// the bare implication when there are none, else the implication under
/// exactly those binders.
pub open spec fn emitted_clause(
    binders: Seq<VariableKind>,
    implication: ImplicationModel,
) -> ProgramClauseModel {
    if binders.len() == 0 {
        ProgramClauseModel::Implies(implication)
    } else {
        ProgramClauseModel::ForAll(binders, implication)
    }
}

/// A clause emitted with no binder in scope is a bare implication, never
/// under binders; a clause emitted with binders in scope is under binders,
/// and under exactly those in scope. Either way it holds the implication
/// that was pushed.
pub proof fn lemma_emitted_clause_wrapping(binders: Seq<VariableKind>, implication: ImplicationModel)
    ensures
        binders.len() == 0 ==> emitted_clause(binders, implication) == ProgramClauseModel::Implies(
            implication,
        ),
        binders.len() > 0 ==> emitted_clause(binders, implication) == ProgramClauseModel::ForAll(
            binders,
            implication,
        ),
        emitted_clause(binders, implication) is ForAll <==> binders.len() > 0,
        emitted_clause(binders, implication).binders() == binders,
        emitted_clause(binders, implication).implication() == implication,
{
    if binders.len() == 0 {
        assert(binders =~= Seq::<VariableKind>::empty());
    }
}

impl<V: Fold> Binders<V> {
    /// The value has no bound variable outside the binders, nor one used at
    /// another kind than its binder's.
    pub open spec fn well_formed(&self) -> bool {
        V::closed(self.value@, self.binders@)
    }

    /// Puts `value` under `binders`, if each of its bound variables refers to
    /// one of them at the right kind.
    pub fn new(binders: Vec<VariableKind>, value: V) -> (r: Option<Self>)
        ensures
            r is Some <==> V::closed(value@, binders@),
            r matches Some(b) ==> b.binders@ == binders@ && b.value@ == value@ && b.well_formed(),
    {
        if value.is_closed(&binders) {
            Some(Binders { binders, value })
        } else {
            None
        }
    }
}

/// Builds up a list of program clauses. Binders are pushed for the time of
/// one callback; each clause pushed meanwhile is wrapped in the binders then
/// in scope.
pub struct ClauseBuilder<'me> {
    db: &'me RustIrDatabase,
    clauses: Vec<ProgramClause>,
    scope: BinderStack,
}

impl<'me> ClauseBuilder<'me> {
    /// The stack of binders is well formed. Every builder that `new` made is
    /// well formed, and every method keeps it so.
    pub closed spec fn well_formed(&self) -> bool {
        self.scope.well_formed()
    }

    /// The clauses emitted so far, oldest first.
    pub closed spec fn clauses(&self) -> Seq<ProgramClauseModel> {
        clause_models(self.clauses@)
    }

    /// The binders in scope, outermost first.
    pub closed spec fn binders(&self) -> Seq<VariableKind> {
        self.scope.binders()
    }

    /// The database that the builder was made for.
    pub closed spec fn database(&self) -> &'me RustIrDatabase {
        self.db
    }

    /// A builder with no binder in scope, which appends to `clauses`.
    pub fn new(db: &'me RustIrDatabase, clauses: Vec<ProgramClause>) -> (b: Self)
        ensures
            b.well_formed(),
            b.clauses() == clause_models(clauses@),
            b.binders() == Seq::<VariableKind>::empty(),
            b.database() == db,
    {
        ClauseBuilder { db, clauses, scope: BinderStack::new() }
    }

    /// The database that the builder was made for.
    pub fn db(&self) -> (db: &'me RustIrDatabase)
        ensures
            db == self.database(),
    {
        self.db
    }

    /// Gives back the clauses emitted so far.
    pub fn into_clauses(self) -> (clauses: Vec<ProgramClause>)
        ensures
            clause_models(clauses@) == self.clauses(),
    {
        self.clauses
    }

    /// Emits the fact `consequence`, which holds without condition, under the
    /// binders in scope.
    pub fn push_fact(&mut self, consequence: DomainGoal)
        requires
            old(self).well_formed(),
        ensures
            final(self).well_formed(),
            final(self).binders() == old(self).binders(),
            final(self).database() == old(self).database(),
            final(self).clauses() == old(self).clauses().push(
                emitted_clause(
                    old(self).binders(),
                    ImplicationModel { consequence: consequence@, conditions: Seq::empty() },
                ),
            ),
    {
        let conditions: Vec<Goal> = Vec::new();
        assert(goal_models(conditions@) =~= Seq::<GoalModel>::empty());
        self.push_clause(consequence, conditions);
    }

    /// Emits the clause `consequence :- conditions` under the binders in
    /// scope: bare when there are none, else wrapped in a copy of exactly
    /// those binders.
    pub fn push_clause(&mut self, consequence: DomainGoal, conditions: Vec<Goal>)
        requires
            old(self).well_formed(),
        ensures
            final(self).well_formed(),
            final(self).binders() == old(self).binders(),
            final(self).database() == old(self).database(),
            final(self).clauses() == old(self).clauses().push(
                emitted_clause(
                    old(self).binders(),
                    ImplicationModel {
                        consequence: consequence@,
                        conditions: goal_models(conditions@),
                    },
                ),
            ),
    {
        let clause = ProgramClauseImplication { consequence, conditions };
        let wrapped = if self.scope.len() == 0 {
            ProgramClause::Implies(clause)
        } else {
            ProgramClause::ForAll(Binders { binders: self.scope.to_vec(), value: clause })
        };
        self.clauses.push(wrapped);
        assert(clause_models(self.clauses@) =~= clause_models(old(self).clauses@).push(wrapped@));
    }

    /// The placeholders of the binders in scope, outermost first: the one at
    /// position `i` refers to binder `i`.
    pub fn placeholders_in_scope(&self) -> (placeholders: &[Parameter])
        requires
            self.well_formed(),
        ensures
            parameter_models(placeholders@) == placeholder_models(self.binders(), 0),
    {
        self.scope.snapshot()
    }

    /// The state in which `push_binders` hands the builder `entered` and the
    /// value `value` to its callback, when it was called on `self` with
    /// `binders`: the new binders stand at the end of the stack, no clause
    /// has been added, and `value` is the bound value with the new
    /// placeholders in place of its bound variables.
    pub open spec fn enters<V: Fold>(
        &self,
        binders: &Binders<V>,
        entered: Self,
        value: V,
    ) -> bool {
        &&& entered.well_formed()
        &&& entered.binders() == self.binders() + binders.binders@
        &&& entered.clauses() == self.clauses()
        &&& entered.database() == self.database()
        &&& value@ == V::substituted(
            binders.value@,
            placeholder_models(binders.binders@, self.binders().len()),
        )
    }

    /// What a callback owes: it leaves the binders in scope as it found
    /// them, and only adds clauses.
    pub open spec fn keeps_scope(&self, after: Self) -> bool {
        &&& after.well_formed()
        &&& after.binders() == self.binders()
        &&& after.database() == self.database()
        &&& self.clauses().is_prefix_of(after.clauses())
    }

    /// Runs `op` with `binders` in scope. The new binders go to the end of
    /// the stack, so that what referred to the binders already there stays
    /// valid. `op` gets the bound value, with the new placeholders in place
    /// of its bound variables. When `op` is done, the new binders leave the
    /// scope again; the clauses that `op` pushed stay.
    ///
    /// `op` itself must leave the scope as it finds it, which it does if it
    /// changes the builder through its methods only.
    pub fn push_binders<V: Fold, F: FnOnce(&mut Self, V)>(&mut self, binders: &Binders<V>, op: F)
        requires
            old(self).well_formed(),
            binders.well_formed(),
            forall|b: &mut Self, v: V|
                old(self).enters(binders, *b, v) ==> #[trigger] call_requires(op, (b, v)),
            forall|b: &mut Self, v: V|
                #[trigger] call_ensures(op, (b, v), ()) ==> (*b).keeps_scope(*final(b)),
        ensures
            old(self).keeps_scope(*final(self)),
            exists|b: &mut Self, v: V|
                old(self).enters(binders, *b, v) && #[trigger] call_ensures(op, (b, v), ())
                    && final(self).clauses() == (*final(b)).clauses(),
    {
        let old_len = self.scope.len();
        self.scope.push(&binders.binders);
        let value = binders.value.substitute(&binders.binders, old_len);
        assert(old(self).enters(binders, *self, value));
        op(self, value);
        self.scope.pop(binders.binders.len());
        assert(self.binders() =~= old(self).binders());
    }

    /// Runs `op` with one more binder in scope, for a type. `op` gets the
    /// type that refers to the new binder. The binders already in scope keep
    /// their positions.
    pub fn push_bound_ty<F: FnOnce(&mut Self, Ty)>(&mut self, op: F)
        requires
            old(self).well_formed(),
            forall|b: &mut Self, ty: Ty|
                old(self).enters_bound_ty(*b, ty) ==> #[trigger] call_requires(op, (b, ty)),
            forall|b: &mut Self, ty: Ty|
                #[trigger] call_ensures(op, (b, ty), ()) ==> (*b).keeps_scope(*final(b)),
        ensures
            old(self).keeps_scope(*final(self)),
            exists|b: &mut Self, ty: Ty|
                old(self).enters_bound_ty(*b, ty) && #[trigger] call_ensures(op, (b, ty), ())
                    && final(self).clauses() == (*final(b)).clauses(),
    {
        let mut kinds: Vec<VariableKind> = Vec::new();
        kinds.push(VariableKind::Ty);
        let binders = Binders { binders: kinds, value: Ty::BoundVar(0) };
        assert forall|b: Self, ty: Ty| old(self).enters(&binders, b, ty) implies old(
            self,
        ).enters_bound_ty(b, ty) by {
            assert(old(self).binders() + binders.binders@ =~= old(self).binders().push(
                VariableKind::Ty,
            ));
        }
        self.push_binders(&binders, op);
    }

    /// The state in which `push_bound_ty` hands the builder `entered` and the
    /// type `ty` to its callback, when it was called on `self`: one binder
    /// for a type stands at the end of the stack, no clause has been added,
    /// and `ty` refers to the new binder.
    pub open spec fn enters_bound_ty(&self, entered: Self, ty: Ty) -> bool {
        &&& entered.well_formed()
        &&& entered.binders() == self.binders().push(VariableKind::Ty)
        &&& entered.clauses() == self.clauses()
        &&& entered.database() == self.database()
        &&& ty@ == TyModel::BoundVar(self.binders().len())
    }
}

} // verus!
