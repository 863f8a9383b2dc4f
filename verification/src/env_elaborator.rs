//! Elaboration of the environment: from the clauses that the environment
//! holds, the clauses that they imply through the declarations of the traits
//! and types that they speak of. One round; what it yields is not elaborated
//! again.

use crate::builder::ClauseBuilder;
use crate::clause_set::{clause_set, clause_set_len, extend_clause_set};
use crate::ir::{
    clause_models, AssocTypeId, DomainGoal, DomainGoalModel, FromEnv, FromEnvModel, ProgramClause,
    ProgramClauseModel, Ty, TyModel, VariableKind,
};
use crate::rust_ir::{
    emitted_clauses, lemma_emitted_clauses_concat, match_type_name, QuantifiedClauseModel,
    RustIrDatabase, ToProgramClauses,
};
use rustc_hash::FxHashSet;
use vstd::prelude::*;

verus! {

/// The database holds every item that the type `ty` refers to by its head.
pub open spec fn ty_known(db: &RustIrDatabase, ty: TyModel) -> bool {
    match ty {
        TyModel::Apply(name, _) => db.has_type_name(name),
        TyModel::Alias(id, _) => db.has_associated_ty(id),
        _ => true,
    }
}

/// The database holds every item that `from_env` refers to by its head.
pub open spec fn from_env_known(db: &RustIrDatabase, from_env: FromEnvModel) -> bool {
    match from_env {
        FromEnvModel::Trait(trait_ref) => db.has_trait(trait_ref.trait_id),
        FromEnvModel::Ty(ty) => ty_known(db, ty),
    }
}

/// The database holds every item that elaborating `goal` asks it for.
pub open spec fn domain_goal_known(db: &RustIrDatabase, goal: DomainGoalModel) -> bool {
    match goal {
        DomainGoalModel::FromEnv(from_env) => from_env_known(db, from_env),
        _ => true,
    }
}

/// The database holds every item that elaborating `clause` asks it for.
pub open spec fn clause_known(db: &RustIrDatabase, clause: ProgramClauseModel) -> bool {
    domain_goal_known(db, clause.implication().consequence)
}

/// Tests that the database holds every item that elaborating `clause` asks
/// it for.
pub fn clause_is_known(db: &RustIrDatabase, clause: &ProgramClause) -> (b: bool)
    ensures
        b == clause_known(db, clause@),
{
    let consequence = match clause {
        ProgramClause::Implies(implication) => &implication.consequence,
        ProgramClause::ForAll(binders) => &binders.value.consequence,
    };
    match consequence {
        DomainGoal::FromEnv(FromEnv::Trait(trait_ref)) => db.knows_trait(trait_ref.trait_id),
        DomainGoal::FromEnv(FromEnv::Ty(Ty::Apply(name, _))) => db.knows_type_name(*name),
        DomainGoal::FromEnv(FromEnv::Ty(Ty::Alias(id, _))) => db.knows_associated_ty(*id),
        _ => true,
    }
}

/// What knowing the type `ty` from the environment implies: for an applied
/// type, the clauses that match its name; for an alias, the clauses of its
/// associated type; for any other type, nothing.
pub open spec fn implied_by_ty(db: &RustIrDatabase, ty: TyModel) -> Seq<QuantifiedClauseModel> {
    match ty {
        TyModel::Apply(name, _) => db.type_name_clauses(name),
        TyModel::Alias(id, _) => db.associated_ty_clauses(id),
        _ => Seq::empty(),
    }
}

/// What `from_env` implies: for a trait reference, the clauses of the trait,
/// then those of each associated type that the trait declares, in the order
/// of the declaration; for a type, what the type implies.
pub open spec fn implied_by_from_env(db: &RustIrDatabase, from_env: FromEnvModel) -> Seq<
    QuantifiedClauseModel,
> {
    match from_env {
        FromEnvModel::Trait(trait_ref) => db.trait_clauses(trait_ref.trait_id)
            + db.associated_tys_clauses(
            db.traits@[trait_ref.trait_id.0 as int].associated_ty_ids@,
        ),
        FromEnvModel::Ty(ty) => implied_by_ty(db, ty),
    }
}

/// What the consequence `goal` implies: what it says is known from the
/// environment, if it is of that form, and nothing otherwise.
pub open spec fn implied_by_domain_goal(db: &RustIrDatabase, goal: DomainGoalModel) -> Seq<
    QuantifiedClauseModel,
> {
    match goal {
        DomainGoalModel::FromEnv(from_env) => implied_by_from_env(db, from_env),
        _ => Seq::empty(),
    }
}

/// What `clause` implies: what its consequence implies, whether the clause
/// is under binders or not.
pub open spec fn implied_by_clause(db: &RustIrDatabase, clause: ProgramClauseModel) -> Seq<
    QuantifiedClauseModel,
> {
    implied_by_domain_goal(db, clause.implication().consequence)
}

/// What the clauses `clauses` imply, clause after clause.
pub open spec fn implied_by_clauses(db: &RustIrDatabase, clauses: Seq<ProgramClauseModel>) -> Seq<
    QuantifiedClauseModel,
>
    decreases clauses.len(),
{
    if clauses.len() == 0 {
        Seq::empty()
    } else {
        implied_by_clauses(db, clauses.drop_last()) + implied_by_clause(db, clauses.last())
    }
}

/// The clauses that one round of elaboration adds for the environment
/// `clauses`: what they imply, emitted with no binder in scope.
pub open spec fn elaborated(db: &RustIrDatabase, clauses: Seq<ProgramClauseModel>) -> Seq<
    ProgramClauseModel,
> {
    emitted_clauses(implied_by_clauses(db, clauses), Seq::empty())
}

/// Adds to `out` the clauses that the environment `in_clauses` implies. A
/// clause that `out` holds already is not added again. What is added is not
/// itself elaborated: this is one round.
pub fn elaborate_env_clauses(
    db: &RustIrDatabase,
    in_clauses: &Vec<ProgramClause>,
    out: &mut FxHashSet<ProgramClause>,
)
    requires
        db.well_formed(),
        forall|i: int| 0 <= i < in_clauses@.len() ==> clause_known(db, (#[trigger] in_clauses@[i])@),
    ensures
        clause_set(*final(out)) == clause_set(*old(out)).union(
            elaborated(db, clause_models(in_clauses@)).to_set(),
        ),
        clause_set(*final(out)).finite(),
{
    let this_round: Vec<ProgramClause> = Vec::new();
    assert(clause_models(this_round@) =~= Seq::<ProgramClauseModel>::empty());
    let mut visitor = EnvElaborator::new(db, this_round);
    let ghost models = clause_models(in_clauses@);
    let mut i: usize = 0;
    while i < in_clauses.len()
        invariant
            i <= in_clauses.len(),
            db.well_formed(),
            models == clause_models(in_clauses@),
            forall|k: int|
                0 <= k < in_clauses@.len() ==> clause_known(db, (#[trigger] in_clauses@[k])@),
            visitor.well_formed(),
            visitor.database() == db,
            visitor.binders() == Seq::<VariableKind>::empty(),
            visitor.clauses() == elaborated(db, models.take(i as int)),
        decreases in_clauses.len() - i,
    {
        assert(clause_known(db, in_clauses@[i as int]@));
        visitor.visit_program_clause(&in_clauses[i]);
        proof {
            assert(models.take(i + 1).drop_last() =~= models.take(i as int));
            assert(models.take(i + 1).last() == in_clauses@[i as int]@);
            lemma_emitted_clauses_concat(
                implied_by_clauses(db, models.take(i as int)),
                implied_by_clause(db, in_clauses@[i as int]@),
                Seq::empty(),
            );
        }
        i = i + 1;
    }
    assert(models.take(i as int) == models);
    let this_round = visitor.into_clauses();
    extend_clause_set(out, this_round);
}

/// Elaborating the same environment into the same set a second time adds
/// nothing: the set, and the number of clauses in it, are as after the first
/// time.
pub proof fn lemma_elaboration_idempotent(
    db: &RustIrDatabase,
    clauses: Seq<ProgramClauseModel>,
    set: Set<ProgramClauseModel>,
)
    ensures
        set.union(elaborated(db, clauses).to_set()).union(elaborated(db, clauses).to_set())
            == set.union(elaborated(db, clauses).to_set()),
        set.union(elaborated(db, clauses).to_set()).union(elaborated(db, clauses).to_set()).len()
            == set.union(elaborated(db, clauses).to_set()).len(),
{
    let added = elaborated(db, clauses).to_set();
    assert(set.union(added).union(added) =~= set.union(added));
}

/// The number of clauses that `set` holds.
pub fn clause_count(set: &FxHashSet<ProgramClause>) -> (n: usize)
    ensures
        n == clause_set(*set).len(),
{
    clause_set_len(set)
}

/// Walks the clauses of an environment and emits what they imply.
pub struct EnvElaborator<'me> {
    db: &'me RustIrDatabase,
    builder: ClauseBuilder<'me>,
}

impl<'me> EnvElaborator<'me> {
    /// The builder is well formed and was made for the database of the
    /// elaborator.
    pub closed spec fn well_formed(&self) -> bool {
        self.builder.well_formed() && self.builder.database() == self.db
    }

    /// The database that the elaborator asks.
    pub closed spec fn database(&self) -> &'me RustIrDatabase {
        self.db
    }

    /// The binders in scope of the builder.
    pub closed spec fn binders(&self) -> Seq<VariableKind> {
        self.builder.binders()
    }

    /// The clauses emitted so far.
    pub closed spec fn clauses(&self) -> Seq<ProgramClauseModel> {
        self.builder.clauses()
    }

    /// After `after`, the elaborator is as before but for the clauses
    /// `added`, which stand at the end of those emitted.
    pub open spec fn adds(&self, after: Self, added: Seq<QuantifiedClauseModel>) -> bool {
        &&& after.well_formed()
        &&& after.database() == self.database()
        &&& after.binders() == self.binders()
        &&& after.clauses() == self.clauses() + emitted_clauses(added, self.binders())
    }

    /// An elaborator over `db` that appends to `out`, with no binder in
    /// scope.
    pub fn new(db: &'me RustIrDatabase, out: Vec<ProgramClause>) -> (e: Self)
        ensures
            e.well_formed(),
            e.database() == db,
            e.binders() == Seq::<VariableKind>::empty(),
            e.clauses() == clause_models(out@),
    {
        EnvElaborator { db, builder: ClauseBuilder::new(db, out) }
    }

    /// Gives back the clauses emitted so far.
    pub fn into_clauses(self) -> (clauses: Vec<ProgramClause>)
        ensures
            clause_models(clauses@) == self.clauses(),
    {
        self.builder.into_clauses()
    }

    /// Emits the clauses of the associated type that an alias type refers
    /// to.
    pub fn visit_alias_ty(&mut self, associated_ty_id: AssocTypeId)
        requires
            old(self).well_formed(),
            old(self).database().well_formed(),
            old(self).database().has_associated_ty(associated_ty_id),
        ensures
            old(self).adds(
                *final(self),
                old(self).database().associated_ty_clauses(associated_ty_id),
            ),
    {
        self.db.associated_ty_data(associated_ty_id).to_program_clauses(&mut self.builder);
    }

    /// Emits what knowing the type `ty` from the environment implies.
    pub fn visit_ty(&mut self, ty: &Ty)
        requires
            old(self).well_formed(),
            old(self).database().well_formed(),
            ty_known(old(self).database(), ty@),
        ensures
            old(self).adds(*final(self), implied_by_ty(old(self).database(), ty@)),
    {
        match ty {
            Ty::Apply(name, _) => match_type_name(&mut self.builder, *name),
            Ty::Placeholder(_) => {
                proof {
                    self.nothing_added();
                }
            },
            Ty::Alias(associated_ty_id, _) => {
                self.visit_alias_ty(*associated_ty_id);
            },
            // The bounds that a trait object implies are not elaborated.
            Ty::Dyn(_) => {
                proof {
                    self.nothing_added();
                }
            },
            Ty::Function(_) | Ty::BoundVar(_) | Ty::InferenceVar(_) => {
                proof {
                    self.nothing_added();
                }
            },
        }
    }

    /// Emits what `from_env` implies.
    pub fn visit_from_env(&mut self, from_env: &FromEnv)
        requires
            old(self).well_formed(),
            old(self).database().well_formed(),
            from_env_known(old(self).database(), from_env@),
        ensures
            old(self).adds(*final(self), implied_by_from_env(old(self).database(), from_env@)),
    {
        match from_env {
            FromEnv::Trait(trait_ref) => {
                let db = self.db;
                let trait_datum = db.trait_datum(trait_ref.trait_id);
                let ghost scope = self.builder.binders();
                let ghost ids = trait_datum.associated_ty_ids@;
                assert(trait_datum == db.traits@[trait_ref.trait_id.0 as int]);

                trait_datum.to_program_clauses(&mut self.builder);

                // Who knows the trait of a type knows what holds of the
                // associated types of the trait as well.
                let mut i: usize = 0;
                assert(db.associated_tys_clauses(ids.take(0)) =~= Seq::empty());
                assert(emitted_clauses(db.trait_clauses(trait_ref.trait_id), scope)
                    =~= emitted_clauses(
                    db.trait_clauses(trait_ref.trait_id) + db.associated_tys_clauses(ids.take(0)),
                    scope,
                ));
                while i < trait_datum.associated_ty_ids.len()
                    invariant
                        i <= trait_datum.associated_ty_ids.len(),
                        db.well_formed(),
                        db == old(self).database(),
                        trait_datum == db.traits@[trait_ref.trait_id.0 as int],
                        db.has_trait(trait_ref.trait_id),
                        ids == trait_datum.associated_ty_ids@,
                        scope == old(self).binders(),
                        old(self).adds(
                            *self,
                            db.trait_clauses(trait_ref.trait_id) + db.associated_tys_clauses(
                                ids.take(i as int),
                            ),
                        ),
                    decreases trait_datum.associated_ty_ids.len() - i,
                {
                    let associated_ty_id = trait_datum.associated_ty_ids[i];
                    let ghost before = self.clauses();
                    let ghost so_far = db.trait_clauses(trait_ref.trait_id)
                        + db.associated_tys_clauses(ids.take(i as int));
                    assert(db.has_associated_ty(
                        db.traits@[trait_ref.trait_id.0 as int].associated_ty_ids@[i as int],
                    ));
                    db.associated_ty_data(associated_ty_id).to_program_clauses(&mut self.builder);
                    proof {
                        assert(ids.take(i + 1).drop_last() =~= ids.take(i as int));
                        assert(ids.take(i + 1).last() == associated_ty_id);
                        assert(db.associated_tys_clauses(ids.take(i + 1))
                            == db.associated_tys_clauses(ids.take(i as int))
                            + db.associated_ty_clauses(associated_ty_id));
                        assert(self.clauses() == before + emitted_clauses(
                            db.associated_ty_clauses(associated_ty_id),
                            scope,
                        ));
                        assert(before == old(self).clauses() + emitted_clauses(so_far, scope));
                        assert(self.clauses() =~= old(self).clauses() + (emitted_clauses(
                            so_far,
                            scope,
                        ) + emitted_clauses(db.associated_ty_clauses(associated_ty_id), scope)));
                        lemma_emitted_clauses_concat(
                            db.trait_clauses(trait_ref.trait_id) + db.associated_tys_clauses(
                                ids.take(i as int),
                            ),
                            db.associated_ty_clauses(associated_ty_id),
                            scope,
                        );
                        assert(db.trait_clauses(trait_ref.trait_id) + db.associated_tys_clauses(
                            ids.take(i + 1),
                        ) =~= (db.trait_clauses(trait_ref.trait_id) + db.associated_tys_clauses(
                            ids.take(i as int),
                        )) + db.associated_ty_clauses(associated_ty_id));
                    }
                    i = i + 1;
                }
                assert(ids.take(i as int) == ids);
            },
            FromEnv::Ty(ty) => self.visit_ty(ty),
        }
    }

    /// Emits what the consequence `domain_goal` implies: something only if
    /// it says that a fact is known from the environment.
    pub fn visit_domain_goal(&mut self, domain_goal: &DomainGoal)
        requires
            old(self).well_formed(),
            old(self).database().well_formed(),
            domain_goal_known(old(self).database(), domain_goal@),
        ensures
            old(self).adds(
                *final(self),
                implied_by_domain_goal(old(self).database(), domain_goal@),
            ),
    {
        match domain_goal {
            DomainGoal::FromEnv(from_env) => self.visit_from_env(from_env),
            _ => {
                proof {
                    self.nothing_added();
                }
            },
        }
    }

    /// Emits what `clause` implies: what its consequence implies, whether
    /// the clause is under binders or not.
    pub fn visit_program_clause(&mut self, clause: &ProgramClause)
        requires
            old(self).well_formed(),
            old(self).database().well_formed(),
            clause_known(old(self).database(), clause@),
        ensures
            old(self).adds(*final(self), implied_by_clause(old(self).database(), clause@)),
    {
        match clause {
            ProgramClause::Implies(clause) => self.visit_domain_goal(&clause.consequence),
            ProgramClause::ForAll(clause) => self.visit_domain_goal(&clause.value.consequence),
        }
    }

    /// Emitting nothing leaves the elaborator as it is.
    proof fn nothing_added(&self)
        requires
            self.well_formed(),
        ensures
            self.adds(*self, Seq::empty()),
    {
        assert(self.clauses() =~= self.clauses() + emitted_clauses(Seq::empty(), self.binders()));
    }
}

} // verus!
