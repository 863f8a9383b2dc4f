//! The database of declared items, and the program clauses that each item
//! stands for.

use crate::builder::{emitted_clause, lemma_emitted_clause_wrapping, ClauseBuilder};
use crate::fold::{
    implication_closed, implication_is_closed, implication_substituted,
    lemma_implication_substituted_closed, lemma_implication_substituted_in_place,
};
use crate::ir::{
    placeholder_models, AssocTypeId, Binders, ImplicationModel, ProgramClauseImplication,
    ProgramClauseModel, StructId, TraitId, TypeName, VariableKind,
};
use vstd::prelude::*;

verus! {

/// Model of an implication under its own binders.
pub struct QuantifiedClauseModel {
    pub binders: Seq<VariableKind>,
    pub implication: ImplicationModel,
}

/// The models of a list of implications under binders.
pub open spec fn quantified_models(
    clauses: Seq<Binders<ProgramClauseImplication>>,
) -> Seq<QuantifiedClauseModel> {
    Seq::new(
        clauses.len(),
        |i: int| QuantifiedClauseModel { binders: clauses[i].binders@, implication: clauses[i].value@ },
    )
}

/// No implication of `clauses` has a bound variable outside its binders.
pub open spec fn all_closed(clauses: Seq<QuantifiedClauseModel>) -> bool {
    forall|i: int|
        0 <= i < clauses.len() ==> implication_closed(
            (#[trigger] clauses[i]).implication,
            clauses[i].binders,
        )
}

/// The clause that a builder emits for `clause` while `scope` is in scope:
/// the binders of the clause go to the end of the scope, and its bound
/// variables refer to them there.
pub open spec fn emitted_in_scope(
    clause: QuantifiedClauseModel,
    scope: Seq<VariableKind>,
) -> ProgramClauseModel {
    emitted_clause(
        scope + clause.binders,
        implication_substituted(clause.implication, placeholder_models(clause.binders, scope.len())),
    )
}

/// The clauses that a builder emits for `clauses`, in order, while `scope` is
/// in scope.
pub open spec fn emitted_clauses(
    clauses: Seq<QuantifiedClauseModel>,
    scope: Seq<VariableKind>,
) -> Seq<ProgramClauseModel> {
    Seq::new(clauses.len(), |i: int| emitted_in_scope(clauses[i], scope))
}

/// Emitting a concatenation emits the one list, then the other.
pub proof fn lemma_emitted_clauses_concat(
    a: Seq<QuantifiedClauseModel>,
    b: Seq<QuantifiedClauseModel>,
    scope: Seq<VariableKind>,
)
    ensures
        emitted_clauses(a + b, scope) == emitted_clauses(a, scope) + emitted_clauses(b, scope),
{
    assert(emitted_clauses(a + b, scope) =~= emitted_clauses(a, scope) + emitted_clauses(b, scope));
}

/// No variable of `clause` dangles: each bound variable of its implication
/// refers to one of the binders that wrap the clause, at that binder's kind.
pub open spec fn clause_closed(clause: ProgramClauseModel) -> bool {
    implication_closed(clause.implication(), clause.binders())
}

/// The clause that a builder emits for an implication under binders has no
/// dangling variable, whatever binders were in scope.
pub proof fn lemma_emitted_in_scope_closed(clause: QuantifiedClauseModel, scope: Seq<VariableKind>)
    requires
        implication_closed(clause.implication, clause.binders),
        scope.len() + clause.binders.len() <= usize::MAX,
    ensures
        clause_closed(emitted_in_scope(clause, scope)),
{
    lemma_implication_substituted_closed(clause.implication, clause.binders, scope);
    lemma_emitted_clause_wrapping(
        scope + clause.binders,
        implication_substituted(clause.implication, placeholder_models(clause.binders, scope.len())),
    );
}

/// With no binder in scope, a builder emits an implication under binders as
/// it stands, under those binders; and bare, if there are none.
pub proof fn lemma_emitted_with_empty_scope(clause: QuantifiedClauseModel)
    requires
        implication_closed(clause.implication, clause.binders),
        clause.binders.len() <= usize::MAX,
    ensures
        emitted_in_scope(clause, Seq::empty()) == emitted_clause(
            clause.binders,
            clause.implication,
        ),
{
    lemma_implication_substituted_in_place(clause.implication, clause.binders);
    assert(Seq::<VariableKind>::empty() + clause.binders =~= clause.binders);
}

/// A trait declaration.
pub struct TraitDatum {
    /// The associated types that the trait declares.
    pub associated_ty_ids: Vec<AssocTypeId>,
    /// The clauses that the declaration stands for, each under its binders.
    pub clauses: Vec<Binders<ProgramClauseImplication>>,
}

/// An associated type declared inside a trait.
pub struct AssociatedTyDatum {
    /// The trait that declares it.
    pub trait_id: TraitId,
    /// The clauses that the declaration stands for, each under its binders.
    pub clauses: Vec<Binders<ProgramClauseImplication>>,
}

/// A struct declaration.
pub struct StructDatum {
    /// The clauses that the declaration stands for, each under its binders.
    pub clauses: Vec<Binders<ProgramClauseImplication>>,
}

/// An item that stands for program clauses.
pub trait ToProgramClauses {
    /// The clauses that the item stands for, each under its binders.
    spec fn program_clauses(&self) -> Seq<QuantifiedClauseModel>;

    /// Emits the clauses of the item, in order. Each goes under the binders
    /// in scope, then its own.
    fn to_program_clauses<'a>(&self, builder: &mut ClauseBuilder<'a>)
        requires
            old(builder).well_formed(),
            all_closed(self.program_clauses()),
        ensures
            old(builder).keeps_scope(*final(builder)),
            final(builder).clauses() == old(builder).clauses() + emitted_clauses(
                self.program_clauses(),
                old(builder).binders(),
            ),
    ;
}

/// Emits `clause` under the binders in scope, then its own.
fn push_quantified_clause<'a>(
    clause: &Binders<ProgramClauseImplication>,
    builder: &mut ClauseBuilder<'a>,
)
    requires
        old(builder).well_formed(),
        clause.well_formed(),
    ensures
        old(builder).keeps_scope(*final(builder)),
        final(builder).clauses() == old(builder).clauses().push(
            emitted_in_scope(
                QuantifiedClauseModel { binders: clause.binders@, implication: clause.value@ },
                old(builder).binders(),
            ),
        ),
{
    builder.push_binders(clause, |b: &mut ClauseBuilder, imp: ProgramClauseImplication|
        requires
            old(b).well_formed(),
        ensures
            old(b).keeps_scope(*final(b)),
            final(b).clauses() == old(b).clauses().push(emitted_clause(old(b).binders(), imp@)),
    {
        b.push_clause(imp.consequence, imp.conditions);
    });
}

/// Emits each clause of `clauses`, in order.
fn push_quantified_clauses<'a>(
    clauses: &Vec<Binders<ProgramClauseImplication>>,
    builder: &mut ClauseBuilder<'a>,
)
    requires
        old(builder).well_formed(),
        all_closed(quantified_models(clauses@)),
    ensures
        old(builder).keeps_scope(*final(builder)),
        final(builder).clauses() == old(builder).clauses() + emitted_clauses(
            quantified_models(clauses@),
            old(builder).binders(),
        ),
{
    let ghost scope = builder.binders();
    let ghost models = quantified_models(clauses@);
    let mut i: usize = 0;
    while i < clauses.len()
        invariant
            i <= clauses.len(),
            models == quantified_models(clauses@),
            all_closed(models),
            scope == old(builder).binders(),
            old(builder).keeps_scope(*builder),
            builder.clauses() == old(builder).clauses() + emitted_clauses(
                models.take(i as int),
                scope,
            ),
        decreases clauses.len() - i,
    {
        assert(implication_closed(models[i as int].implication, models[i as int].binders));
        push_quantified_clause(&clauses[i], builder);
        proof {
            assert(models.take(i + 1) =~= models.take(i as int).push(models[i as int]));
            assert(emitted_clauses(models.take(i + 1), scope) =~= emitted_clauses(
                models.take(i as int),
                scope,
            ).push(emitted_in_scope(models[i as int], scope)));
            assert(builder.clauses() =~= old(builder).clauses() + emitted_clauses(
                models.take(i + 1),
                scope,
            ));
        }
        i = i + 1;
    }
    assert(models.take(i as int) == models);
}

impl ToProgramClauses for TraitDatum {
    open spec fn program_clauses(&self) -> Seq<QuantifiedClauseModel> {
        quantified_models(self.clauses@)
    }

    fn to_program_clauses<'a>(&self, builder: &mut ClauseBuilder<'a>) {
        push_quantified_clauses(&self.clauses, builder)
    }
}

impl ToProgramClauses for AssociatedTyDatum {
    open spec fn program_clauses(&self) -> Seq<QuantifiedClauseModel> {
        quantified_models(self.clauses@)
    }

    fn to_program_clauses<'a>(&self, builder: &mut ClauseBuilder<'a>) {
        push_quantified_clauses(&self.clauses, builder)
    }
}

impl ToProgramClauses for StructDatum {
    open spec fn program_clauses(&self) -> Seq<QuantifiedClauseModel> {
        quantified_models(self.clauses@)
    }

    fn to_program_clauses<'a>(&self, builder: &mut ClauseBuilder<'a>) {
        push_quantified_clauses(&self.clauses, builder)
    }
}

/// Tests that no clause of `clauses` has a bound variable outside its
/// binders.
fn clauses_are_closed(clauses: &Vec<Binders<ProgramClauseImplication>>) -> (b: bool)
    ensures
        b == all_closed(quantified_models(clauses@)),
{
    let mut i: usize = 0;
    while i < clauses.len()
        invariant
            i <= clauses.len(),
            forall|j: int|
                0 <= j < i ==> implication_closed(
                    (#[trigger] clauses@[j]).value@,
                    clauses@[j].binders@,
                ),
        decreases clauses.len() - i,
    {
        if !implication_is_closed(&clauses[i].value, &clauses[i].binders) {
            assert(!implication_closed(
                quantified_models(clauses@)[i as int].implication,
                quantified_models(clauses@)[i as int].binders,
            ));
            return false;
        }
        i = i + 1;
    }
    assert forall|j: int| 0 <= j < quantified_models(clauses@).len() implies implication_closed(
        (#[trigger] quantified_models(clauses@)[j]).implication,
        quantified_models(clauses@)[j].binders,
    ) by {
        assert(implication_closed(clauses@[j].value@, clauses@[j].binders@));
    }
    true
}

/// The declared items. An identifier is the position of its item in the
/// table of its kind.
pub struct RustIrDatabase {
    pub traits: Vec<TraitDatum>,
    pub associated_tys: Vec<AssociatedTyDatum>,
    pub structs: Vec<StructDatum>,
}

impl RustIrDatabase {
    /// The database holds a trait for `id`.
    pub open spec fn has_trait(&self, id: TraitId) -> bool {
        id.0 < self.traits@.len()
    }

    /// The database holds an associated type for `id`.
    pub open spec fn has_associated_ty(&self, id: AssocTypeId) -> bool {
        id.0 < self.associated_tys@.len()
    }

    /// The database holds a struct for `id`.
    pub open spec fn has_struct(&self, id: StructId) -> bool {
        id.0 < self.structs@.len()
    }

    /// The database holds the item that `name` names, if it names one.
    pub open spec fn has_type_name(&self, name: TypeName) -> bool {
        match name {
            TypeName::Struct(id) => self.has_struct(id),
            TypeName::AssociatedType(id) => self.has_associated_ty(id),
            TypeName::Error => true,
        }
    }

    /// The clauses of the trait `id`.
    pub open spec fn trait_clauses(&self, id: TraitId) -> Seq<QuantifiedClauseModel> {
        self.traits@[id.0 as int].program_clauses()
    }

    /// The clauses of the associated type `id`.
    pub open spec fn associated_ty_clauses(&self, id: AssocTypeId) -> Seq<QuantifiedClauseModel> {
        self.associated_tys@[id.0 as int].program_clauses()
    }

    /// The clauses of the associated types `ids`, one after the other.
    pub open spec fn associated_tys_clauses(&self, ids: Seq<AssocTypeId>) -> Seq<
        QuantifiedClauseModel,
    >
        decreases ids.len(),
    {
        if ids.len() == 0 {
            Seq::empty()
        } else {
            self.associated_tys_clauses(ids.drop_last()) + self.associated_ty_clauses(ids.last())
        }
    }

    /// The clauses of the struct `id`.
    pub open spec fn struct_clauses(&self, id: StructId) -> Seq<QuantifiedClauseModel> {
        self.structs@[id.0 as int].program_clauses()
    }

    /// The clauses that match a type of the name `name`.
    pub open spec fn type_name_clauses(&self, name: TypeName) -> Seq<QuantifiedClauseModel> {
        match name {
            TypeName::Struct(id) => self.struct_clauses(id),
            TypeName::AssociatedType(id) => self.associated_ty_clauses(id),
            TypeName::Error => Seq::empty(),
        }
    }

    /// No clause of an item has a bound variable outside its binders, and
    /// the database holds every associated type that a trait declares.
    pub open spec fn well_formed(&self) -> bool {
        &&& forall|i: int|
            0 <= i < self.traits@.len() ==> all_closed(
                (#[trigger] self.traits@[i]).program_clauses(),
            )
        &&& forall|i: int, j: int|
            0 <= i < self.traits@.len() && 0 <= j < self.traits@[i].associated_ty_ids@.len()
                ==> self.has_associated_ty(#[trigger] self.traits@[i].associated_ty_ids@[j])
        &&& forall|i: int|
            0 <= i < self.associated_tys@.len() ==> all_closed(
                (#[trigger] self.associated_tys@[i]).program_clauses(),
            )
        &&& forall|i: int|
            0 <= i < self.structs@.len() ==> all_closed(
                (#[trigger] self.structs@[i]).program_clauses(),
            )
    }

    /// Tests that the database is well formed.
    pub fn is_well_formed(&self) -> (b: bool)
        ensures
            b == self.well_formed(),
    {
        let mut i: usize = 0;
        while i < self.traits.len()
            invariant
                i <= self.traits.len(),
                forall|k: int|
                    0 <= k < i ==> all_closed((#[trigger] self.traits@[k]).program_clauses()),
                forall|k: int, j: int|
                    0 <= k < i && 0 <= j < self.traits@[k].associated_ty_ids@.len()
                        ==> self.has_associated_ty(#[trigger] self.traits@[k].associated_ty_ids@[j]),
            decreases self.traits.len() - i,
        {
            let datum = &self.traits[i];
            if !clauses_are_closed(&datum.clauses) {
                return false;
            }
            let mut j: usize = 0;
            while j < datum.associated_ty_ids.len()
                invariant
                    j <= datum.associated_ty_ids.len(),
                    i < self.traits.len(),
                    *datum == self.traits@[i as int],
                    forall|k: int|
                        0 <= k < j ==> self.has_associated_ty(
                            #[trigger] datum.associated_ty_ids@[k],
                        ),
                decreases datum.associated_ty_ids.len() - j,
            {
                if datum.associated_ty_ids[j].0 as usize >= self.associated_tys.len() {
                    assert(!self.has_associated_ty(
                        self.traits@[i as int].associated_ty_ids@[j as int],
                    ));
                    return false;
                }
                j = j + 1;
            }
            i = i + 1;
        }
        let mut i: usize = 0;
        while i < self.associated_tys.len()
            invariant
                i <= self.associated_tys.len(),
                forall|k: int|
                    0 <= k < i ==> all_closed(
                        (#[trigger] self.associated_tys@[k]).program_clauses(),
                    ),
            decreases self.associated_tys.len() - i,
        {
            if !clauses_are_closed(&self.associated_tys[i].clauses) {
                return false;
            }
            i = i + 1;
        }
        let mut i: usize = 0;
        while i < self.structs.len()
            invariant
                i <= self.structs.len(),
                forall|k: int|
                    0 <= k < i ==> all_closed((#[trigger] self.structs@[k]).program_clauses()),
            decreases self.structs.len() - i,
        {
            if !clauses_are_closed(&self.structs[i].clauses) {
                return false;
            }
            i = i + 1;
        }
        true
    }

    /// Tests that the database holds a trait for `id`.
    pub fn knows_trait(&self, id: TraitId) -> (b: bool)
        ensures
            b == self.has_trait(id),
    {
        (id.0 as usize) < self.traits.len()
    }

    /// Tests that the database holds an associated type for `id`.
    pub fn knows_associated_ty(&self, id: AssocTypeId) -> (b: bool)
        ensures
            b == self.has_associated_ty(id),
    {
        (id.0 as usize) < self.associated_tys.len()
    }

    /// Tests that the database holds the item that `name` names, if any.
    pub fn knows_type_name(&self, name: TypeName) -> (b: bool)
        ensures
            b == self.has_type_name(name),
    {
        match name {
            TypeName::Struct(id) => (id.0 as usize) < self.structs.len(),
            TypeName::AssociatedType(id) => self.knows_associated_ty(id),
            TypeName::Error => true,
        }
    }

    /// The trait `id`.
    pub fn trait_datum(&self, id: TraitId) -> (datum: &TraitDatum)
        requires
            self.has_trait(id),
        ensures
            *datum == self.traits@[id.0 as int],
    {
        &self.traits[id.0 as usize]
    }

    /// The associated type `id`.
    pub fn associated_ty_data(&self, id: AssocTypeId) -> (datum: &AssociatedTyDatum)
        requires
            self.has_associated_ty(id),
        ensures
            *datum == self.associated_tys@[id.0 as int],
    {
        &self.associated_tys[id.0 as usize]
    }

    /// The struct `id`.
    pub fn struct_datum(&self, id: StructId) -> (datum: &StructDatum)
        requires
            self.has_struct(id),
        ensures
            *datum == self.structs@[id.0 as int],
    {
        &self.structs[id.0 as usize]
    }
}

/// Emits the clauses that match a type of the name `name`: those of the
/// struct or of the associated type that it names.
pub fn match_type_name<'a>(builder: &mut ClauseBuilder<'a>, name: TypeName)
    requires
        old(builder).well_formed(),
        old(builder).database().well_formed(),
        old(builder).database().has_type_name(name),
    ensures
        old(builder).keeps_scope(*final(builder)),
        final(builder).clauses() == old(builder).clauses() + emitted_clauses(
            old(builder).database().type_name_clauses(name),
            old(builder).binders(),
        ),
{
    let db = builder.db();
    match name {
        TypeName::Struct(id) => {
            db.struct_datum(id).to_program_clauses(builder);
        },
        TypeName::AssociatedType(id) => {
            db.associated_ty_data(id).to_program_clauses(builder);
        },
        TypeName::Error => {
            assert(builder.clauses() =~= builder.clauses() + emitted_clauses(
                Seq::empty(),
                builder.binders(),
            ));
        },
    }
}

} // verus!
