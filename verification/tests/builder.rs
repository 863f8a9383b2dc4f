use chalk_clauses::builder::ClauseBuilder;
use chalk_clauses::fold::Fold;
use chalk_clauses::ir::{
    Binders, DomainGoal, FromEnv, Goal, Parameter, ProgramClause, ProgramClauseImplication,
    StructId, TraitId, TraitRef, Ty, TypeName, Variable, VariableKind, WellFormed,
};
use chalk_clauses::rust_ir::RustIrDatabase;
use chalk_clauses::scope::BinderStack;

fn empty_db() -> RustIrDatabase {
    RustIrDatabase { traits: vec![], associated_tys: vec![], structs: vec![] }
}

fn trait_ref(trait_id: u32, parameters: Vec<Parameter>) -> TraitRef {
    TraitRef { trait_id: TraitId(trait_id), parameters }
}

fn holds(trait_id: u32, ty: Ty) -> DomainGoal {
    DomainGoal::Holds(trait_ref(trait_id, vec![Parameter::Ty(ty)]))
}

fn implication(consequence: DomainGoal, conditions: Vec<Goal>) -> ProgramClauseImplication {
    ProgramClauseImplication { consequence, conditions }
}

fn for_all(binders: Vec<VariableKind>, value: ProgramClauseImplication) -> ProgramClause {
    ProgramClause::ForAll(Binders { binders, value })
}

#[test]
fn fact_without_binders_is_a_bare_implication() {
    let db = empty_db();
    let mut builder = ClauseBuilder::new(&db, vec![]);
    builder.push_fact(holds(0, Ty::Placeholder(0)));
    assert_eq!(
        builder.into_clauses(),
        vec![ProgramClause::Implies(implication(holds(0, Ty::Placeholder(0)), vec![]))]
    );
}

#[test]
fn clause_without_binders_keeps_its_conditions_in_order() {
    let db = empty_db();
    let mut builder = ClauseBuilder::new(&db, vec![]);
    let conditions = || {
        vec![
            Goal::DomainGoal(holds(1, Ty::Placeholder(0))),
            Goal::Not(Box::new(Goal::DomainGoal(holds(2, Ty::Placeholder(0))))),
            Goal::All(vec![]),
        ]
    };
    builder.push_clause(holds(0, Ty::Placeholder(0)), conditions());
    assert_eq!(
        builder.into_clauses(),
        vec![ProgramClause::Implies(implication(holds(0, Ty::Placeholder(0)), conditions()))]
    );
}

#[test]
fn new_appends_to_the_clauses_it_is_given() {
    let db = empty_db();
    let first = || ProgramClause::Implies(implication(holds(7, Ty::InferenceVar(3)), vec![]));
    let mut builder = ClauseBuilder::new(&db, vec![first()]);
    builder.push_fact(holds(8, Ty::Placeholder(1)));
    assert_eq!(
        builder.into_clauses(),
        vec![first(), ProgramClause::Implies(implication(holds(8, Ty::Placeholder(1)), vec![]))]
    );
}

#[test]
fn bound_ty_is_the_placeholder_of_the_new_binder() {
    let db = empty_db();
    let mut builder = ClauseBuilder::new(&db, vec![]);
    builder.push_bound_ty(|outer, t0| {
        assert_eq!(t0, Ty::BoundVar(0));
        assert_eq!(outer.placeholders_in_scope(), &[Parameter::Ty(Ty::BoundVar(0))][..]);
        outer.push_bound_ty(|inner, t1| {
            assert_eq!(t1, Ty::BoundVar(1));
            assert_eq!(
                inner.placeholders_in_scope(),
                &[Parameter::Ty(Ty::BoundVar(0)), Parameter::Ty(Ty::BoundVar(1))][..]
            );
            inner.push_fact(holds(3, t1));
        });
        assert_eq!(outer.placeholders_in_scope(), &[Parameter::Ty(Ty::BoundVar(0))][..]);
        outer.push_fact(holds(4, t0));
    });
    assert_eq!(builder.placeholders_in_scope().len(), 0);
    assert_eq!(
        builder.into_clauses(),
        vec![
            for_all(
                vec![VariableKind::Ty, VariableKind::Ty],
                implication(holds(3, Ty::BoundVar(1)), vec![])
            ),
            for_all(vec![VariableKind::Ty], implication(holds(4, Ty::BoundVar(0)), vec![])),
        ]
    );
}

#[test]
fn clause_emitted_after_the_scope_is_bare_again() {
    let db = empty_db();
    let mut builder = ClauseBuilder::new(&db, vec![]);
    builder.push_bound_ty(|b, ty| b.push_fact(holds(0, ty)));
    builder.push_fact(holds(1, Ty::Placeholder(0)));
    let clauses = builder.into_clauses();
    assert!(matches!(clauses[0], ProgramClause::ForAll(_)));
    assert!(matches!(clauses[1], ProgramClause::Implies(_)));
}

#[test]
fn push_binders_substitutes_the_new_placeholders() {
    let db = empty_db();
    let mut builder = ClauseBuilder::new(&db, vec![]);
    // <T, 'a, N> { Vec<T, 'a, N>: Trait0 :- T: Trait1 }, pushed below one binder.
    let bound = || {
        implication(
            DomainGoal::Holds(trait_ref(
                0,
                vec![Parameter::Ty(Ty::Apply(
                    TypeName::Struct(StructId(5)),
                    vec![
                        Parameter::Ty(Ty::BoundVar(0)),
                        Parameter::Lifetime(Variable::Bound(1)),
                        Parameter::Const(Variable::Bound(2)),
                        Parameter::Lifetime(Variable::Placeholder(1)),
                        Parameter::Ty(Ty::InferenceVar(0)),
                    ],
                ))],
            )),
            vec![Goal::Not(Box::new(Goal::All(vec![Goal::DomainGoal(holds(
                1,
                Ty::BoundVar(0),
            ))])))],
        )
    };
    let kinds = vec![VariableKind::Ty, VariableKind::Lifetime, VariableKind::Const];
    let binders = Binders::new(kinds.clone(), bound()).expect("the value is closed");
    builder.push_bound_ty(|b, _| {
        b.push_binders(&binders, |b, value: ProgramClauseImplication| {
            assert_eq!(
                b.placeholders_in_scope(),
                &[
                    Parameter::Ty(Ty::BoundVar(0)),
                    Parameter::Ty(Ty::BoundVar(1)),
                    Parameter::Lifetime(Variable::Bound(2)),
                    Parameter::Const(Variable::Bound(3)),
                ][..]
            );
            b.push_clause(value.consequence, value.conditions);
        });
        assert_eq!(b.placeholders_in_scope().len(), 1);
    });
    let expected = implication(
        DomainGoal::Holds(trait_ref(
            0,
            vec![Parameter::Ty(Ty::Apply(
                TypeName::Struct(StructId(5)),
                vec![
                    Parameter::Ty(Ty::BoundVar(1)),
                    Parameter::Lifetime(Variable::Bound(2)),
                    Parameter::Const(Variable::Bound(3)),
                    Parameter::Lifetime(Variable::Placeholder(1)),
                    Parameter::Ty(Ty::InferenceVar(0)),
                ],
            ))],
        )),
        vec![Goal::Not(Box::new(Goal::All(vec![Goal::DomainGoal(holds(1, Ty::BoundVar(1)))])))],
    );
    assert_eq!(
        builder.into_clauses(),
        vec![for_all(
            vec![VariableKind::Ty, VariableKind::Ty, VariableKind::Lifetime, VariableKind::Const],
            expected
        )]
    );
    // The bound value itself is untouched.
    assert_eq!(binders.value, bound());
}

#[test]
fn push_binders_with_no_binder_adds_no_wrapping() {
    let db = empty_db();
    let mut builder = ClauseBuilder::new(&db, vec![]);
    let binders = Binders::new(vec![], holds(0, Ty::Placeholder(2))).expect("closed");
    builder.push_binders(&binders, |b, goal: DomainGoal| b.push_fact(goal));
    assert_eq!(
        builder.into_clauses(),
        vec![ProgramClause::Implies(implication(holds(0, Ty::Placeholder(2)), vec![]))]
    );
}

#[test]
fn binders_new_rejects_a_dangling_variable() {
    assert!(Binders::new(vec![VariableKind::Ty], Ty::BoundVar(1)).is_none());
    assert!(Binders::new(vec![], Ty::BoundVar(0)).is_none());
    assert!(Binders::new(vec![VariableKind::Ty], Ty::BoundVar(0)).is_some());
    let nested = || Ty::Function(vec![Parameter::Ty(Ty::Alias(
        chalk_clauses::ir::AssocTypeId(0),
        vec![Parameter::Ty(Ty::BoundVar(2))],
    ))]);
    assert!(Binders::new(vec![VariableKind::Ty, VariableKind::Ty], nested()).is_none());
    assert!(Binders::new(vec![VariableKind::Ty; 3], nested()).is_some());
}

#[test]
fn binders_new_rejects_a_variable_of_the_wrong_kind() {
    assert!(Binders::new(vec![VariableKind::Lifetime], Ty::BoundVar(0)).is_none());
    assert!(Binders::new(vec![VariableKind::Const], Ty::BoundVar(0)).is_none());
    let lifetime = || trait_ref(0, vec![Parameter::Lifetime(Variable::Bound(0))]);
    assert!(Binders::new(vec![VariableKind::Ty], lifetime()).is_none());
    assert!(Binders::new(vec![VariableKind::Lifetime], lifetime()).is_some());
    let constant = || trait_ref(0, vec![Parameter::Const(Variable::Bound(0))]);
    assert!(Binders::new(vec![VariableKind::Lifetime], constant()).is_none());
    assert!(Binders::new(vec![VariableKind::Const], constant()).is_some());
}

#[test]
fn closedness_looks_into_every_form_of_goal() {
    let kinds = vec![VariableKind::Ty];
    let open = || Ty::BoundVar(1);
    let goals = vec![
        DomainGoal::Holds(trait_ref(0, vec![Parameter::Ty(open())])),
        DomainGoal::WellFormed(WellFormed::Trait(trait_ref(0, vec![Parameter::Ty(open())]))),
        DomainGoal::WellFormed(WellFormed::Ty(open())),
        DomainGoal::FromEnv(FromEnv::Trait(trait_ref(0, vec![Parameter::Ty(open())]))),
        DomainGoal::FromEnv(FromEnv::Ty(open())),
    ];
    for goal in goals {
        assert!(!goal.is_closed(&kinds));
        assert!(goal.is_closed(&vec![VariableKind::Ty, VariableKind::Ty]));
        let in_goal = Goal::All(vec![Goal::Not(Box::new(Goal::DomainGoal(goal)))]);
        assert!(!in_goal.is_closed(&kinds));
    }
    assert!(Ty::Dyn(vec![TraitId(0)]).is_closed(&vec![]));
    assert!(Ty::Placeholder(9).is_closed(&vec![]));
    assert!(Ty::InferenceVar(9).is_closed(&vec![]));
}

#[test]
fn substitute_shifts_bound_variables_only() {
    let kinds = vec![VariableKind::Ty, VariableKind::Lifetime];
    let ty = Ty::Apply(
        TypeName::Error,
        vec![
            Parameter::Ty(Ty::BoundVar(0)),
            Parameter::Lifetime(Variable::Bound(1)),
            Parameter::Lifetime(Variable::Inference(1)),
            Parameter::Ty(Ty::Dyn(vec![TraitId(4), TraitId(2)])),
            Parameter::Ty(Ty::Placeholder(0)),
        ],
    );
    assert_eq!(
        ty.substitute(&kinds, 10),
        Ty::Apply(
            TypeName::Error,
            vec![
                Parameter::Ty(Ty::BoundVar(10)),
                Parameter::Lifetime(Variable::Bound(11)),
                Parameter::Lifetime(Variable::Inference(1)),
                Parameter::Ty(Ty::Dyn(vec![TraitId(4), TraitId(2)])),
                Parameter::Ty(Ty::Placeholder(0)),
            ],
        )
    );
    assert_eq!(ty.substitute(&kinds, 0), ty);
}

#[test]
fn stack_positions_are_never_renumbered() {
    let mut stack = BinderStack::new();
    assert_eq!(stack.len(), 0);
    stack.push(&vec![VariableKind::Ty, VariableKind::Lifetime]);
    let before: Vec<Parameter> = vec![
        Parameter::Ty(Ty::BoundVar(0)),
        Parameter::Lifetime(Variable::Bound(1)),
    ];
    assert_eq!(stack.snapshot(), &before[..]);
    stack.push(&vec![VariableKind::Const, VariableKind::Ty]);
    assert_eq!(stack.len(), 4);
    assert_eq!(&stack.snapshot()[..2], &before[..]);
    assert_eq!(
        &stack.snapshot()[2..],
        &[Parameter::Const(Variable::Bound(2)), Parameter::Ty(Ty::BoundVar(3))][..]
    );
    assert_eq!(
        stack.to_vec(),
        vec![VariableKind::Ty, VariableKind::Lifetime, VariableKind::Const, VariableKind::Ty]
    );
    stack.pop(2);
    assert_eq!(stack.snapshot(), &before[..]);
    assert_eq!(stack.to_vec(), vec![VariableKind::Ty, VariableKind::Lifetime]);
    stack.push(&vec![]);
    assert_eq!(stack.len(), 2);
    stack.pop(0);
    assert_eq!(stack.len(), 2);
    stack.pop(2);
    assert_eq!(stack.len(), 0);
    assert!(stack.snapshot().is_empty());
}
