use chalk_clauses::ast::{Application, Fact, FactData, Item, Rule, Span, Value, Variable};
use chalk_clauses::environment::Environment;
use chalk_clauses::formula::{Clause, ClauseKind, Constant, Goal, Leaf};
use chalk_clauses::lower::{Error, ErrorKind};
use chalk_clauses::lower_clause::{fact_is_scoped, lower_fact_clause, LowerClause};
use chalk_clauses::lower_goal::lower_fact_goal;
use chalk_clauses::lower_leaf::{application_is_scoped, push_wildcards_of};

const FOO: u64 = 100;
const BAR: u64 = 101;
const BAZ: u64 = 102;

const A: Variable = Variable { id: 1 };
const B: Variable = Variable { id: 2 };
const C: Variable = Variable { id: 3 };
const X: Variable = Variable { id: 4 };

fn var(v: Variable) -> Value {
    Value::Variable(v)
}

fn app(constant: u64, args: Vec<Value>) -> Application {
    Application { constant: Constant(constant), args }
}

fn span(n: usize) -> Span {
    Span { lo: n, hi: n + 1 }
}

fn fact(n: usize, data: FactData) -> Fact {
    Fact { span: span(n), data: Box::new(data) }
}

fn apply(n: usize, constant: u64, args: Vec<Value>) -> Fact {
    fact(n, FactData::Apply(app(constant, args)))
}

fn bv(depth: usize) -> Leaf {
    Leaf::BoundVariable(depth)
}

fn leaf(constant: u64, args: Vec<Leaf>) -> Leaf {
    Leaf::Application(Constant(constant), args)
}

fn clause(foralls: usize, kind: ClauseKind) -> Clause {
    Clause { foralls, kind }
}

fn env_of(names: &[Variable]) -> Environment {
    let mut env = Environment::new();
    for name in names {
        env.push_bound_name(*name);
    }
    env
}

#[test]
fn wildcards_of_head_and_body_are_bound_apart() {
    // Foo(A, _, B) :- Bar(A, _, B, C).
    let item = Item::Rule(Rule {
        consequence: app(FOO, vec![var(A), Value::Wildcard, var(B)]),
        condition: apply(0, BAR, vec![var(A), Value::Wildcard, var(B), var(C)]),
    });
    let mut env = Environment::new();
    let lowered = item.lower_clause(&mut env);
    assert_eq!(env.len(), 0);
    // forall(A, B, C -> exists(W1 -> Bar(A, W1, B, C)) => forall(W2 -> Foo(A, W2, B)))
    assert_eq!(
        lowered,
        Ok(clause(
            3,
            ClauseKind::Implication(
                Goal::Exists(1, Box::new(Goal::Leaf(leaf(BAR, vec![bv(3), bv(0), bv(2), bv(1)])))),
                Box::new(clause(1, ClauseKind::Leaf(leaf(FOO, vec![bv(3), bv(0), bv(2)])))),
            )
        ))
    );
}

#[test]
fn free_variables_are_bound_once_in_the_order_of_first_occurrence() {
    // Foo(B, A, B) :- Bar(C, A), Baz(B, X, C).
    let item = Item::Rule(Rule {
        consequence: app(FOO, vec![var(B), var(A), var(B)]),
        condition: fact(
            0,
            FactData::And(apply(1, BAR, vec![var(C), var(A)]), apply(2, BAZ, vec![var(B), var(X), var(C)])),
        ),
    });
    assert_eq!(item.collect_free_variables(), vec![B, A, C, X]);
    let mut env = env_of(&[X]);
    let lowered = item.lower_clause(&mut env);
    assert_eq!(env.len(), 1);
    // The free X of the item is its own binder, not the X that was in scope.
    assert_eq!(
        lowered,
        Ok(clause(
            4,
            ClauseKind::Implication(
                Goal::And(
                    Box::new(Goal::Leaf(leaf(BAR, vec![bv(1), bv(2)]))),
                    Box::new(Goal::Leaf(leaf(BAZ, vec![bv(3), bv(0), bv(1)]))),
                ),
                Box::new(clause(0, ClauseKind::Leaf(leaf(FOO, vec![bv(3), bv(2), bv(3)])))),
            )
        ))
    );
}

#[test]
fn quantified_variables_are_not_free() {
    // Foo(A) :- forall(X -> exists(A -> Bar(A, X, B))), Baz(X).
    let item = Item::Rule(Rule {
        consequence: app(FOO, vec![var(A)]),
        condition: fact(
            0,
            FactData::And(
                fact(
                    1,
                    FactData::ForAll(
                        X,
                        fact(2, FactData::Exists(A, apply(3, BAR, vec![var(A), var(X), var(B)]))),
                    ),
                ),
                apply(4, BAZ, vec![var(X)]),
            ),
        ),
    });
    assert_eq!(item.collect_free_variables(), vec![A, B, X]);
    let mut env = Environment::new();
    assert_eq!(
        item.lower_clause(&mut env),
        Ok(clause(
            3,
            ClauseKind::Implication(
                Goal::And(
                    Box::new(Goal::ForAll(
                        1,
                        Box::new(Goal::Exists(
                            1,
                            // The inner A and X are the quantified ones; B is free.
                            Box::new(Goal::Leaf(leaf(BAR, vec![bv(0), bv(1), bv(3)])))
                        ))
                    )),
                    Box::new(Goal::Leaf(leaf(BAZ, vec![bv(0)]))),
                ),
                Box::new(clause(0, ClauseKind::Leaf(leaf(FOO, vec![bv(2)])))),
            )
        ))
    );
    assert_eq!(env.len(), 0);
}

#[test]
fn wildcard_under_a_quantifier_is_bound_inside_it() {
    // Foo(A, B) :- forall(X -> Bar(A, B, X, _)).
    let item = Item::Rule(Rule {
        consequence: app(FOO, vec![var(A), var(B)]),
        condition: fact(
            0,
            FactData::ForAll(X, apply(1, BAR, vec![var(A), var(B), var(X), Value::Wildcard])),
        ),
    });
    let mut env = Environment::new();
    assert_eq!(
        item.lower_clause(&mut env),
        Ok(clause(
            2,
            ClauseKind::Implication(
                Goal::ForAll(
                    1,
                    Box::new(Goal::Exists(
                        1,
                        Box::new(Goal::Leaf(leaf(BAR, vec![bv(3), bv(2), bv(1), bv(0)])))
                    ))
                ),
                Box::new(clause(0, ClauseKind::Leaf(leaf(FOO, vec![bv(1), bv(0)])))),
            )
        ))
    );
}

#[test]
fn fact_item_without_variables() {
    let item = Item::Fact(app(FOO, vec![Value::Constant(Constant(BAR)), Value::Application(app(BAZ, vec![]))]));
    assert_eq!(item.collect_free_variables(), vec![]);
    let mut env = Environment::new();
    assert_eq!(
        item.lower_clause(&mut env),
        Ok(clause(0, ClauseKind::Leaf(leaf(FOO, vec![leaf(BAR, vec![]), leaf(BAZ, vec![])]))))
    );
}

#[test]
fn fact_item_counts_free_variables_and_wildcards_together() {
    // Foo(A, _, Bar(_, A, B), _).
    let item = Item::Fact(app(
        FOO,
        vec![
            var(A),
            Value::Wildcard,
            Value::Application(app(BAR, vec![Value::Wildcard, var(A), var(B)])),
            Value::Wildcard,
        ],
    ));
    let mut env = Environment::new();
    // Two free variables outside, three wildcards inside: the first wildcard
    // of the source is the outermost of the three.
    assert_eq!(
        item.lower_clause(&mut env),
        Ok(clause(
            5,
            ClauseKind::Leaf(leaf(
                FOO,
                vec![bv(4), bv(2), leaf(BAR, vec![bv(1), bv(4), bv(3)]), bv(0)]
            ))
        ))
    );
    assert_eq!(env.len(), 0);
}

#[test]
fn application_lowers_to_a_clause_under_its_wildcards() {
    let atom = app(FOO, vec![var(A), Value::Wildcard, var(B), Value::Wildcard]);
    assert_eq!(atom.count_wildcards(), 2);
    let mut env = env_of(&[A, B]);
    assert_eq!(
        atom.lower_clause(&mut env),
        Ok(clause(2, ClauseKind::Leaf(leaf(FOO, vec![bv(3), bv(1), bv(2), bv(0)]))))
    );
    assert_eq!(env.len(), 2);
    assert_eq!(env.lookup(A), Some(1));
    assert_eq!(env.lookup(B), Some(0));
}

#[test]
fn application_lowers_to_a_goal_under_existential_wildcards() {
    let mut env = env_of(&[A]);
    assert_eq!(
        app(FOO, vec![Value::Wildcard, var(A)]).lower_goal(&mut env),
        Ok(Goal::Exists(1, Box::new(Goal::Leaf(leaf(FOO, vec![bv(0), bv(1)])))))
    );
    assert_eq!(app(FOO, vec![var(A)]).lower_goal(&mut env), Ok(Goal::Leaf(leaf(FOO, vec![bv(0)]))));
    assert_eq!(env.len(), 1);
}

#[test]
fn leaf_takes_the_innermost_places_for_its_wildcards() {
    let atom = app(FOO, vec![Value::Wildcard, var(A), Value::Wildcard]);
    let mut env = env_of(&[A]);
    env.push_wildcards(2);
    assert_eq!(atom.lower_leaf(&env), leaf(FOO, vec![bv(1), bv(2), bv(0)]));
    env.pop_wildcards(2);
    assert_eq!(env.len(), 1);
}

#[test]
fn rule_lowers_to_condition_then_consequence() {
    let rule = Rule {
        consequence: app(FOO, vec![var(A)]),
        condition: fact(0, FactData::Or(apply(1, BAR, vec![var(A)]), apply(2, BAZ, vec![var(B)]))),
    };
    let mut env = env_of(&[A, B]);
    assert_eq!(
        rule.lower_clause(&mut env),
        Ok(clause(
            0,
            ClauseKind::Implication(
                Goal::Or(
                    Box::new(Goal::Leaf(leaf(BAR, vec![bv(1)]))),
                    Box::new(Goal::Leaf(leaf(BAZ, vec![bv(0)]))),
                ),
                Box::new(clause(0, ClauseKind::Leaf(leaf(FOO, vec![bv(1)])))),
            )
        ))
    );
    assert_eq!(env.len(), 2);
}

#[test]
fn fact_and_lowers_both_sides_in_the_same_scope() {
    let f = fact(0, FactData::And(apply(1, FOO, vec![var(A)]), apply(2, BAR, vec![Value::Wildcard, var(A)])));
    let mut env = env_of(&[A]);
    assert_eq!(
        f.lower_clause(&mut env),
        Ok(clause(
            0,
            ClauseKind::And(vec![
                clause(0, ClauseKind::Leaf(leaf(FOO, vec![bv(0)]))),
                clause(1, ClauseKind::Leaf(leaf(BAR, vec![bv(0), bv(1)]))),
            ])
        ))
    );
    assert_eq!(env.len(), 1);
}

#[test]
fn fact_implication_has_a_goal_for_condition_and_a_clause_for_consequence() {
    // exists(X -> Bar(X)) => Foo(A): the condition may hold what a clause may not.
    let f = fact(
        0,
        FactData::Implication(
            fact(1, FactData::Exists(X, apply(2, BAR, vec![var(X)]))),
            apply(3, FOO, vec![var(A)]),
        ),
    );
    let mut env = env_of(&[A]);
    assert_eq!(
        f.lower_clause(&mut env),
        Ok(clause(
            0,
            ClauseKind::Implication(
                Goal::Exists(1, Box::new(Goal::Leaf(leaf(BAR, vec![bv(0)])))),
                Box::new(clause(0, ClauseKind::Leaf(leaf(FOO, vec![bv(0)])))),
            )
        ))
    );
}

#[test]
fn fact_forall_adds_one_binder_around_the_clause() {
    // forall(X -> forall(A -> Foo(A, X, _))): A shadows the A in scope.
    let f = fact(
        0,
        FactData::ForAll(
            X,
            fact(1, FactData::ForAll(A, apply(2, FOO, vec![var(A), var(X), Value::Wildcard]))),
        ),
    );
    let mut env = env_of(&[A]);
    assert_eq!(
        f.lower_clause(&mut env),
        Ok(clause(3, ClauseKind::Leaf(leaf(FOO, vec![bv(1), bv(2), bv(0)]))))
    );
    assert_eq!(env.len(), 1);
    assert_eq!(env.lookup(A), Some(0));
    assert_eq!(env.lookup(X), None);
}

#[test]
fn exists_in_clause_is_rejected() {
    let f = fact(7, FactData::Exists(X, apply(8, FOO, vec![var(X)])));
    let mut env = Environment::new();
    assert_eq!(
        f.lower_clause(&mut env),
        Err(Error { span: span(7), kind: ErrorKind::ExistsInClause })
    );
    assert_eq!(env.len(), 0);
}

#[test]
fn or_in_clause_is_rejected() {
    let f = fact(9, FactData::Or(apply(1, FOO, vec![]), apply(2, BAR, vec![])));
    let mut env = Environment::new();
    assert_eq!(f.lower_clause(&mut env), Err(Error { span: span(9), kind: ErrorKind::OrInClause }));
    assert_eq!(env.len(), 0);
}

#[test]
fn failed_lowering_leaves_the_names_in_scope_as_they_were() {
    // forall(X -> forall(B -> Foo(X) & (Bar(B) | Baz(B)))).
    let f = fact(
        0,
        FactData::ForAll(
            X,
            fact(
                1,
                FactData::ForAll(
                    B,
                    fact(
                        2,
                        FactData::And(
                            apply(3, FOO, vec![var(X), Value::Wildcard]),
                            fact(4, FactData::Or(apply(5, BAR, vec![var(B)]), apply(6, BAZ, vec![var(B)]))),
                        ),
                    ),
                ),
            ),
        ),
    );
    let mut env = env_of(&[A, B]);
    assert_eq!(f.lower_clause(&mut env), Err(Error { span: span(4), kind: ErrorKind::OrInClause }));
    assert_eq!(env.len(), 2);
    assert_eq!(env.lookup(A), Some(1));
    assert_eq!(env.lookup(B), Some(0));
    assert_eq!(env.lookup(X), None);
}

#[test]
fn failed_item_leaves_the_names_in_scope_as_they_were() {
    // Foo(A, B) :- (exists(X -> Bar(X, C)) => Baz(A)): the hypothesis of an
    // implication in a goal is a clause.
    let item = Item::Rule(Rule {
        consequence: app(FOO, vec![var(A), var(B)]),
        condition: fact(
            0,
            FactData::Implication(
                fact(1, FactData::Exists(X, apply(2, BAR, vec![var(X), var(C)]))),
                apply(3, BAZ, vec![var(A)]),
            ),
        ),
    });
    let mut env = env_of(&[X]);
    assert_eq!(
        item.lower_clause(&mut env),
        Err(Error { span: span(1), kind: ErrorKind::ExistsInClause })
    );
    assert_eq!(env.len(), 1);
    assert_eq!(env.lookup(X), Some(0));
    assert_eq!(env.lookup(A), None);
}

#[test]
fn first_error_in_the_order_of_the_source_is_reported() {
    let exists = |n: usize| fact(n, FactData::Exists(X, apply(n + 10, FOO, vec![])));
    let or = |n: usize| fact(n, FactData::Or(apply(n + 10, FOO, vec![]), apply(n + 20, BAR, vec![])));
    let mut env = Environment::new();
    assert_eq!(
        lower_fact_clause(&fact(0, FactData::And(or(1), exists(2))), &mut env),
        Err(Error { span: span(1), kind: ErrorKind::OrInClause })
    );
    assert_eq!(
        lower_fact_clause(&fact(0, FactData::And(exists(1), or(2))), &mut env),
        Err(Error { span: span(1), kind: ErrorKind::ExistsInClause })
    );
    assert_eq!(
        lower_fact_clause(&fact(0, FactData::And(apply(1, FOO, vec![]), or(2))), &mut env),
        Err(Error { span: span(2), kind: ErrorKind::OrInClause })
    );
    // In a goal, both are fine, except in the hypothesis of an implication.
    assert!(lower_fact_goal(&fact(0, FactData::And(or(1), exists(2))), &mut env).is_ok());
    assert_eq!(
        lower_fact_goal(&fact(0, FactData::Implication(or(1), exists(2))), &mut env),
        Err(Error { span: span(1), kind: ErrorKind::OrInClause })
    );
    assert_eq!(
        lower_fact_clause(&fact(0, FactData::Implication(or(1), exists(2))), &mut env),
        Err(Error { span: span(2), kind: ErrorKind::ExistsInClause })
    );
    assert_eq!(env.len(), 0);
}

#[test]
fn goal_keeps_the_shape_of_the_fact() {
    // forall(X -> (Foo(X) => exists(A -> Bar(A, X) | Baz(_)))).
    let f = fact(
        0,
        FactData::ForAll(
            X,
            fact(
                1,
                FactData::Implication(
                    apply(2, FOO, vec![var(X)]),
                    fact(
                        3,
                        FactData::Exists(
                            A,
                            fact(
                                4,
                                FactData::Or(
                                    apply(5, BAR, vec![var(A), var(X)]),
                                    apply(6, BAZ, vec![Value::Wildcard]),
                                ),
                            ),
                        ),
                    ),
                ),
            ),
        ),
    );
    let mut env = Environment::new();
    assert_eq!(
        f.lower_goal(&mut env),
        Ok(Goal::ForAll(
            1,
            Box::new(Goal::Implication(
                Box::new(clause(0, ClauseKind::Leaf(leaf(FOO, vec![bv(0)])))),
                Box::new(Goal::Exists(
                    1,
                    Box::new(Goal::Or(
                        Box::new(Goal::Leaf(leaf(BAR, vec![bv(0), bv(1)]))),
                        Box::new(Goal::Exists(1, Box::new(Goal::Leaf(leaf(BAZ, vec![bv(0)]))))),
                    ))
                )),
            ))
        ))
    );
    assert_eq!(env.len(), 0);
}

#[test]
fn environment_resolves_to_the_innermost_binding() {
    let mut env = Environment::new();
    assert_eq!(env.lookup(A), None);
    env.push_bound_name(A);
    env.push_bound_name(B);
    env.push_wildcards(2);
    env.push_bound_name(A);
    assert_eq!(env.len(), 5);
    assert_eq!(env.lookup(A), Some(0));
    assert_eq!(env.lookup(B), Some(3));
    assert_eq!(env.lookup(C), None);
    env.pop_bound_name();
    assert_eq!(env.lookup(A), Some(3));
    env.pop_wildcards(2);
    assert_eq!(env.lookup(A), Some(1));
    assert_eq!(env.lookup(B), Some(0));
    env.push_wildcards(0);
    env.pop_wildcards(0);
    assert_eq!(env.len(), 2);
}

#[test]
fn formula_binders_add_up() {
    let c = Clause::new(ClauseKind::Leaf(bv(0)));
    assert_eq!(c.foralls, 0);
    let c = c.in_foralls(2).in_foralls(0).in_foralls(3);
    assert_eq!(c, clause(5, ClauseKind::Leaf(bv(0))));
    assert_eq!(Goal::Leaf(bv(0)).in_foralls(0), Goal::Leaf(bv(0)));
    assert_eq!(Goal::Leaf(bv(0)).in_exists(0), Goal::Leaf(bv(0)));
    assert_eq!(
        Goal::Leaf(bv(0)).in_exists(2).in_foralls(1),
        Goal::ForAll(1, Box::new(Goal::Exists(2, Box::new(Goal::Leaf(bv(0))))))
    );
}

#[test]
fn wildcards_are_counted_in_nested_applications() {
    let atom = app(
        FOO,
        vec![
            Value::Wildcard,
            Value::Application(app(
                BAR,
                vec![Value::Wildcard, Value::Application(app(BAZ, vec![Value::Wildcard])), var(A)],
            )),
            Value::Constant(Constant(BAZ)),
            Value::Wildcard,
        ],
    );
    assert_eq!(atom.count_wildcards(), 4);
    assert_eq!(app(FOO, vec![]).count_wildcards(), 0);
}

#[test]
fn scope_test_tells_whether_every_variable_is_bound() {
    let atom = app(FOO, vec![var(A), Value::Application(app(BAR, vec![var(B), Value::Wildcard]))]);
    assert!(!application_is_scoped(&atom, &env_of(&[])));
    assert!(!application_is_scoped(&atom, &env_of(&[A])));
    assert!(!application_is_scoped(&atom, &env_of(&[B])));
    assert!(application_is_scoped(&atom, &env_of(&[B, C, A])));
    assert!(application_is_scoped(&app(FOO, vec![Value::Wildcard]), &env_of(&[])));

    // forall(A -> Foo(A, B)) & exists(X -> Bar(X)) | Baz(C).
    let f = fact(
        0,
        FactData::Or(
            fact(
                1,
                FactData::And(
                    fact(2, FactData::ForAll(A, apply(3, FOO, vec![var(A), var(B)]))),
                    fact(4, FactData::Exists(X, apply(5, BAR, vec![var(X)]))),
                ),
            ),
            apply(6, BAZ, vec![var(C)]),
        ),
    );
    let mut env = env_of(&[B]);
    assert!(!fact_is_scoped(&f, &mut env));
    assert_eq!(env.len(), 1);
    env.push_bound_name(C);
    assert!(fact_is_scoped(&f, &mut env));
    assert_eq!(env.len(), 2);
    assert!(f.lowers(&mut env));
    assert_eq!(env.len(), 2);
    let mut empty = Environment::new();
    assert!(!f.lowers(&mut empty));
    assert_eq!(empty.len(), 0);
}

#[test]
fn an_item_lowers_in_any_scope_but_its_parts_need_their_names() {
    let rule = || Rule { consequence: app(FOO, vec![var(A)]), condition: apply(0, BAR, vec![var(B)]) };
    let mut env = Environment::new();
    assert!(Item::Rule(rule()).lowers(&mut env));
    assert!(!rule().lowers(&mut env));
    assert!(!rule().consequence.lowers(&mut env));
    env.push_bound_name(A);
    assert!(rule().consequence.lowers(&mut env));
    assert!(!rule().lowers(&mut env));
    env.push_bound_name(B);
    assert!(rule().lowers(&mut env));
    assert_eq!(env.len(), 2);
}

#[test]
fn wildcards_are_pushed_one_place_each() {
    let atom = app(
        FOO,
        vec![Value::Wildcard, Value::Application(app(BAR, vec![Value::Wildcard, var(A)])), Value::Wildcard],
    );
    let mut env = env_of(&[A]);
    assert_eq!(push_wildcards_of(&atom, &mut env), 3);
    assert_eq!(env.len(), 4);
    assert_eq!(env.lookup(A), Some(3));
    assert_eq!(push_wildcards_of(&app(FOO, vec![var(A)]), &mut env), 0);
    assert_eq!(env.len(), 4);
}
