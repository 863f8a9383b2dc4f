//! Goals put to a solver, with the words expected of its answer. The solver
//! is not part of this library: each test hands over the answers as the
//! solver words them, and the library checks them against the expectation.

use chalk_clauses::expectation::solve_goal;

const UNIQUE: Option<&str> = Some("Unique; substitution [], lifetime constraints []");
const AMBIGUOUS: Option<&str> = Some("Ambiguous; no inference guidance");
const NO_SOLUTION: Option<&str> = None;

fn squeeze(text: &str) -> String {
    text.split_whitespace().collect::<Vec<&str>>().join(" ")
}

/// Puts the goals to a solver that answers each goal as `cases` records it,
/// and panics unless every answer is as expected.
fn check(program_text: &str, cases: Vec<(&str, Option<&str>, &str)>) {
    let program = squeeze(&program_text[1..program_text.len() - 1]);
    let goals: Vec<(&str, &str)> = cases.iter().map(|case| (case.0, case.2)).collect();
    let solver = |asked_program: &str, asked_goal: &str| -> Option<String> {
        assert_eq!(squeeze(asked_program), program);
        let case = cases
            .iter()
            .find(|case| squeeze(&case.0[1..case.0.len() - 1]) == squeeze(asked_goal))
            .expect("the goal is one of the recorded goals");
        case.1.map(String::from)
    };
    assert!(solve_goal(program_text, &goals, solver));
}

#[test]
fn inscope() {
    check(
        "{ trait Foo { } }",
        vec![
            ("{ InScope(Foo) }", NO_SOLUTION, "No possible solution"),
            (
                "{ if (InScope(Foo)) { InScope(Foo) } }",
                UNIQUE,
                "Unique; substitution [], lifetime constraints []",
            ),
        ],
    );
}

#[test]
fn simple_negation() {
    check(
        "{ struct i32 {} trait Foo {} }",
        vec![
            ("{ not { i32: Foo } }", UNIQUE, "Unique"),
            ("{ not { not { i32: Foo } } }", NO_SOLUTION, "No"),
            ("{ not { not { not { i32: Foo } } } }", UNIQUE, "Unique"),
            ("{ exists<T> { not { T: Foo } } }", AMBIGUOUS, "Ambig"),
            ("{ forall<T> { not { T: Foo } } }", UNIQUE, "Unique"),
            ("{ not { exists<T> { T: Foo } } }", UNIQUE, "Unique"),
            ("{ not { forall<T> { T: Foo } } }", UNIQUE, "Unique"),
        ],
    );
}

#[test]
fn deep_negation() {
    check(
        "{ struct Foo<T> {} trait Bar {} trait Baz {} impl<T> Bar for Foo<T> where T: Baz {} }",
        vec![
            ("{ not { exists<T> { T: Baz } } }", UNIQUE, "Unique"),
            ("{ not { exists<T> { Foo<T>: Bar } } }", UNIQUE, "Unique"),
        ],
    );
}

#[test]
fn negation_quantifiers() {
    check(
        "{ struct i32 {} struct u32 {} }",
        vec![
            ("{ not { forall<T, U> { T = U } } }", UNIQUE, "Unique"),
            ("{ not { exists<T, U> { T = U } } }", NO_SOLUTION, "No"),
            ("{ forall<T, U> { not { T = U } } }", NO_SOLUTION, "No"),
        ],
    );
}

#[test]
fn negation_free_vars() {
    check(
        "{ struct Vec<T> {} struct i32 {} struct u32 {} trait Foo {} impl Foo for Vec<u32> {} }",
        vec![("{ exists<T> { not { Vec<T>: Foo } } }", AMBIGUOUS, "Ambig")],
    );
}

#[test]
fn negation_assoc_types_cardinality_1() {
    check(
        "{ trait Iterator { type Item; } }",
        vec![
            (
                "{ forall<T, U> { if (T: Iterator) { not { <T as Iterator>::Item = U } } } }",
                NO_SOLUTION,
                "No",
            ),
            (
                "{ forall<T, U> { if (T: Iterator; U: Iterator) { not { <T as Iterator>::Item = <U as Iterator>::Item } } } }",
                NO_SOLUTION,
                "No",
            ),
        ],
    );
}
