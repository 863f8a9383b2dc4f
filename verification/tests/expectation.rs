use chalk_clauses::expectation::{result_matches, solve_goal, unbraced};

fn some(text: &str) -> Option<String> {
    Some(String::from(text))
}

#[test]
fn answer_must_begin_with_the_expected_words() {
    let unique = some("Unique; substitution [], lifetime constraints []");
    assert!(result_matches(&unique, "Unique"));
    assert!(result_matches(&unique, "Unique; substitution [], lifetime constraints []"));
    assert!(!result_matches(&unique, "Ambig"));
    assert!(!result_matches(&unique, "substitution"));
    assert!(!result_matches(&some("Uni"), "Unique"));
}

#[test]
fn white_space_is_left_aside() {
    let unique = some("Unique; substitution [], lifetime constraints []");
    assert!(result_matches(&unique, "Unique;substitution[],lifetimeconstraints[]"));
    assert!(result_matches(&unique, "  Unique ;\n\tsubstitution [ ]"));
    assert!(result_matches(&some("U n i q u e"), "Unique"));
    // U+00A0 and U+2003 are white space too; U+200B is not.
    assert!(result_matches(&some("Uni\u{a0}que"), "Uni\u{2003}que"));
    assert!(!result_matches(&some("Uni\u{200b}que"), "Unique"));
}

#[test]
fn empty_expectation_is_never_met() {
    assert!(!result_matches(&some("Unique"), ""));
    assert!(!result_matches(&some("Unique"), " \n\t"));
    assert!(!result_matches(&some(""), ""));
    assert!(!result_matches(&None, ""));
}

#[test]
fn no_answer_reads_no_possible_solution() {
    assert!(result_matches(&None, "No possible solution"));
    assert!(result_matches(&None, "No"));
    assert!(result_matches(&None, "Nopossible"));
    assert!(!result_matches(&None, "Unique"));
    assert!(!result_matches(&None, "No possible solution."));
}

#[test]
fn unbraced_takes_one_pair_of_braces_off() {
    assert_eq!(unbraced("{ trait Foo { } }"), Some(" trait Foo { } "));
    assert_eq!(unbraced("{}"), Some(""));
    assert_eq!(unbraced("{{x}}"), Some("{x}"));
    assert_eq!(unbraced("{ \u{e9}t\u{e9} }"), Some(" \u{e9}t\u{e9} "));
    assert_eq!(unbraced(""), None);
    assert_eq!(unbraced("{"), None);
    assert_eq!(unbraced("}"), None);
    assert_eq!(unbraced("{ x"), None);
    assert_eq!(unbraced("x }"), None);
    assert_eq!(unbraced(" { x }"), None);
}

#[test]
fn solve_goal_hands_the_solver_what_is_between_the_braces() {
    let goals = vec![("{ G1 }", "Unique"), ("{ G2 }", "No")];
    let ok = solve_goal("{ P }", &goals, |program: &str, goal: &str| -> Option<String> {
        assert_eq!(program, " P ");
        match goal {
            " G1 " => Some(String::from("Unique; substitution []")),
            " G2 " => None,
            other => panic!("unexpected goal {:?}", other),
        }
    });
    assert!(ok);
}

#[test]
fn solve_goal_fails_on_an_unexpected_answer() {
    let goals = vec![("{ G1 }", "Unique"), ("{ G2 }", "Unique")];
    let ok = solve_goal("{ P }", &goals, |_: &str, goal: &str| -> Option<String> {
        if goal == " G1 " {
            Some(String::from("Unique"))
        } else {
            Some(String::from("Ambiguous"))
        }
    });
    assert!(!ok);
}

#[test]
fn solve_goal_fails_without_braces() {
    let never = |_: &str, _: &str| -> Option<String> { panic!("the solver must not be asked") };
    assert!(!solve_goal("trait Foo { }", &vec![("{ G }", "Unique")], never));
    assert!(!solve_goal("{ P }", &vec![("G", "Unique")], never));
    assert!(solve_goal("{ P }", &vec![], never));
}
