//! Checking what a solver answers against what is expected of it: the
//! answer is put into words, and must begin with the expected words, spaces
//! left aside.

use vstd::prelude::*;
use vstd::string::StrSliceExecFns;

verus! {

/// Whether `c` is white space, as `char::is_whitespace` tells.
pub uninterp spec fn is_whitespace(c: char) -> bool;

/// `char::is_whitespace`: whether `c` has the Unicode property
/// `White_Space`. The answer depends on `c` alone.
#[verifier::external_body]
fn char_is_whitespace(c: char) -> (b: bool)
    ensures
        b == is_whitespace(c),
{
    c.is_whitespace()
}

/// `text` without its white space.
pub open spec fn without_whitespace(text: Seq<char>) -> Seq<char>
    decreases text.len(),
{
    if text.len() == 0 {
        Seq::empty()
    } else if is_whitespace(text.last()) {
        without_whitespace(text.drop_last())
    } else {
        without_whitespace(text.drop_last()).push(text.last())
    }
}

/// The words for an answer: the solution as it prints, or the words for no
/// solution.
pub open spec fn answer_text(answer: Option<Seq<char>>) -> Seq<char> {
    match answer {
        Some(text) => text,
        None => "No possible solution"@,
    }
}

/// `answer` is as expected: without white space, `expected` is not empty,
/// and `answer` begins with it.
pub open spec fn meets(answer: Seq<char>, expected: Seq<char>) -> bool {
    without_whitespace(expected).len() > 0 && without_whitespace(expected).is_prefix_of(
        without_whitespace(answer),
    )
}

/// `text` stands in braces.
pub open spec fn braced(text: Seq<char>) -> bool {
    text.len() >= 2 && text[0] == '{' && text[text.len() - 1] == '}'
}

/// What stands between the braces of `text`.
pub open spec fn inside(text: Seq<char>) -> Seq<char> {
    text.subrange(1, text.len() - 1)
}

/// The characters of `text` that are not white space.
fn strip(text: &str) -> (stripped: Vec<char>)
    ensures
        stripped@ == without_whitespace(text@),
{
    let n = text.unicode_len();
    let mut stripped: Vec<char> = Vec::new();
    let mut i: usize = 0;
    assert(text@.take(0) =~= Seq::<char>::empty());
    while i < n
        invariant
            i <= n,
            n == text@.len(),
            stripped@ == without_whitespace(text@.take(i as int)),
        decreases n - i,
    {
        let c = text.get_char(i);
        assert(text@.take(i + 1).drop_last() =~= text@.take(i as int));
        assert(text@.take(i + 1).last() == c);
        if !char_is_whitespace(c) {
            stripped.push(c);
        }
        i = i + 1;
    }
    assert(text@.take(n as int) =~= text@);
    stripped
}

/// Tests whether `text` begins with `prefix`.
fn starts_with(text: &Vec<char>, prefix: &Vec<char>) -> (b: bool)
    ensures
        b == prefix@.is_prefix_of(text@),
{
    if prefix.len() > text.len() {
        return false;
    }
    let mut i: usize = 0;
    while i < prefix.len()
        invariant
            i <= prefix.len(),
            prefix.len() <= text.len(),
            forall|j: int| 0 <= j < i ==> prefix@[j] == text@[j],
        decreases prefix.len() - i,
    {
        if prefix[i] != text[i] {
            return false;
        }
        i = i + 1;
    }
    true
}

/// Tells whether the answer of a solver is as expected. `None` is the
/// answer that there is no solution.
pub fn result_matches(result: &Option<String>, expected: &str) -> (ok: bool)
    ensures
        ok == meets(
            answer_text(
                match result {
                    Some(text) => Some(text@),
                    None => None,
                },
            ),
            expected@,
        ),
{
    let answer = match result {
        Some(text) => strip(text.as_str()),
        None => strip("No possible solution"),
    };
    let expected = strip(expected);
    expected.len() > 0 && starts_with(&answer, &expected)
}

/// What stands between the braces of `text`, if it stands in braces.
pub fn unbraced<'a>(text: &'a str) -> (inner: Option<&'a str>)
    ensures
        inner is Some <==> braced(text@),
        inner matches Some(t) ==> t@ == inside(text@),
{
    let n = text.unicode_len();
    if n >= 2 && text.get_char(0) == '{' && text.get_char(n - 1) == '}' {
        Some(text.substring_char(1, n - 1))
    } else {
        None
    }
}

/// Puts each goal of `goals` to the solver `solve` for the program
/// `program_text`, and tells whether each answer is as expected. A goal is
/// a pair of its text and the expected words. The program and each goal
/// stand in braces, which are taken off before the solver gets them. The
/// first goal that fails ends the run.
pub fn solve_goal<F: Fn(&str, &str) -> Option<String>>(
    program_text: &str,
    goals: &Vec<(&str, &str)>,
    solve: F,
) -> (ok: bool)
    requires
        forall|program: &str, goal: &str| #[trigger] call_requires(solve, (program, goal)),
    ensures
        ok ==> braced(program_text@),
        ok ==> forall|i: int|
            0 <= i < goals@.len() ==> answered(solve, program_text@, #[trigger] goals@[i], true),
        !ok ==> !braced(program_text@) || exists|i: int|
            0 <= i < goals@.len() && (!braced((#[trigger] goals@[i]).0@) || answered(
                solve,
                program_text@,
                goals@[i],
                false,
            )),
{
    let program = match unbraced(program_text) {
        Some(program) => program,
        None => {
            return false;
        },
    };
    let mut i: usize = 0;
    while i < goals.len()
        invariant
            i <= goals.len(),
            braced(program_text@),
            program@ == inside(program_text@),
            forall|program: &str, goal: &str| #[trigger] call_requires(solve, (program, goal)),
            forall|j: int|
                0 <= j < i ==> answered(solve, program_text@, #[trigger] goals@[j], true),
        decreases goals.len() - i,
    {
        let (goal_text, expected) = goals[i];
        let goal = match unbraced(goal_text) {
            Some(goal) => goal,
            None => {
                return false;
            },
        };
        let result = solve(program, goal);
        let ok = result_matches(&result, expected);
        assert(answered(solve, program_text@, goals@[i as int], ok));
        if !ok {
            return false;
        }
        i = i + 1;
    }
    true
}

/// The goal stands in braces, and the solver, asked for what stands between
/// the braces of the program and of the goal, has given an answer that is as
/// expected, or is not, as `ok` tells.
pub open spec fn answered<F: Fn(&str, &str) -> Option<String>>(
    solve: F,
    program_text: Seq<char>,
    goal: (&str, &str),
    ok: bool,
) -> bool {
    &&& braced(goal.0@)
    &&& exists|program: &str, text: &str, result: Option<String>|
        program@ == inside(program_text) && text@ == inside(goal.0@) && #[trigger] call_ensures(
            solve,
            (program, text),
            result,
        ) && ok == meets(
            answer_text(
                match result {
                    Some(words) => Some(words@),
                    None => None,
                },
            ),
            goal.1@,
        )
}

} // verus!
