//! Construction of program clauses for a goal-directed logic engine: a
//! binder-scoped clause builder, an elaborator of environment clauses, and
//! the lowering of parsed formulas into clauses and goals.

// The clause algebra and what can stand under binders.
pub mod fold;
pub mod ir;

// Building clauses under binders, and elaborating an environment.
pub mod builder;
pub mod clause_set;
pub mod env_elaborator;
pub mod rust_ir;
pub mod scope;

// Lowering parsed formulas.
pub mod ast;
pub mod environment;
pub mod formula;
pub mod lower;
pub mod lower_clause;
pub mod lower_goal;
pub mod lower_leaf;

// Checking the answers of a solver.
pub mod expectation;
