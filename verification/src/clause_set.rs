//! The set that collects elaborated clauses: a hash set with the Fx hasher.
//! What it holds is stated over the models of its clauses.

use crate::ir::{clause_models, ProgramClause, ProgramClauseModel};
use rustc_hash::FxHashSet;
use vstd::prelude::*;

verus! {

/// `rustc_hash::FxHasher`, the hasher of the set. Nothing is stated of it.
#[verifier::external_type_specification]
#[verifier::external_body]
pub struct ExFxHasher(rustc_hash::FxHasher);

/// `core::hash::BuildHasherDefault`, which makes the hashers of the set.
/// Nothing is stated of it.
#[verifier::external_type_specification]
#[verifier::external_body]
#[verifier::reject_recursive_types(H)]
pub struct ExBuildHasherDefault<H>(core::hash::BuildHasherDefault<H>);

/// The models of the clauses that the set holds.
pub uninterp spec fn clause_set(set: FxHashSet<ProgramClause>) -> Set<ProgramClauseModel>;

/// `Extend::extend` of the hash set, called with a vector: each clause of
/// `clauses` is inserted. Afterwards the set holds what it held before and
/// the clauses of `clauses`, and a clause equal to one that is already there
/// is not held twice. Two clauses are equal when their models are. A hash
/// set holds finitely many clauses.
#[verifier::external_body]
pub(crate) fn extend_clause_set(out: &mut FxHashSet<ProgramClause>, clauses: Vec<ProgramClause>)
    ensures
        clause_set(*final(out)) == clause_set(*old(out)).union(clause_models(clauses@).to_set()),
        clause_set(*final(out)).finite(),
{
    out.extend(clauses)
}

/// `HashSet::len` of the hash set: the number of clauses that it holds.
#[verifier::external_body]
pub(crate) fn clause_set_len(set: &FxHashSet<ProgramClause>) -> (n: usize)
    ensures
        n == clause_set(*set).len(),
{
    set.len()
}

} // verus!
