//! The stack of binders in scope. Each binder has a placeholder: the
//! reference to it, tagged with its position in the whole stack. Positions
//! are never renumbered, so that a placeholder made before a push means the
//! same after it.

use crate::ir::{
    parameter_models, placeholder, placeholder_models, Parameter, ParameterModel, VariableKind,
};
use vstd::prelude::*;

verus! {

/// A stack of binders, outermost first, with the placeholder of each.
pub struct BinderStack {
    binders: Vec<VariableKind>,
    parameters: Vec<Parameter>,
}

impl BinderStack {
    /// There is one placeholder for each binder, and each is tagged with the
    /// position of its binder. Every stack that `new` made is well formed,
    /// and every method keeps it so.
    pub closed spec fn well_formed(&self) -> bool {
        parameter_models(self.parameters@) == placeholder_models(self.binders@, 0)
    }

    /// The binders, outermost first.
    pub closed spec fn binders(&self) -> Seq<VariableKind> {
        self.binders@
    }

    /// The placeholders of the binders, outermost first.
    pub open spec fn placeholders(&self) -> Seq<ParameterModel> {
        placeholder_models(self.binders(), 0)
    }

    /// The empty stack.
    pub fn new() -> (stack: BinderStack)
        ensures
            stack.well_formed(),
            stack.binders() == Seq::<VariableKind>::empty(),
    {
        let stack = BinderStack { binders: Vec::new(), parameters: Vec::new() };
        assert(parameter_models(stack.parameters@) =~= placeholder_models(stack.binders@, 0));
        stack
    }

    /// The number of binders.
    pub fn len(&self) -> (n: usize)
        ensures
            n == self.binders().len(),
    {
        self.binders.len()
    }

    /// A copy of the binders, outermost first.
    pub fn to_vec(&self) -> (binders: Vec<VariableKind>)
        ensures
            binders@ == self.binders(),
    {
        let mut out: Vec<VariableKind> = Vec::new();
        let mut i: usize = 0;
        while i < self.binders.len()
            invariant
                i <= self.binders.len(),
                out@ == self.binders@.take(i as int),
            decreases self.binders.len() - i,
        {
            out.push(self.binders[i]);
            i = i + 1;
        }
        assert(self.binders@.take(i as int) == self.binders@);
        out
    }

    /// Pushes `binders` at the end of the stack, with a placeholder for each.
    /// The binders that were there keep their positions and their
    /// placeholders.
    pub fn push(&mut self, binders: &Vec<VariableKind>)
        requires
            old(self).well_formed(),
        ensures
            final(self).well_formed(),
            final(self).binders() == old(self).binders() + binders@,
            old(self).binders().len() + binders@.len() <= usize::MAX,
    {
        assert(self.parameters@.len() == parameter_models(self.parameters@).len());
        let mut i: usize = 0;
        while i < binders.len()
            invariant
                i <= binders.len(),
                self.binders@ == old(self).binders@ + binders@.take(i as int),
                parameter_models(self.parameters@) == placeholder_models(self.binders@, 0),
            decreases binders.len() - i,
        {
            let ghost before = self.parameters@;
            let ghost before_binders = self.binders@;
            let index = self.binders.len();
            assert(before.len() == parameter_models(before).len());
            self.binders.push(binders[i]);
            let p = placeholder(binders[i], index);
            self.parameters.push(p);
            assert(binders@.take(i + 1) =~= binders@.take(i as int).push(binders@[i as int]));
            assert(self.binders@ =~= old(self).binders@ + binders@.take(i + 1));
            assert(parameter_models(self.parameters@) =~= placeholder_models(self.binders@, 0)) by {
                assert forall|j: int| 0 <= j < self.parameters@.len() implies parameter_models(
                    self.parameters@,
                )[j] == placeholder_models(self.binders@, 0)[j] by {
                    if j < before.len() {
                        assert(parameter_models(before)[j] == placeholder_models(
                            before_binders,
                            0,
                        )[j]);
                    }
                }
            }
            i = i + 1;
        }
        assert(binders@.take(i as int) == binders@);
        let new_len = self.binders.len();
        assert(new_len == old(self).binders@.len() + binders@.len());
    }

    /// Pops the last `n` binders and their placeholders.
    pub fn pop(&mut self, n: usize)
        requires
            old(self).well_formed(),
            n <= old(self).binders().len(),
        ensures
            final(self).well_formed(),
            final(self).binders() == old(self).binders().take(old(self).binders().len() - n),
    {
        assert(self.parameters@.len() == parameter_models(self.parameters@).len());
        let len = self.binders.len();
        self.binders.truncate(len - n);
        self.parameters.truncate(len - n);
        assert(parameter_models(self.parameters@) =~= placeholder_models(self.binders@, 0)) by {
            assert forall|j: int| 0 <= j < self.parameters@.len() implies parameter_models(
                self.parameters@,
            )[j] == placeholder_models(self.binders@, 0)[j] by {
                assert(parameter_models(old(self).parameters@)[j] == placeholder_models(
                    old(self).binders@,
                    0,
                )[j]);
            }
        }
    }

    /// The placeholders of the binders, outermost first: the one at position
    /// `i` refers to binder `i`.
    pub fn snapshot(&self) -> (placeholders: &[Parameter])
        requires
            self.well_formed(),
        ensures
            parameter_models(placeholders@) == self.placeholders(),
    {
        self.parameters.as_slice()
    }
}

/// Pushing binders leaves the placeholders that were there as they were, and
/// adds those of the new binders, tagged with the positions after them.
pub proof fn lemma_placeholders_stable(before: Seq<VariableKind>, pushed: Seq<VariableKind>)
    ensures
        placeholder_models(before + pushed, 0) == placeholder_models(before, 0)
            + placeholder_models(pushed, before.len()),
        placeholder_models(before, 0).is_prefix_of(placeholder_models(before + pushed, 0)),
{
    assert(placeholder_models(before + pushed, 0) =~= placeholder_models(before, 0)
        + placeholder_models(pushed, before.len()));
}

/// Pushing binders and popping as many gives the stack that was there.
pub proof fn lemma_push_pop(before: Seq<VariableKind>, pushed: Seq<VariableKind>)
    ensures
        (before + pushed).take((before + pushed).len() - pushed.len()) == before,
{
    assert((before + pushed).take((before + pushed).len() - pushed.len()) =~= before);
}

} // verus!
