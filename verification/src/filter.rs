//! Recursive filters that keep their history between calls.

use vstd::prelude::*;
use std::rc::Rc;
use crate::sample::{Sample, exact_arithmetic};
use crate::filter::model::FilterModel;

pub mod built;
pub mod first_order;
pub mod laws;
pub mod model;
pub mod order_n;

verus! {

/// A causal recursive filter over samples of type `T`.
///
/// The view of a filter is its model: the coefficients and the history that
/// the next outputs depend on.
pub trait Filter<T: Sample>: View<V = FilterModel<T>> {
    /// The invariant of the filter; it implies that of its model.
    spec fn wf(&self) -> bool;

    /// A well-formed filter has a well-formed model.
    proof fn model_wf(&self)
        requires
            self.wf(),
        ensures
            self@.wf(),
    ;

    /// Filters `input` sample by sample and returns one output for each, in
    /// order. The history moves on, so that a later call continues the
    /// signal; the coefficients stay. Where the arithmetic of `T` is exact,
    /// the outputs and the new history are those of the model.
    fn filt(&mut self, input: &[T]) -> (output: Vec<T>)
        requires
            old(self).wf(),
            old(self)@.can_filter(input@),
        ensures
            final(self).wf(),
            final(self)@.same_design(old(self)@),
            output@.len() == input@.len(),
            exact_arithmetic::<T>() ==> output@ == old(self)@.outputs(input@),
            exact_arithmetic::<T>() ==> final(self)@ == old(self)@.after(input@),
    ;

    /// The numerator coefficients. The filter is left as it was.
    fn get_b_coeffs(&mut self) -> (b: Rc<Vec<T>>)
        requires
            old(self).wf(),
        ensures
            final(self).wf(),
            final(self)@ == old(self)@,
            b@ == old(self)@.b,
    ;

    /// Sets every entry of both histories to `initial_status`.
    fn init(&mut self, initial_status: T)
        requires
            old(self).wf(),
        ensures
            final(self).wf(),
            final(self)@ == old(self)@.seeded(initial_status),
    ;
}

} // verus!
