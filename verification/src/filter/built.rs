//! One type for a filter of either kind.

use vstd::prelude::*;
use std::rc::Rc;
use crate::sample::Sample;
use crate::filter::Filter;
use crate::filter::first_order::FirstOrderIirFilter;
use crate::filter::model::FilterModel;
use crate::filter::order_n::GenericIirFilter;

verus! {

/// A filter whose kind was chosen when it was built and stays as it is.
pub enum BuiltFilter<T> {
    /// Two coefficients on each side.
    FirstOrder(FirstOrderIirFilter<T>),
    /// More than two coefficients on each side.
    OrderN(GenericIirFilter<T>),
}

impl<T> View for BuiltFilter<T> {
    type V = FilterModel<T>;

    open spec fn view(&self) -> FilterModel<T> {
        match self {
            BuiltFilter::FirstOrder(f) => f@,
            BuiltFilter::OrderN(g) => g@,
        }
    }
}

impl<T: Sample> Filter<T> for BuiltFilter<T> {
    open spec fn wf(&self) -> bool {
        match self {
            BuiltFilter::FirstOrder(f) => f.wf(),
            BuiltFilter::OrderN(g) => g.wf(),
        }
    }

    proof fn model_wf(&self) {
        match self {
            BuiltFilter::FirstOrder(f) => f.model_wf(),
            BuiltFilter::OrderN(g) => g.model_wf(),
        }
    }

    fn filt(&mut self, input: &[T]) -> (output: Vec<T>) {
        match self {
            BuiltFilter::FirstOrder(f) => f.filt(input),
            BuiltFilter::OrderN(g) => g.filt(input),
        }
    }

    fn get_b_coeffs(&mut self) -> (b: Rc<Vec<T>>) {
        match self {
            BuiltFilter::FirstOrder(f) => f.get_b_coeffs(),
            BuiltFilter::OrderN(g) => g.get_b_coeffs(),
        }
    }

    fn init(&mut self, initial_status: T) {
        match self {
            BuiltFilter::FirstOrder(f) => f.init(initial_status),
            BuiltFilter::OrderN(g) => g.init(initial_status),
        }
    }
}

} // verus!
