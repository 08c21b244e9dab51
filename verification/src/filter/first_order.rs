//! The filter with one pole, kept in four scalars.

use vstd::prelude::*;
use std::rc::Rc;
use crate::sample::{Sample, exact_arithmetic, total_arithmetic};
use crate::filter::Filter;
use crate::filter::model::{FilterModel, Summation};
use crate::filter::laws::lemma_defined_on_prefix;

verus! {

/// A first-order filter: `y = b.0*x + b.1*x_prev - a*y_prev`.
pub struct FirstOrderIirFilter<T> {
    a: T,
    b: (T, T),
    x_prev: T,
    y_prev: T,
}

impl<T> View for FirstOrderIirFilter<T> {
    type V = FilterModel<T>;

    closed spec fn view(&self) -> FilterModel<T> {
        FilterModel {
            b: seq![self.b.0, self.b.1],
            a: seq![self.a],
            xs: seq![self.x_prev],
            ys: seq![self.y_prev],
            form: Summation::SinglePole,
        }
    }
}

impl<T: Sample> FirstOrderIirFilter<T> {
    /// A filter with the feedback coefficient `a` and the numerator `b`, whose
    /// previous input and output are default values of `T`.
    pub fn new(a: T, b: (T, T)) -> (f: Self)
        ensures
            f.wf(),
            f@.wf(),
            f@.form == Summation::<T>::SinglePole,
            f@.b == seq![b.0, b.1],
            f@.a == seq![a],
            f@.at_rest(),
    {
        let x_prev = T::default();
        let y_prev = T::default();
        Self { a, b, x_prev, y_prev }
    }

    /// Replaces the previous input and output.
    pub fn update(&mut self, x_prev: T, y_prev: T)
        ensures
            final(self)@ == (FilterModel { xs: seq![x_prev], ys: seq![y_prev], ..old(self)@ }),
    {
        self.x_prev = x_prev;
        self.y_prev = y_prev;
    }
}

impl<T: Sample> Filter<T> for FirstOrderIirFilter<T> {
    open spec fn wf(&self) -> bool {
        self@.wf() && self@.form == Summation::<T>::SinglePole
    }

    proof fn model_wf(&self) {
    }

    fn filt(&mut self, input: &[T]) -> (output: Vec<T>) {
        let ghost start = self@;
        let mut output: Vec<T> = Vec::with_capacity(input.len());
        let mut k: usize = 0;
        while k < input.len()
            invariant
                k <= input.len(),
                start.can_filter(input@),
                self@.same_design(start),
                self@.form == Summation::<T>::SinglePole,
                output@.len() == k,
                exact_arithmetic::<T>() ==> self@ == start.after(input@.take(k as int)),
                exact_arithmetic::<T>() ==> output@ == start.outputs(input@.take(k as int)),
            decreases input.len() - k,
        {
            let x = input[k];
            let ghost before = self@;
            proof {
                if !total_arithmetic::<T>() {
                    let next = input@.take(k + 1);
                    lemma_defined_on_prefix(start, input@, k + 1);
                    assert(next.drop_last() == input@.take(k as int));
                    assert(next.last() == x);
                    assert(before.response_defined(x));
                }
            }
            let y = self.b.0 * x + self.b.1 * self.x_prev - self.a * self.y_prev;
            output.push(y);
            self.update(x, y);
            proof {
                if exact_arithmetic::<T>() {
                    let next = input@.take(k + 1);
                    assert(next.drop_last() == input@.take(k as int));
                    assert(next.last() == x);
                    assert(y == before.response(x));
                    assert(before.shifted(x, y).xs == seq![x]);
                    assert(before.shifted(x, y).ys == seq![y]);
                    assert(self@ == before.step(x));
                }
            }
            k += 1;
        }
        proof {
            assert(input@.take(k as int) == input@);
        }
        output
    }

    fn get_b_coeffs(&mut self) -> (b: Rc<Vec<T>>) {
        let mut coeffs: Vec<T> = Vec::with_capacity(2);
        coeffs.push(self.b.0);
        coeffs.push(self.b.1);
        proof {
            assert(coeffs@ == self@.b);
        }
        Rc::new(coeffs)
    }

    fn init(&mut self, initial_status: T) {
        self.update(initial_status, initial_status);
        proof {
            assert(self@.xs == old(self)@.seeded(initial_status).xs);
            assert(self@.ys == old(self)@.seeded(initial_status).ys);
        }
    }
}

} // verus!
