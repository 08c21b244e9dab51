//! The filter of any order, with its history in two bounded queues.

use vstd::prelude::*;
use vstd::slice::{slice_subrange, slice_to_vec};
use std::collections::VecDeque;
use std::rc::Rc;
use crate::sample::{Sample, exact_arithmetic, total_arithmetic};
use crate::filter::Filter;
use crate::filter::model::{FilterModel, Summation};
use crate::filter::laws::{lemma_defined_on_prefix, lemma_partial_sum_defined_prefix};

verus! {

/// A filter with `n` numerator coefficients, `n >= 1`.
///
/// It keeps the last `n` inputs and the last `n-1` outputs, most recent
/// first. The oldest input is kept only until the next one arrives, so the
/// model holds the `n-1` inputs before it.
pub struct GenericIirFilter<T> {
    a: Rc<Vec<T>>,
    b: Rc<Vec<T>>,
    xs: VecDeque<T>,
    ys: VecDeque<T>,
    zero: T,
}

impl<T> View for GenericIirFilter<T> {
    type V = FilterModel<T>;

    closed spec fn view(&self) -> FilterModel<T> {
        FilterModel {
            b: self.b@,
            a: self.a@,
            xs: self.xs@.take(self.a@.len() as int),
            ys: self.ys@,
            form: Summation::Running { zero: self.zero },
        }
    }
}

/// A queue of `n` copies of `v`.
fn filled<T: Copy>(v: T, n: usize) -> (q: VecDeque<T>)
    ensures
        q@ == Seq::new(n as nat, |i: int| v),
{
    let mut q: VecDeque<T> = VecDeque::with_capacity(n);
    let mut i: usize = 0;
    while i < n
        invariant
            i <= n,
            q@ == Seq::new(i as nat, |j: int| v),
        decreases n - i,
    {
        q.push_back(v);
        i += 1;
        assert(q@ == Seq::new(i as nat, |j: int| v));
    }
    q
}

/// Puts `v` at the front of `q` and drops the entry at its back.
fn shift_in<T>(q: &mut VecDeque<T>, v: T)
    ensures
        final(q)@ == (seq![v] + old(q)@).take(old(q)@.len() as int),
{
    q.push_front(v);
    let _ = q.pop_back();
}

impl<T: Sample> GenericIirFilter<T> {
    /// A filter with the denominator `a` and the numerator `b`. The leading
    /// coefficient `a[0]` stands for 1 and is not kept. Every entry of both
    /// histories is one default value of `T`, from which each sum also starts.
    pub fn new(a: &[T], b: &[T]) -> (f: Self)
        requires
            a.len() == b.len(),
            a.len() >= 1,
        ensures
            f.wf(),
            f@.wf(),
            f@.b == b@,
            f@.a == a@.skip(1),
            f@.form is Running,
            f@.at_rest(),
    {
        let zero = T::default();
        let xs = filled(zero, b.len());
        let ys = filled(zero, a.len() - 1);
        let a = Rc::new(slice_to_vec(slice_subrange(a, 1, a.len())));
        let b = Rc::new(slice_to_vec(b));
        let f = GenericIirFilter { a, b, xs, ys, zero };
        proof {
            assert(f@.xs == Seq::new(f@.a.len(), |i: int| zero));
        }
        f
    }
}

impl<T: Sample> Filter<T> for GenericIirFilter<T> {
    closed spec fn wf(&self) -> bool {
        &&& self.b@.len() == self.a@.len() + 1
        &&& self.xs@.len() == self.b@.len()
        &&& self.ys@.len() == self.a@.len()
    }

    proof fn model_wf(&self)
        ensures
            self@.form is Running,
    {
    }

    fn filt(&mut self, input: &[T]) -> (output: Vec<T>) {
        let ghost start = self@;
        let mut output: Vec<T> = Vec::with_capacity(input.len());
        let a_len = self.a.len();
        let mut k: usize = 0;
        while k < input.len()
            invariant
                k <= input.len(),
                self.wf(),
                a_len == self.a@.len(),
                start.can_filter(input@),
                self@.same_design(start),
                output@.len() == k,
                exact_arithmetic::<T>() ==> self@ == start.after(input@.take(k as int)),
                exact_arithmetic::<T>() ==> output@ == start.outputs(input@.take(k as int)),
            decreases input.len() - k,
        {
            let x = input[k];
            let ghost before = self@;
            proof {
                if !total_arithmetic::<T>() {
                    let next = input@.take(k + 1);
                    lemma_defined_on_prefix(start, input@, k + 1);
                    assert(next.drop_last() == input@.take(k as int));
                    assert(next.last() == x);
                    assert(before.response_defined(x));
                }
            }
            shift_in(&mut self.xs, x);
            assert(self.xs@ == before.window(x));
            let mut acc = self.zero;
            let mut i: usize = 0;
            while i < a_len
                invariant
                    i <= a_len,
                    self.wf(),
                    a_len == self.a@.len(),
                    self.a@ == before.a,
                    self.b@ == before.b,
                    self.ys@ == before.ys,
                    self.xs@ == before.window(x),
                    before.form == (Summation::Running { zero: self.zero }),
                    total_arithmetic::<T>() || (exact_arithmetic::<T>() && before.response_defined(
                        x,
                    )),
                    exact_arithmetic::<T>() ==> acc == before.partial_sum(self.zero, x, i as nat),
                decreases a_len - i,
            {
                proof {
                    if !total_arithmetic::<T>() {
                        lemma_partial_sum_defined_prefix(
                            before,
                            self.zero,
                            x,
                            a_len as nat,
                            (i + 1) as nat,
                        );
                    }
                }
                acc = acc + self.b[i] * self.xs[i];
                acc = acc - self.a[i] * self.ys[i];
                i += 1;
            }
            acc = acc + self.b[a_len] * self.xs[a_len];
            shift_in(&mut self.ys, acc);
            output.push(acc);
            proof {
                if exact_arithmetic::<T>() {
                    let next = input@.take(k + 1);
                    assert(next.drop_last() == input@.take(k as int));
                    assert(next.last() == x);
                    assert(acc == before.response(x));
                    assert(self@.xs == before.shifted(x, acc).xs);
                    assert(self@ == before.step(x));
                }
            }
            k += 1;
        }
        proof {
            assert(input@.take(k as int) == input@);
        }
        output
    }

    fn get_b_coeffs(&mut self) -> (b: Rc<Vec<T>>) {
        Rc::clone(&self.b)
    }

    fn init(&mut self, initial_status: T) {
        self.xs = filled(initial_status, self.xs.len());
        self.ys = filled(initial_status, self.ys.len());
        proof {
            assert(self@.xs == old(self)@.seeded(initial_status).xs);
        }
    }
}

} // verus!
