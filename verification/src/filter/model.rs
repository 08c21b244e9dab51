//! The mathematical model of a recursive filter.

use vstd::prelude::*;
use vstd::std_specs::ops::MulSpec;
use crate::sample::{
    Sample, add_term, can_add_term, can_sub_term, exact_arithmetic, is_default, sub_term,
    total_arithmetic,
};

verus! {

/// The order in which a filter combines the terms of its difference equation.
/// With exact arithmetic the two orders agree; with rounding they may differ
/// in the last bits, so the model keeps them apart.
pub enum Summation<T> {
    /// Two coefficients on each side: `(b[0]*x + b[1]*x1) - a[1]*y1`.
    SinglePole,
    /// Any order: starting from `zero`, add `b[i]*x_i` and subtract
    /// `a[i+1]*y_(i+1)` for each `i` in turn, then add the last numerator term.
    Running { zero: T },
}

/// A filter with `n` numerator coefficients and the history it carries.
pub struct FilterModel<T> {
    /// Numerator coefficients `b[0], .., b[n-1]`.
    pub b: Seq<T>,
    /// Denominator coefficients `a[1], .., a[n-1]`; the leading `a[0]` is 1 and not kept.
    pub a: Seq<T>,
    /// The last `n-1` inputs, most recent first.
    pub xs: Seq<T>,
    /// The last `n-1` outputs, most recent first.
    pub ys: Seq<T>,
    /// The order of summation.
    pub form: Summation<T>,
}

impl<T: Sample> FilterModel<T> {
    /// The coefficient vectors have equal length (counting the leading 1 of
    /// the denominator), and both histories have one entry for each
    /// denominator coefficient that is kept.
    pub open spec fn wf(self) -> bool {
        &&& self.b.len() == self.a.len() + 1
        &&& self.xs.len() == self.a.len()
        &&& self.ys.len() == self.a.len()
        &&& (self.form is SinglePole ==> self.a.len() == 1)
    }

    /// Nothing has been filtered and no seed was given: the histories hold
    /// default values of `T`. In the general form they all hold `zero`.
    pub open spec fn at_rest(self) -> bool {
        match self.form {
            Summation::SinglePole => {
                &&& forall|i: int| 0 <= i < self.xs.len() ==> is_default(#[trigger] self.xs[i])
                &&& forall|i: int| 0 <= i < self.ys.len() ==> is_default(#[trigger] self.ys[i])
            },
            Summation::Running { zero } => {
                &&& is_default(zero)
                &&& self.xs == Seq::new(self.xs.len(), |i: int| zero)
                &&& self.ys == Seq::new(self.ys.len(), |i: int| zero)
            },
        }
    }

    /// The inputs that the next output depends on: `x` and the history behind it.
    pub open spec fn window(self, x: T) -> Seq<T> {
        seq![x] + self.xs
    }

    /// The running sum after `n` pairs of terms, starting from `zero`.
    pub open spec fn partial_sum(self, zero: T, x: T, n: nat) -> T
        decreases n,
    {
        if n == 0 {
            zero
        } else {
            let i = n - 1;
            sub_term(
                add_term(self.partial_sum(zero, x, i as nat), self.b[i], self.window(x)[i]),
                self.a[i],
                self.ys[i],
            )
        }
    }

    /// Every operation of `partial_sum(zero, x, n)` may be computed.
    pub open spec fn partial_sum_defined(self, zero: T, x: T, n: nat) -> bool
        decreases n,
    {
        if n == 0 {
            true
        } else {
            let i = n - 1;
            let before = self.partial_sum(zero, x, i as nat);
            &&& self.partial_sum_defined(zero, x, i as nat)
            &&& can_add_term(before, self.b[i], self.window(x)[i])
            &&& can_sub_term(add_term(before, self.b[i], self.window(x)[i]), self.a[i], self.ys[i])
        }
    }

    /// The output for the next input `x`:
    /// the sum of `b[i]*x[k-i]` less the sum of `a[i]*y[k-i]`, in the order of `form`.
    pub open spec fn response(self, x: T) -> T {
        match self.form {
            Summation::SinglePole => sub_term(
                add_term(self.b[0].mul_spec(x), self.b[1], self.xs[0]),
                self.a[0],
                self.ys[0],
            ),
            Summation::Running { zero } => {
                let n = self.a.len();
                add_term(self.partial_sum(zero, x, n), self.b[n as int], self.window(x)[n as int])
            },
        }
    }

    /// Every operation of `response(x)` may be computed.
    pub open spec fn response_defined(self, x: T) -> bool {
        match self.form {
            Summation::SinglePole => {
                &&& self.b[0].mul_req(x)
                &&& can_add_term(self.b[0].mul_spec(x), self.b[1], self.xs[0])
                &&& can_sub_term(
                    add_term(self.b[0].mul_spec(x), self.b[1], self.xs[0]),
                    self.a[0],
                    self.ys[0],
                )
            },
            Summation::Running { zero } => {
                let n = self.a.len();
                &&& self.partial_sum_defined(zero, x, n)
                &&& can_add_term(
                    self.partial_sum(zero, x, n),
                    self.b[n as int],
                    self.window(x)[n as int],
                )
            },
        }
    }

    /// The filter after the input `x` gave the output `y`: both move to the
    /// front of their history, and the oldest entry of each history leaves.
    pub open spec fn shifted(self, x: T, y: T) -> Self {
        FilterModel {
            xs: (seq![x] + self.xs).take(self.xs.len() as int),
            ys: (seq![y] + self.ys).take(self.ys.len() as int),
            ..self
        }
    }

    /// The filter after one input.
    pub open spec fn step(self, x: T) -> Self {
        self.shifted(x, self.response(x))
    }

    /// The filter after the samples of `input`, taken in order.
    pub open spec fn after(self, input: Seq<T>) -> Self
        decreases input.len(),
    {
        if input.len() == 0 {
            self
        } else {
            self.after(input.drop_last()).step(input.last())
        }
    }

    /// The outputs for the samples of `input`: one for each, in order.
    pub open spec fn outputs(self, input: Seq<T>) -> Seq<T>
        decreases input.len(),
    {
        if input.len() == 0 {
            Seq::empty()
        } else {
            self.outputs(input.drop_last()).push(
                self.after(input.drop_last()).response(input.last()),
            )
        }
    }

    /// Every operation that filtering `input` takes may be computed.
    pub open spec fn defined_on(self, input: Seq<T>) -> bool
        decreases input.len(),
    {
        if input.len() == 0 {
            true
        } else {
            &&& self.defined_on(input.drop_last())
            &&& self.after(input.drop_last()).response_defined(input.last())
        }
    }

    /// The filter after a call for each chunk of `chunks`, in order.
    pub open spec fn after_chunks(self, chunks: Seq<Seq<T>>) -> Self
        decreases chunks.len(),
    {
        if chunks.len() == 0 {
            self
        } else {
            self.after_chunks(chunks.drop_last()).after(chunks.last())
        }
    }

    /// What the calls for the chunks of `chunks` return, put end to end.
    pub open spec fn outputs_in_chunks(self, chunks: Seq<Seq<T>>) -> Seq<T>
        decreases chunks.len(),
    {
        if chunks.len() == 0 {
            Seq::empty()
        } else {
            self.outputs_in_chunks(chunks.drop_last()) + self.after_chunks(
                chunks.drop_last(),
            ).outputs(chunks.last())
        }
    }

    /// The filter can process `input`: either the arithmetic of `T` never
    /// fails, or it is exact and every operation on the way may be computed.
    pub open spec fn can_filter(self, input: Seq<T>) -> bool {
        total_arithmetic::<T>() || (exact_arithmetic::<T>() && self.defined_on(input))
    }

    /// `self` is the filter `other` with another history.
    pub open spec fn same_design(self, other: Self) -> bool {
        &&& self.b == other.b
        &&& self.a == other.a
        &&& self.form == other.form
        &&& self.xs.len() == other.xs.len()
        &&& self.ys.len() == other.ys.len()
    }

    /// The filter with every entry of both histories set to `v`.
    pub open spec fn seeded(self, v: T) -> Self {
        FilterModel {
            xs: Seq::new(self.xs.len(), |i: int| v),
            ys: Seq::new(self.ys.len(), |i: int| v),
            ..self
        }
    }
}

} // verus!
