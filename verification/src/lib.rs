//! Causal, stateful IIR filtering of sampled signals, and a chunked
//! event-detection pipeline built on top of it.
//!
//! A filter owns the history it needs to continue across calls, so a long
//! signal can be filtered chunk by chunk with the same result as in one call.
//! Every filter is described by a mathematical model, [`filter::model::FilterModel`],
//! and the contracts of the executable code are stated over that model.

use vstd::prelude::*;
use crate::filter::Filter;
use crate::filter::built::BuiltFilter;
use crate::filter::first_order::FirstOrderIirFilter;
use crate::filter::order_n::GenericIirFilter;
use crate::sample::Sample;

pub mod decode;
pub mod filter;
pub mod pipeline;
pub mod sample;
pub mod scorer;
pub mod threshold;

verus! {

/// Why a pair of coefficient vectors gives no filter.
#[derive(Debug, Clone, Copy, PartialEq, Eq, Structural)]
pub enum ConstructionError {
    /// The denominator and the numerator differ in length.
    LengthMismatch,
    /// The vectors have the same length, and it is under 2.
    TooShort,
}

/// The reason for which coefficient vectors of these lengths are refused, if any.
pub open spec fn refusal(a_len: nat, b_len: nat) -> Option<ConstructionError> {
    if a_len != b_len {
        Some(ConstructionError::LengthMismatch)
    } else if a_len < 2 {
        Some(ConstructionError::TooShort)
    } else {
        None
    }
}

/// Chooses the kind of filter from the shape of its coefficients.
pub struct FilterBuilder {}

impl FilterBuilder {
    /// The filter with the denominator `a` and the numerator `b`, at rest.
    ///
    /// Two coefficients on each side give a first-order filter, more give a
    /// filter of order n. The leading `a[0]` stands for 1 and is not kept.
    /// Vectors of different lengths, or of fewer than two coefficients, give
    /// no filter; no coefficient is ever cut off to make them fit.
    pub fn from<T: Sample>(a: &[T], b: &[T]) -> (r: Result<BuiltFilter<T>, ConstructionError>)
        ensures
            match r {
                Ok(f) => {
                    &&& refusal(a@.len(), b@.len()) is None
                    &&& f.wf()
                    &&& f@.wf()
                    &&& f@.b == b@
                    &&& f@.a == a@.skip(1)
                    &&& f@.at_rest()
                    &&& f@.form is SinglePole <==> a@.len() == 2
                },
                Err(e) => refusal(a@.len(), b@.len()) == Some(e),
            },
    {
        if a.len() != b.len() {
            Err(ConstructionError::LengthMismatch)
        } else if a.len() < 2 {
            Err(ConstructionError::TooShort)
        } else if a.len() == 2 {
            let f = FirstOrderIirFilter::new(a[1], (b[0], b[1]));
            proof {
                assert(f@.b == b@);
                assert(f@.a == a@.skip(1));
            }
            Ok(BuiltFilter::FirstOrder(f))
        } else {
            Ok(BuiltFilter::OrderN(GenericIirFilter::new(a, b)))
        }
    }
}

} // verus!
