//! What holds of every filter model.

use vstd::prelude::*;
use vstd::seq_lib::lemma_flatten_concat;
use vstd::std_specs::ops::{AddSpec, MulSpec, SubSpec};
use crate::sample::{Sample, add_term, sub_term, sums_reassociate};
use crate::filter::model::{FilterModel, Summation};

verus! {

/// A filter that can process `input` can process each of its prefixes.
pub proof fn lemma_defined_on_prefix<T: Sample>(m: FilterModel<T>, input: Seq<T>, n: int)
    requires
        m.defined_on(input),
        0 <= n <= input.len(),
    ensures
        m.defined_on(input.take(n)),
    decreases input.len(),
{
    if n == input.len() {
        assert(input.take(n) == input);
    } else {
        lemma_defined_on_prefix(m, input.drop_last(), n);
        assert(input.drop_last().take(n) == input.take(n));
    }
}

/// A running sum that can be computed can be computed up to each earlier pair of terms.
pub proof fn lemma_partial_sum_defined_prefix<T: Sample>(
    m: FilterModel<T>,
    zero: T,
    x: T,
    n: nat,
    i: nat,
)
    requires
        m.partial_sum_defined(zero, x, n),
        i <= n,
    ensures
        m.partial_sum_defined(zero, x, i),
    decreases n,
{
    if i < n {
        lemma_partial_sum_defined_prefix(m, zero, x, (n - 1) as nat, i);
    }
}

/// Filtering changes the history only: the coefficients, the order of
/// summation and the lengths of the histories stay, and with them the
/// invariant of the model.
pub proof fn lemma_after_keeps_shape<T: Sample>(m: FilterModel<T>, input: Seq<T>)
    ensures
        m.after(input).b == m.b,
        m.after(input).a == m.a,
        m.after(input).form == m.form,
        m.after(input).xs.len() == m.xs.len(),
        m.after(input).ys.len() == m.ys.len(),
        m.wf() ==> m.after(input).wf(),
    decreases input.len(),
{
    if input.len() > 0 {
        lemma_after_keeps_shape(m, input.drop_last());
    }
}

/// A filter returns one output for each input.
pub proof fn lemma_outputs_len<T: Sample>(m: FilterModel<T>, input: Seq<T>)
    ensures
        m.outputs(input).len() == input.len(),
    decreases input.len(),
{
    if input.len() > 0 {
        lemma_outputs_len(m, input.drop_last());
    }
}

/// History continuity: filtering `first` and then `second`, without a reset
/// between them, gives the outputs of filtering `first + second` at once and
/// leaves the same filter. The one can be computed exactly when the other can.
pub proof fn lemma_filt_continues<T: Sample>(m: FilterModel<T>, first: Seq<T>, second: Seq<T>)
    ensures
        m.after(first + second) == m.after(first).after(second),
        m.outputs(first + second) == m.outputs(first) + m.after(first).outputs(second),
        m.defined_on(first + second) <==> m.defined_on(first) && m.after(first).defined_on(second),
    decreases second.len(),
{
    let whole = first + second;
    if second.len() == 0 {
        assert(whole == first);
        assert(m.outputs(first) + Seq::<T>::empty() == m.outputs(first));
    } else {
        assert(whole.drop_last() == first + second.drop_last());
        assert(whole.last() == second.last());
        lemma_filt_continues(m, first, second.drop_last());
        assert(m.outputs(whole) == m.outputs(first) + m.after(first).outputs(second));
    }
}

/// History continuity for any partition: calling the filter on each chunk in
/// order gives, end to end, the outputs of one call on the whole signal, and
/// leaves the same filter.
pub proof fn lemma_filt_in_chunks<T: Sample>(m: FilterModel<T>, chunks: Seq<Seq<T>>)
    ensures
        m.after_chunks(chunks) == m.after(chunks.flatten()),
        m.outputs_in_chunks(chunks) == m.outputs(chunks.flatten()),
    decreases chunks.len(),
{
    if chunks.len() > 0 {
        let head = chunks.drop_last();
        let tail = seq![chunks.last()];
        lemma_filt_in_chunks(m, head);
        assert(chunks == head + tail);
        lemma_flatten_concat(head, tail);
        tail.lemma_flatten_one_element();
        assert(chunks.flatten() == head.flatten() + chunks.last());
        lemma_filt_continues(m, head.flatten(), chunks.last());
    }
}

/// Seeding forgets the history: what a seeded filter was before, and what it
/// has processed, makes no difference, so seeding twice is seeding once.
pub proof fn lemma_seeded_forgets<T: Sample>(m: FilterModel<T>, input: Seq<T>, v: T)
    ensures
        m.after(input).seeded(v) == m.seeded(v),
        m.seeded(v).seeded(v) == m.seeded(v),
        m.wf() ==> m.seeded(v).wf(),
{
    lemma_after_keeps_shape(m, input);
    assert(m.after(input).seeded(v).xs == m.seeded(v).xs);
    assert(m.after(input).seeded(v).ys == m.seeded(v).ys);
    assert(m.seeded(v).seeded(v).xs == m.seeded(v).xs);
    assert(m.seeded(v).seeded(v).ys == m.seeded(v).ys);
}

/// A single-pole filter seeded with `v` answers the input `v` with
/// `(b[0]*v + b[1]*v) - a[1]*v`, whatever it has processed before.
pub proof fn lemma_seeded_single_pole_response<T: Sample>(m: FilterModel<T>, input: Seq<T>, v: T)
    requires
        m.wf(),
        m.form is SinglePole,
    ensures
        m.after(input).seeded(v).outputs(seq![v]) == seq![
            sub_term(add_term(m.b[0].mul_spec(v), m.b[1], v), m.a[0], v),
        ],
{
    lemma_seeded_forgets(m, input, v);
    let s = m.seeded(v);
    let one = seq![v];
    assert(one.drop_last() == Seq::<T>::empty());
    assert(s.outputs(one.drop_last()) == Seq::<T>::empty());
    assert(s.after(one.drop_last()) == s);
    assert(s.outputs(one) == Seq::<T>::empty().push(s.response(v)));
}

/// A filter of any order seeded with `v` answers the input `v` with its
/// response to a window and an output history that hold `v` throughout.
pub proof fn lemma_seeded_response<T: Sample>(m: FilterModel<T>, input: Seq<T>, v: T)
    ensures
        m.after(input).seeded(v).outputs(seq![v]) == seq![m.seeded(v).response(v)],
        m.seeded(v).window(v) == Seq::new(m.xs.len() + 1, |i: int| v),
        m.seeded(v).ys == Seq::new(m.ys.len(), |i: int| v),
{
    lemma_seeded_forgets(m, input, v);
    let s = m.seeded(v);
    let one = seq![v];
    assert(one.drop_last() == Seq::<T>::empty());
    assert(s.outputs(one.drop_last()) == Seq::<T>::empty());
    assert(s.after(one.drop_last()) == s);
    assert(s.outputs(one) == Seq::<T>::empty().push(s.response(v)));
    assert(s.window(v) == Seq::new(m.xs.len() + 1, |i: int| v));
}

/// Where sums may be regrouped, a general filter with two numerator
/// coefficients that is seeded with `v` answers the input `v` as a
/// single-pole filter does: with `(b[0]*v + b[1]*v) - a[1]*v`.
pub proof fn lemma_seeded_running_response<T: Sample>(m: FilterModel<T>, v: T)
    requires
        m.wf(),
        m.a.len() == 1,
        m.form matches Summation::Running { zero } && sums_reassociate(zero),
        m.seeded(v).response_defined(v),
        (FilterModel { form: Summation::SinglePole, ..m.seeded(v) }).response_defined(v),
    ensures
        m.seeded(v).response(v) == sub_term(add_term(m.b[0].mul_spec(v), m.b[1], v), m.a[0], v),
{
    let g = m.seeded(v);
    let f = FilterModel { form: Summation::SinglePole, ..g };
    let one = seq![v];
    assert(one.drop_last() == Seq::<T>::empty());
    assert(one.last() == v);
    assert(f.after(one.drop_last()) == f);
    assert(g.after(one.drop_last()) == g);
    assert(f.defined_on(one.drop_last()));
    assert(g.defined_on(one.drop_last()));
    assert(f.defined_on(one));
    assert(g.defined_on(one));
    lemma_single_pole_matches_running(f, g, one);
    assert(f.outputs(one).last() == f.response(v));
    assert(g.outputs(one).last() == g.response(v));
}

/// Where sums may be regrouped, the two orders of summation agree: a
/// single-pole filter and a general filter with two numerator coefficients,
/// the same coefficients and the same history give the same outputs for the
/// same inputs, and have the same history afterwards.
pub proof fn lemma_single_pole_matches_running<T: Sample>(
    f: FilterModel<T>,
    g: FilterModel<T>,
    input: Seq<T>,
)
    requires
        f.wf(),
        g.wf(),
        f.form is SinglePole,
        g.form matches Summation::Running { zero } && sums_reassociate(zero),
        f.b == g.b,
        f.a == g.a,
        f.xs == g.xs,
        f.ys == g.ys,
        f.defined_on(input),
        g.defined_on(input),
    ensures
        f.outputs(input) == g.outputs(input),
        f.after(input).xs == g.after(input).xs,
        f.after(input).ys == g.after(input).ys,
    decreases input.len(),
{
    if input.len() > 0 {
        let head = input.drop_last();
        let x = input.last();
        lemma_single_pole_matches_running(f, g, head);
        lemma_after_keeps_shape(f, head);
        lemma_after_keeps_shape(g, head);
        let fh = f.after(head);
        let gh = g.after(head);
        let zero = g.form->zero;
        assert(gh.window(x)[0] == x);
        assert(gh.window(x)[1] == gh.xs[0]);
        reveal_with_fuel(FilterModel::partial_sum, 2);
        reveal_with_fuel(FilterModel::partial_sum_defined, 2);
        let p = gh.b[0].mul_spec(x);
        let w = gh.b[1].mul_spec(gh.xs[0]);
        let q = gh.a[0].mul_spec(gh.ys[0]);
        assert(zero.add_spec(p) == p);
        assert(gh.partial_sum(zero, x, 1) == p.sub_spec(q));
        assert(gh.response(x) == p.sub_spec(q).add_spec(w));
        assert(fh.response(x) == p.add_spec(w).sub_spec(q));
        assert(fh.response(x) == gh.response(x));
    }
}

} // verus!
