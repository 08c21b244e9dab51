//! Event detection on a stream, one chunk at a time.
//!
//! For each chunk a low-pass filter, seeded with the chunk's first sample,
//! gives the baseline. The chunk less its baseline goes through a second
//! filter, which keeps its history from chunk to chunk, and gives the
//! feature. The samples at which the feature lies below a threshold are
//! flagged, and their indices in the whole stream go to the scorer.

use vstd::prelude::*;
use vstd::slice::slice_subrange;
use vstd::std_specs::ops::SubSpec;
use crate::filter::Filter;
use crate::filter::built::BuiltFilter;
use crate::filter::laws::lemma_seeded_forgets;
use crate::filter::model::FilterModel;
use crate::sample::{Sample, exact_arithmetic, total_arithmetic};
use crate::scorer::{MatchScorer, Metrics, Tally};
use crate::threshold::{below, comparable, is_below};

verus! {

/// The samples of `xs` less those of `ys`, one by one.
pub open spec fn differences<T: Sample>(xs: Seq<T>, ys: Seq<T>) -> Seq<T> {
    Seq::new(xs.len(), |i: int| xs[i].sub_spec(ys[i]))
}

/// Each sample of `ys` may be taken from the sample of `xs` at its place.
pub open spec fn can_subtract<T: Sample>(xs: Seq<T>, ys: Seq<T>) -> bool {
    forall|i: int| 0 <= i < xs.len() ==> (#[trigger] xs[i]).sub_req(ys[i])
}

/// The low-pass filter as it starts a chunk: seeded with the first sample,
/// whatever it held before. An empty chunk leaves it as it is.
pub open spec fn reseeded<T: Sample>(low: FilterModel<T>, chunk: Seq<T>) -> FilterModel<T> {
    if chunk.len() == 0 {
        low
    } else {
        low.seeded(chunk[0])
    }
}

/// The baseline of a chunk: what the reseeded low-pass filter returns for it.
pub open spec fn baseline_of<T: Sample>(low: FilterModel<T>, chunk: Seq<T>) -> Seq<T> {
    reseeded(low, chunk).outputs(chunk)
}

/// The chunk less its baseline.
pub open spec fn residual_of<T: Sample>(low: FilterModel<T>, chunk: Seq<T>) -> Seq<T> {
    differences(chunk, baseline_of(low, chunk))
}

/// The feature of a chunk: what the second filter returns for the residual.
pub open spec fn feature_of<T: Sample>(
    low: FilterModel<T>,
    high: FilterModel<T>,
    chunk: Seq<T>,
) -> Seq<T> {
    high.outputs(residual_of(low, chunk))
}

/// Every operation that the feature of `chunk` takes may be computed.
pub open spec fn extractable<T: Sample>(
    low: FilterModel<T>,
    high: FilterModel<T>,
    chunk: Seq<T>,
) -> bool {
    &&& reseeded(low, chunk).defined_on(chunk)
    &&& can_subtract(chunk, baseline_of(low, chunk))
    &&& high.defined_on(residual_of(low, chunk))
}

/// The baseline filter carries nothing from chunk to chunk: whatever it has
/// processed before, the baseline of a chunk, and with it the residual and
/// the feature, are the same.
pub proof fn lemma_baseline_forgets<T: Sample>(
    low: FilterModel<T>,
    high: FilterModel<T>,
    earlier: Seq<T>,
    chunk: Seq<T>,
)
    ensures
        baseline_of(low.after(earlier), chunk) == baseline_of(low, chunk),
        residual_of(low.after(earlier), chunk) == residual_of(low, chunk),
        feature_of(low.after(earlier), high, chunk) == feature_of(low, high, chunk),
{
    if chunk.len() > 0 {
        lemma_seeded_forgets(low, earlier, chunk[0]);
    }
}

/// The feature of `chunk` can be extracted: either the arithmetic of `T`
/// never fails, or it is exact and every operation on the way may be computed.
pub open spec fn can_extract<T: Sample>(
    low: FilterModel<T>,
    high: FilterModel<T>,
    chunk: Seq<T>,
) -> bool {
    total_arithmetic::<T>() || (exact_arithmetic::<T>() && extractable(low, high, chunk))
}

/// The feature of one chunk: one sample for each sample of the chunk.
///
/// The low-pass filter is seeded with the first sample of the chunk, so it
/// carries nothing over from the chunk before; the second filter goes on from
/// where it was. An empty chunk gives an empty feature and changes nothing.
/// Where the arithmetic of `T` is exact, the feature and the filters
/// afterwards are those of the models.
pub fn extract_feature<T: Sample, L: Filter<T>, H: Filter<T>>(
    low: &mut L,
    high: &mut H,
    chunk: &[T],
) -> (feature: Vec<T>)
    requires
        old(low).wf(),
        old(high).wf(),
        can_extract(old(low)@, old(high)@, chunk@),
    ensures
        final(low).wf(),
        final(high).wf(),
        final(low)@.same_design(old(low)@),
        final(high)@.same_design(old(high)@),
        feature@.len() == chunk@.len(),
        exact_arithmetic::<T>() ==> feature@ == feature_of(old(low)@, old(high)@, chunk@),
        exact_arithmetic::<T>() ==> final(low)@ == reseeded(old(low)@, chunk@).after(chunk@),
        exact_arithmetic::<T>() ==> final(high)@ == old(high)@.after(
            residual_of(old(low)@, chunk@),
        ),
{
    let ghost low0 = low@;
    if chunk.len() > 0 {
        low.init(chunk[0]);
    }
    let baseline = low.filt(chunk);
    let mut residual: Vec<T> = Vec::with_capacity(chunk.len());
    let mut i: usize = 0;
    while i < chunk.len()
        invariant
            i <= chunk.len(),
            baseline@.len() == chunk@.len(),
            total_arithmetic::<T>() || (exact_arithmetic::<T>() && can_subtract(
                chunk@,
                baseline@,
            )),
            residual@.len() == i,
            exact_arithmetic::<T>() ==> residual@ == differences(chunk@, baseline@).take(
                i as int,
            ),
        decreases chunk.len() - i,
    {
        residual.push(chunk[i] - baseline[i]);
        i += 1;
        assert(exact_arithmetic::<T>() ==> residual@ == differences(chunk@, baseline@).take(
            i as int,
        ));
    }
    proof {
        if exact_arithmetic::<T>() {
            assert(residual@ == residual_of(low0, chunk@));
        }
    }
    high.filt(residual.as_slice())
}

/// The indices of the samples of `feature` below `threshold`, in ascending
/// order, counted from `offset`.
pub open spec fn indices_below<T: PartialOrd>(feature: Seq<T>, threshold: T, offset: nat) -> Seq<
    u64,
>
    decreases feature.len(),
{
    if feature.len() == 0 {
        Seq::empty()
    } else {
        let before = indices_below(feature.drop_last(), threshold, offset);
        if below(feature.last(), threshold) {
            before.push((offset + feature.len() - 1) as u64)
        } else {
            before
        }
    }
}

/// The flagged indices of a chunk that starts at `offset` in its stream.
/// Without a threshold nothing is flagged, and a chunk of fewer than two
/// samples, whose deviation is undefined, has none.
pub open spec fn flagged<T: PartialOrd>(feature: Seq<T>, threshold: Option<T>, offset: nat) -> Seq<
    u64,
> {
    match threshold {
        Some(t) if feature.len() > 1 => indices_below(feature, t, offset),
        _ => Seq::empty(),
    }
}

/// `indices` are indices of a chunk of `len` samples that starts at `offset`,
/// in strictly ascending order.
pub open spec fn ascending_within(indices: Seq<u64>, offset: nat, len: nat) -> bool {
    &&& forall|i: int| 0 <= i < indices.len() ==> offset <= #[trigger] indices[i] < offset + len
    &&& forall|i: int, j: int| 0 <= i < j < indices.len() ==> indices[i] < indices[j]
}

/// Flags the samples of a chunk that lie below the threshold, by their index
/// in the stream.
///
/// Whatever the order of `T`, the result is a strictly ascending list of
/// indices of the chunk. Where `<` computes the order that `partial_cmp_spec`
/// states, the result is exactly [`flagged`].
pub fn flag_below<T: PartialOrd + Copy>(feature: &[T], threshold: Option<T>, offset: u64) -> (r:
    Vec<u64>)
    requires
        offset + feature@.len() <= u64::MAX,
    ensures
        ascending_within(r@, offset as nat, feature@.len()),
        threshold is None || feature@.len() <= 1 ==> r@.len() == 0,
        comparable::<T>() ==> r@ == flagged(feature@, threshold, offset as nat),
{
    let mut r: Vec<u64> = Vec::new();
    if feature.len() <= 1 {
        return r;
    }
    let t = match threshold {
        Some(t) => t,
        None => {
            return r;
        },
    };
    let mut i: usize = 0;
    while i < feature.len()
        invariant
            i <= feature.len(),
            offset + feature@.len() <= u64::MAX,
            ascending_within(r@, offset as nat, i as nat),
            comparable::<T>() ==> r@ == indices_below(feature@.take(i as int), t, offset as nat),
        decreases feature.len() - i,
    {
        let low = is_below(&feature[i], &t);
        if low {
            r.push(offset + i as u64);
        }
        proof {
            let seen = feature@.take(i + 1);
            assert(seen.drop_last() == feature@.take(i as int));
            assert(seen.last() == feature@[i as int]);
        }
        i += 1;
    }
    proof {
        assert(feature@.take(i as int) == feature@);
    }
    r
}

/// Where a pipeline stands in its stream.
#[derive(Debug, Clone, Copy, PartialEq, Eq, Structural)]
pub enum Stage {
    /// No chunk has been taken yet.
    Idle,
    /// The chunk with this index has been taken, and may now be scored.
    Processing(usize),
    /// No chunk is left.
    Done,
}

/// The state of a pipeline: its two filters, its tally, the length of a
/// chunk and the stage it is in.
pub struct PipelineModel<T> {
    pub low: FilterModel<T>,
    pub high: FilterModel<T>,
    pub tally: Tally,
    pub chunk_len: nat,
    pub stage: Stage,
}

impl<T: Sample> PipelineModel<T> {
    /// The index of the chunk that comes next.
    pub open spec fn next_index(self) -> nat {
        match self.stage {
            Stage::Processing(i) => (i + 1) as nat,
            _ => 0,
        }
    }

    /// A chunk is left: the pipeline is not done, and the next chunk starts
    /// inside a stream of `stream_len` samples.
    pub open spec fn has_next(self, stream_len: nat) -> bool {
        !(self.stage is Done) && self.next_index() * self.chunk_len < stream_len
    }

    /// The next chunk of `stream`: `chunk_len` samples, or as many as are left.
    pub open spec fn next_chunk(self, stream: Seq<T>) -> Seq<T> {
        let begin = (self.next_index() * self.chunk_len) as int;
        let end = if begin + self.chunk_len < stream.len() {
            begin + self.chunk_len
        } else {
            stream.len() as int
        };
        stream.subrange(begin, end)
    }

    /// Where the chunk in process starts in its stream.
    pub open spec fn offset(self) -> nat {
        match self.stage {
            Stage::Processing(i) => (i as nat) * self.chunk_len,
            _ => 0,
        }
    }
}

/// Detects events in one stream and scores them against its centroids.
///
/// The caller takes the feature of each chunk in turn with
/// [`EventDetectionPipeline::next_chunk`], derives a threshold from it, and
/// hands both to [`EventDetectionPipeline::score_chunk`].
pub struct EventDetectionPipeline<T> {
    low: BuiltFilter<T>,
    high: BuiltFilter<T>,
    scorer: MatchScorer,
    chunk_len: usize,
    stage: Stage,
    offset: usize,
}

impl<T> View for EventDetectionPipeline<T> {
    type V = PipelineModel<T>;

    closed spec fn view(&self) -> PipelineModel<T> {
        PipelineModel {
            low: self.low@,
            high: self.high@,
            tally: self.scorer@,
            chunk_len: self.chunk_len as nat,
            stage: self.stage,
        }
    }
}

impl<T: Sample + PartialOrd> EventDetectionPipeline<T> {
    /// The invariant: both filters and the scorer are well formed, a chunk
    /// has at least one sample, and the offset is that of the chunk in process.
    pub closed spec fn wf(&self) -> bool {
        &&& self.low.wf()
        &&& self.high.wf()
        &&& self.scorer.wf()
        &&& self.chunk_len > 0
        &&& self.offset == self@.offset()
    }

    /// A pipeline for one stream: `low` gives the baseline, `high` the
    /// feature, and `centroids` are the known events of the stream.
    pub fn new(
        low: BuiltFilter<T>,
        high: BuiltFilter<T>,
        centroids: Vec<u64>,
        chunk_len: usize,
    ) -> (p: Self)
        requires
            low.wf(),
            high.wf(),
            chunk_len > 0,
        ensures
            p.wf(),
            p@ == (PipelineModel {
                low: low@,
                high: high@,
                tally: Tally { remaining: centroids@, true_positive: 0, false_positive: 0 },
                chunk_len: chunk_len as nat,
                stage: Stage::Idle,
            }),
    {
        EventDetectionPipeline {
            low,
            high,
            scorer: MatchScorer::new(centroids),
            chunk_len,
            stage: Stage::Idle,
            offset: 0,
        }
    }

    /// The stage that the pipeline is in.
    pub fn stage(&self) -> (s: Stage)
        ensures
            s == self@.stage,
    {
        self.stage
    }

    /// Takes the next chunk of `stream` and returns its feature, or `None`
    /// when no chunk is left. The pipeline is then done.
    pub fn next_chunk(&mut self, stream: &[T]) -> (r: Option<Vec<T>>)
        requires
            old(self).wf(),
            old(self)@.has_next(stream@.len()) ==> can_extract(
                old(self)@.low,
                old(self)@.high,
                old(self)@.next_chunk(stream@),
            ),
        ensures
            final(self).wf(),
            final(self)@.tally == old(self)@.tally,
            final(self)@.chunk_len == old(self)@.chunk_len,
            final(self)@.low.same_design(old(self)@.low),
            final(self)@.high.same_design(old(self)@.high),
            match r {
                Some(feature) => {
                    let chunk = old(self)@.next_chunk(stream@);
                    &&& old(self)@.has_next(stream@.len())
                    &&& final(self)@.stage == Stage::Processing(old(self)@.next_index() as usize)
                    &&& final(self)@.offset() + chunk.len() <= stream@.len()
                    &&& chunk.len() > 0
                    &&& feature@.len() == chunk.len()
                    &&& exact_arithmetic::<T>() ==> {
                        &&& feature@ == feature_of(old(self)@.low, old(self)@.high, chunk)
                        &&& final(self)@.low == reseeded(old(self)@.low, chunk).after(chunk)
                        &&& final(self)@.high == old(self)@.high.after(
                            residual_of(old(self)@.low, chunk),
                        )
                    }
                },
                None => {
                    &&& !old(self)@.has_next(stream@.len())
                    &&& final(self)@.stage == Stage::Done
                    &&& final(self)@.low == old(self)@.low
                    &&& final(self)@.high == old(self)@.high
                },
            },
    {
        let len = stream.len();
        let step = self.chunk_len;
        let mut index: usize = 0;
        let mut begin: usize = 0;
        let mut found = false;
        match self.stage {
            Stage::Idle => {
                found = len > 0;
            },
            Stage::Processing(i) => {
                assert((i + 1) * step == i * step + step) by (nonlinear_arith);
                assert(i + 1 <= (i + 1) * step) by (nonlinear_arith)
                    requires
                        step >= 1,
                        i >= 0,
                ;
                assert(self.offset == i * step);
                if self.offset < len && len - self.offset > step {
                    index = i + 1;
                    begin = self.offset + step;
                    found = true;
                }
            },
            Stage::Done => {},
        }
        assert(found == old(self)@.has_next(stream@.len()));
        if !found {
            self.stage = Stage::Done;
            self.offset = 0;
            return None;
        }
        assert(index == old(self)@.next_index());
        assert(begin == index * step);
        let end = if len - begin > step {
            begin + step
        } else {
            len
        };
        let chunk = slice_subrange(stream, begin, end);
        assert(chunk@ == old(self)@.next_chunk(stream@));
        let feature = extract_feature(&mut self.low, &mut self.high, chunk);
        self.stage = Stage::Processing(index);
        self.offset = begin;
        Some(feature)
    }

    /// Scores the chunk in process: flags the samples of `feature` that lie
    /// below `threshold`, by their index in the stream, hands them to the
    /// scorer and returns them.
    pub fn score_chunk(&mut self, feature: &[T], threshold: Option<T>) -> (flags: Vec<u64>)
        requires
            old(self).wf(),
            old(self)@.offset() + feature@.len() <= u64::MAX,
        ensures
            final(self).wf(),
            final(self)@.low == old(self)@.low,
            final(self)@.high == old(self)@.high,
            final(self)@.chunk_len == old(self)@.chunk_len,
            final(self)@.stage == old(self)@.stage,
            final(self)@.tally == old(self)@.tally.consume(flags@),
            ascending_within(flags@, old(self)@.offset(), feature@.len()),
            threshold is None || feature@.len() <= 1 ==> flags@.len() == 0,
            comparable::<T>() ==> flags@ == flagged(feature@, threshold, old(self)@.offset()),
    {
        let flags = flag_below(feature, threshold, self.offset as u64);
        self.scorer.consume(flags.as_slice());
        flags
    }

    /// The counts of the stream so far: every centroid that no run has
    /// claimed is a false negative.
    pub fn finish(&self) -> (m: Metrics)
        requires
            self.wf(),
        ensures
            m.true_positive == self@.tally.true_positive,
            m.false_positive == self@.tally.false_positive,
            m.false_negative == self@.tally.remaining.len(),
    {
        self.scorer.finish()
    }
}

} // verus!
