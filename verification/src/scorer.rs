//! Scoring of detected events against the known centroids of a stream.

use vstd::prelude::*;

verus! {

/// The counts that a stream ends with.
#[derive(Debug, Clone, Copy, PartialEq, Eq, Structural)]
pub struct Metrics {
    /// Centroids that a run of flagged samples claimed.
    pub true_positive: usize,
    /// Unmatched runs that passed the debounce.
    pub false_positive: usize,
    /// Centroids that no run claimed.
    pub false_negative: usize,
}

impl Metrics {
    /// Precision as a fraction: the true positives over all detections,
    /// numerator first. Nothing detected gives 0 over 0.
    pub fn precision_ratio(&self) -> (r: (u128, u128))
        ensures
            r.0 == self.true_positive,
            r.1 == self.true_positive + self.false_positive,
    {
        (self.true_positive as u128, self.true_positive as u128 + self.false_positive as u128)
    }

    /// Recall as a fraction: the true positives over all known events,
    /// numerator first. No known event gives 0 over 0.
    pub fn recall_ratio(&self) -> (r: (u128, u128))
        ensures
            r.0 == self.true_positive,
            r.1 == self.true_positive + self.false_negative,
    {
        (self.true_positive as u128, self.true_positive as u128 + self.false_negative as u128)
    }
}

/// The state of a scorer: the centroids not yet claimed, in their order, and
/// the counts so far.
pub struct Tally {
    pub remaining: Seq<u64>,
    pub true_positive: nat,
    pub false_positive: nat,
}

/// The run of consecutive flagged indices that the scorer is in.
pub struct Run {
    /// The flagged index seen last.
    pub prev: u64,
    /// The number of indices of this run that claimed a centroid.
    pub length: nat,
    /// Whether this run has claimed a centroid.
    pub matched: bool,
}

impl Tally {
    /// The tally and the run after the flagged index `e`.
    ///
    /// An index that continues the run claims the centroid equal to it, if
    /// one remains: the centroid leaves, and the run grows. An index that
    /// starts a new run closes the old one, which counts as a false positive
    /// if it is longer than 2 and claimed nothing.
    pub open spec fn observe(self, run: Run, e: u64) -> (Tally, Run) {
        if e == run.prev + 1 {
            if self.remaining.contains(e) {
                (
                    Tally {
                        remaining: self.remaining.remove_value(e),
                        true_positive: self.true_positive + 1,
                        ..self
                    },
                    Run { prev: e, length: run.length + 1, matched: true },
                )
            } else {
                (self, Run { prev: e, ..run })
            }
        } else {
            (
                Tally {
                    false_positive: if run.length > 2 && !run.matched {
                        self.false_positive + 1
                    } else {
                        self.false_positive
                    },
                    ..self
                },
                Run { prev: e, length: 0, matched: false },
            )
        }
    }

    /// The tally and the run after the flagged indices `events`, in order.
    pub open spec fn observe_all(self, run: Run, events: Seq<u64>) -> (Tally, Run)
        decreases events.len(),
    {
        if events.len() == 0 {
            (self, run)
        } else {
            let (tally, run) = self.observe_all(run, events.drop_last());
            tally.observe(run, events.last())
        }
    }

    /// The tally after the flagged indices of one chunk. The first index opens
    /// a run and is compared with nothing; each later one is observed in turn.
    /// The run that is open at the end of the chunk is not closed.
    pub open spec fn consume(self, flagged: Seq<u64>) -> Tally {
        if flagged.len() == 0 {
            self
        } else {
            self.observe_all(Run { prev: flagged[0], length: 0, matched: false }, flagged.skip(1)).0
        }
    }
}

/// A run grows only by claiming a centroid, so a run that has grown has matched.
pub open spec fn run_inv(run: Run) -> bool {
    run.length > 0 ==> run.matched
}

/// Observing flagged indices moves centroids from the remaining ones to the
/// true positives, one for one, and leaves the false positives as they are:
/// a run never passes the debounce unmatched. No centroid comes back.
pub proof fn lemma_observe_all_conserves(tally: Tally, run: Run, events: Seq<u64>)
    requires
        run_inv(run),
    ensures
        run_inv(tally.observe_all(run, events).1),
        tally.observe_all(run, events).0.false_positive == tally.false_positive,
        tally.observe_all(run, events).0.true_positive + tally.observe_all(
            run,
            events,
        ).0.remaining.len() == tally.true_positive + tally.remaining.len(),
        tally.observe_all(run, events).0.true_positive >= tally.true_positive,
        forall|c: u64| #[trigger]
            tally.observe_all(run, events).0.remaining.contains(c) ==> tally.remaining.contains(c),
    decreases events.len(),
{
    if events.len() > 0 {
        lemma_observe_all_conserves(tally, run, events.drop_last());
        let (t, r) = tally.observe_all(run, events.drop_last());
        let e = events.last();
        if e == r.prev + 1 && t.remaining.contains(e) {
            t.remaining.index_of_first_ensures(e);
            let i = t.remaining.index_of_first(e).unwrap();
            let left = t.remaining.remove(i);
            assert forall|c: u64| left.contains(c) implies t.remaining.contains(c) by {
                let j = choose|j: int| 0 <= j < left.len() && left[j] == c;
                if j < i {
                    assert(t.remaining[j] == c);
                } else {
                    assert(t.remaining[j + 1] == c);
                }
            }
        }
    }
}

/// A chunk of flagged indices moves centroids from the remaining ones to the
/// true positives, one for one: a centroid is claimed at most once, what is
/// not claimed remains, and none comes back. The false positives stay as
/// they are.
pub proof fn lemma_consume_conserves(tally: Tally, flagged: Seq<u64>)
    ensures
        tally.consume(flagged).false_positive == tally.false_positive,
        tally.consume(flagged).true_positive + tally.consume(flagged).remaining.len()
            == tally.true_positive + tally.remaining.len(),
        tally.consume(flagged).true_positive >= tally.true_positive,
        forall|c: u64| #[trigger]
            tally.consume(flagged).remaining.contains(c) ==> tally.remaining.contains(c),
{
    if flagged.len() > 0 {
        lemma_observe_all_conserves(
            tally,
            Run { prev: flagged[0], length: 0, matched: false },
            flagged.skip(1),
        );
    }
}

/// Scores the flagged indices of a stream, chunk by chunk, against its centroids.
pub struct MatchScorer {
    centroids: Vec<u64>,
    true_positive: usize,
    false_positive: usize,
    total: usize,
}

impl View for MatchScorer {
    type V = Tally;

    closed spec fn view(&self) -> Tally {
        Tally {
            remaining: self.centroids@,
            true_positive: self.true_positive as nat,
            false_positive: self.false_positive as nat,
        }
    }
}

/// The first index at which `e` stands in `v`, if it stands there at all.
fn position(v: &Vec<u64>, e: u64) -> (r: Option<usize>)
    ensures
        match r {
            Some(i) => i < v@.len() && v@.contains(e) && v@.index_of_first(e) == Some(i as int),
            None => !v@.contains(e),
        },
{
    let mut i: usize = 0;
    while i < v.len()
        invariant
            i <= v.len(),
            forall|j: int| 0 <= j < i ==> v@[j] != e,
        decreases v.len() - i,
    {
        if v[i] == e {
            proof {
                v@.index_of_first_ensures(e);
            }
            return Some(i);
        }
        i += 1;
    }
    None
}

impl MatchScorer {
    /// The scorer holds as many centroids, claimed or not, as it was made with.
    pub closed spec fn wf(&self) -> bool {
        self.true_positive + self.centroids@.len() == self.total
    }

    /// The number of centroids that the scorer was made with.
    pub closed spec fn total_spec(&self) -> nat {
        self.total as nat
    }

    /// A scorer for a stream with these centroids, none of them claimed yet.
    pub fn new(centroids: Vec<u64>) -> (s: Self)
        ensures
            s.wf(),
            s@ == (Tally { remaining: centroids@, true_positive: 0, false_positive: 0 }),
            s.total_spec() == centroids@.len(),
    {
        let total = centroids.len();
        MatchScorer { centroids, true_positive: 0, false_positive: 0, total }
    }

    /// The number of centroids that the scorer was made with.
    pub fn total(&self) -> (n: usize)
        requires
            self.wf(),
        ensures
            n == self.total_spec(),
            n == self@.true_positive + self@.remaining.len(),
    {
        self.total
    }

    /// Scores the flagged indices of one chunk, given in ascending order.
    pub fn consume(&mut self, flagged: &[u64])
        requires
            old(self).wf(),
        ensures
            final(self).wf(),
            final(self).total_spec() == old(self).total_spec(),
            final(self)@ == old(self)@.consume(flagged@),
    {
        if flagged.len() == 0 {
            return ;
        }
        let ghost start = self@;
        let ghost first = Run { prev: flagged[0], length: 0, matched: false };
        let ghost rest = flagged@.skip(1);
        let mut prev = flagged[0];
        let mut run_length: usize = 0;
        let mut already_matched = false;
        let mut k: usize = 1;
        while k < flagged.len()
            invariant
                1 <= k <= flagged.len(),
                self.wf(),
                self.total == old(self).total,
                rest == flagged@.skip(1),
                start.observe_all(first, rest.take(k - 1)) == (
                    self@,
                    Run { prev, length: run_length as nat, matched: already_matched },
                ),
                run_length > 0 ==> already_matched,
                run_length <= self.true_positive,
            decreases flagged.len() - k,
        {
            let e = flagged[k];
            let ghost tally = self@;
            let ghost run = Run { prev, length: run_length as nat, matched: already_matched };
            if prev < u64::MAX && e == prev + 1 {
                match position(&self.centroids, e) {
                    Some(i) => {
                        let _ = self.centroids.remove(i);
                        self.true_positive += 1;
                        already_matched = true;
                        run_length += 1;
                    },
                    None => {},
                }
            } else {
                if !already_matched && run_length > 2 {
                    self.false_positive += 1;
                }
                run_length = 0;
                already_matched = false;
            }
            prev = e;
            proof {
                let seen = rest.take(k as int);
                assert(seen.drop_last() == rest.take(k - 1));
                assert(seen.last() == e);
                assert(tally.observe(run, e) == (
                    self@,
                    Run { prev, length: run_length as nat, matched: already_matched },
                ));
            }
            k += 1;
        }
        proof {
            assert(rest.take(k - 1) == rest);
        }
    }

    /// The counts of the stream: every centroid that no run claimed is a false negative.
    pub fn finish(&self) -> (m: Metrics)
        requires
            self.wf(),
        ensures
            m.true_positive == self@.true_positive,
            m.false_positive == self@.false_positive,
            m.false_negative == self@.remaining.len(),
            m.true_positive + m.false_negative == self.total_spec(),
    {
        Metrics {
            true_positive: self.true_positive,
            false_positive: self.false_positive,
            false_negative: self.centroids.len(),
        }
    }
}

} // verus!
