//! Bookkeeping around the opaque classifier.
//!
//! The classifier itself is an external collaborator: it consumes a
//! normalized sample and produces one fixed-point probability per digit
//! class. This module holds the verified part of the adapter around it:
//! given the probabilities of one invocation, it replaces the stored
//! distribution and updates the running best guess. The best guess is
//! deliberately never reset between calls — `highest_probability` only ever
//! moves upward, and `predicted` follows it — so the displayed guess is the
//! most confident answer the classifier has given over the whole session.

use vstd::prelude::*;

verus! {

use crate::FIXED_ONE;

/// Number of digit classes the classifier distinguishes.
pub const NUM_CLASSES: usize = 10;

/// The running maximum of an initial value `h0` and the values of `s`, as
/// produced by a left-to-right scan that replaces the current maximum on a
/// strictly greater element.
pub open spec fn running_max(h0: int, s: Seq<i32>) -> int
    decreases s.len(),
{
    if s.len() == 0 {
        h0
    } else {
        let prev = running_max(h0, s.drop_last());
        if s.last() > prev {
            s.last() as int
        } else {
            prev
        }
    }
}

/// `running_max(h0, s)` is exactly the least upper bound of `h0` and the
/// values of `s`: it dominates all of them and is attained by one of them.
pub proof fn lemma_running_max_is_supremum(h0: int, s: Seq<i32>)
    ensures
        running_max(h0, s) >= h0,
        forall|j: int| 0 <= j < s.len() ==> #[trigger] s[j] <= running_max(h0, s),
        running_max(h0, s) == h0 || exists|j: int|
            0 <= j < s.len() && #[trigger] s[j] == running_max(h0, s),
    decreases s.len(),
{
    if s.len() > 0 {
        lemma_running_max_is_supremum(h0, s.drop_last());
        assert forall|j: int| 0 <= j < s.len() implies #[trigger] s[j] <= running_max(h0, s) by {
            if j < s.len() - 1 {
                assert(s.drop_last()[j] == s[j]);
                assert(s.drop_last()[j] <= running_max(h0, s.drop_last()));
            }
        }
        if running_max(h0, s) != h0 && running_max(h0, s) != s.last() {
            let j = choose|j: int|
                0 <= j < s.drop_last().len() && #[trigger] s.drop_last()[j] == running_max(
                    h0,
                    s.drop_last(),
                );
            assert(s[j] == running_max(h0, s));
        }
    }
}

/// Scanning one more element never lowers the running maximum.
pub proof fn lemma_running_max_monotone(h0: int, s: Seq<i32>)
    ensures
        running_max(h0, s) >= h0,
    decreases s.len(),
{
    lemma_running_max_is_supremum(h0, s);
}

/// The recorded highest probability after a whole session: starting from
/// confidence `h0`, each batch of `batches` is absorbed in turn, exactly as
/// a sequence of [`InferenceAdapter::apply_scores`] calls absorbs the
/// distributions returned by successive classifier invocations.
pub open spec fn highest_after(h0: int, batches: Seq<Seq<i32>>) -> int
    decreases batches.len(),
{
    if batches.len() == 0 {
        h0
    } else {
        running_max(highest_after(h0, batches.drop_last()), batches.last())
    }
}

/// Absorbing one more distribution never lowers the recorded highest
/// probability: across a session it is monotonically non-decreasing.
pub proof fn lemma_highest_never_decreases(h0: int, batches: Seq<Seq<i32>>, d: Seq<i32>)
    ensures
        highest_after(h0, batches.push(d)) >= highest_after(h0, batches),
{
    assert(batches.push(d).drop_last() =~= batches);
    lemma_running_max_monotone(highest_after(h0, batches), batches.push(d).last());
}

/// After any sequence of classifier invocations the recorded highest
/// probability equals the maximum of the initial confidence and of every
/// probability in every distribution seen: it dominates them all and is
/// attained by one of them (or is still the initial confidence).
pub proof fn lemma_highest_is_global_supremum(h0: int, batches: Seq<Seq<i32>>)
    ensures
        highest_after(h0, batches) >= h0,
        forall|k: int, j: int|
            0 <= k < batches.len() && 0 <= j < batches[k].len() ==> #[trigger] batches[k][j]
                <= highest_after(h0, batches),
        highest_after(h0, batches) == h0 || exists|k: int, j: int|
            0 <= k < batches.len() && 0 <= j < batches[k].len() && #[trigger] batches[k][j]
                == highest_after(h0, batches),
    decreases batches.len(),
{
    if batches.len() > 0 {
        let hb = highest_after(h0, batches);
        let prev = highest_after(h0, batches.drop_last());
        let last = batches.last();
        lemma_highest_is_global_supremum(h0, batches.drop_last());
        lemma_running_max_is_supremum(prev, last);
        assert forall|k: int, j: int|
            0 <= k < batches.len() && 0 <= j < batches[k].len() implies #[trigger] batches[k][j]
            <= hb by {
            if k < batches.len() - 1 {
                assert(batches.drop_last()[k] == batches[k]);
                assert(batches.drop_last()[k][j] <= prev);
            } else {
                assert(batches[k] == last);
                assert(last[j] <= hb);
            }
        }
        if hb != h0 {
            if hb == prev {
                let (k, j) = choose|k: int, j: int|
                    0 <= k < batches.drop_last().len() && 0 <= j < batches.drop_last()[k].len()
                        && #[trigger] batches.drop_last()[k][j] == prev;
                assert(batches.drop_last()[k] == batches[k]);
                assert(batches[k][j] == hb);
            } else {
                let j = choose|j: int| 0 <= j < last.len() && #[trigger] last[j] == hb;
                assert(batches[batches.len() - 1][j] == hb);
            }
        }
    }
}

/// State of the inference adapter that is visible to the display layer: the
/// latest probability distribution and the running best guess.
pub struct InferenceAdapter {
    /// Class index of the running best guess.
    pub predicted: usize,
    /// Fixed-point probability per digit class, from the latest invocation.
    pub probabilities: Vec<i32>,
    /// Largest fixed-point probability seen over the whole session.
    pub highest_probability: i32,
}

impl InferenceAdapter {
    /// One probability per class, every probability a valid fixed-point
    /// value, and the best guess a valid class index no larger than any
    /// probability ever seen.
    pub open spec fn wf(self) -> bool {
        &&& self.probabilities@.len() == NUM_CLASSES
        &&& forall|i: int|
            0 <= i < self.probabilities@.len() ==> 0 <= #[trigger] self.probabilities@[i]
                <= FIXED_ONE
        &&& self.predicted < NUM_CLASSES
        &&& 0 <= self.highest_probability <= FIXED_ONE
    }

    /// A fresh adapter: all probabilities zero, best guess class `0` with
    /// zero confidence.
    pub fn new() -> (a: InferenceAdapter)
        ensures
            a.wf(),
            a.predicted == 0,
            a.highest_probability == 0,
            forall|i: int| 0 <= i < a.probabilities@.len() ==> a.probabilities@[i] == 0,
    {
        let mut probabilities: Vec<i32> = Vec::new();
        let mut i: usize = 0;
        while i < NUM_CLASSES
            invariant
                i <= NUM_CLASSES,
                probabilities@.len() == i,
                forall|j: int| 0 <= j < i ==> probabilities@[j] == 0,
            decreases NUM_CLASSES - i,
        {
            probabilities.push(0);
            i = i + 1;
        }
        InferenceAdapter { predicted: 0, probabilities, highest_probability: 0 }
    }

    /// Absorbs the probabilities of one classifier invocation: the stored
    /// distribution is replaced wholesale, and the best guess is updated
    /// only upward — on a strictly larger probability it moves to the first
    /// class attaining the new maximum, otherwise it stays where it was.
    pub fn apply_scores(&mut self, scores: &Vec<i32>)
        requires
            old(self).wf(),
            scores@.len() == NUM_CLASSES,
            forall|i: int| 0 <= i < scores@.len() ==> 0 <= #[trigger] scores@[i] <= FIXED_ONE,
        ensures
            final(self).wf(),
            final(self).probabilities@ == scores@,
            final(self).highest_probability == running_max(
                old(self).highest_probability as int,
                scores@,
            ),
            final(self).highest_probability > old(self).highest_probability ==> {
                &&& final(self).predicted < scores@.len()
                &&& scores@[final(self).predicted as int] == final(self).highest_probability
                &&& forall|j: int|
                    0 <= j < final(self).predicted
                        ==> #[trigger] scores@[j] < final(self).highest_probability
            },
            final(self).highest_probability == old(self).highest_probability
                ==> final(self).predicted == old(self).predicted,
    {
        let ghost h0 = self.highest_probability as int;
        let ghost p0 = self.predicted;
        let mut i: usize = 0;
        while i < NUM_CLASSES
            invariant
                i <= NUM_CLASSES,
                scores@.len() == NUM_CLASSES,
                forall|k: int| 0 <= k < scores@.len() ==> 0 <= #[trigger] scores@[k] <= FIXED_ONE,
                self.probabilities@.len() == NUM_CLASSES,
                forall|k: int| 0 <= k < i ==> self.probabilities@[k] == scores@[k],
                forall|k: int|
                    i <= k < NUM_CLASSES ==> self.probabilities@[k] == old(self).probabilities@[k],
                0 <= h0 <= FIXED_ONE,
                self.highest_probability == running_max(h0, scores@.take(i as int)),
                h0 <= self.highest_probability <= FIXED_ONE,
                forall|k: int| 0 <= k < i ==> #[trigger] scores@[k] <= self.highest_probability,
                self.highest_probability > h0 ==> {
                    &&& self.predicted < i
                    &&& scores@[self.predicted as int] == self.highest_probability
                    &&& forall|j: int|
                        0 <= j < self.predicted ==> #[trigger] scores@[j]
                            < self.highest_probability
                },
                self.highest_probability == h0 ==> self.predicted == p0,
                p0 < NUM_CLASSES,
            decreases NUM_CLASSES - i,
        {
            let p: i32 = scores[i];
            self.probabilities.set(i, p);
            proof {
                assert(scores@.take(i + 1).drop_last() =~= scores@.take(i as int));
                assert(scores@.take(i + 1).last() == scores@[i as int]);
            }
            if p > self.highest_probability {
                self.highest_probability = p;
                self.predicted = i;
            }
            i = i + 1;
        }
        proof {
            assert(scores@.take(NUM_CLASSES as int) =~= scores@);
            assert(self.probabilities@ =~= scores@);
        }
    }
}

} // verus!
