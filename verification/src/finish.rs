//! The post-pass over the raw scores of a query: the reductions that find the
//! scalar every score is related to, and the choice of what is done with it.
//!
//! The reductions only order patterns, so they are exact on the patterns
//! themselves. A score that is not a number takes no part in them.
use crate::metric::{Metric, PostPass};
use crate::scalar::{at_most, is_nan, is_zero, magnitude, magnitude_of, not_a_number, rank, zero, ONE_BITS};
use vstd::prelude::*;

verus! {

/// The largest magnitude among the scores that are numbers, zero where there
/// is none.
pub open spec fn peak_of(raw: Seq<u32>) -> u32
    decreases raw.len(),
{
    if raw.len() == 0 {
        0
    } else {
        let rest = peak_of(raw.drop_last());
        if !is_nan(raw.last()) && magnitude(raw.last()) > rest {
            magnitude(raw.last())
        } else {
            rest
        }
    }
}

/// The greatest of the scores that are numbers, the last one among equals;
/// none where no score is a number.
pub open spec fn greatest_of(raw: Seq<u32>) -> Option<u32>
    decreases raw.len(),
{
    if raw.len() == 0 {
        None
    } else {
        let rest = greatest_of(raw.drop_last());
        if is_nan(raw.last()) {
            rest
        } else {
            match rest {
                Some(best) if rank(best) > rank(raw.last()) => rest,
                _ => Some(raw.last()),
            }
        }
    }
}

/// How the raw scores of a query become its result.
#[derive(Debug, Clone, Copy, PartialEq, Eq, Structural)]
pub enum Finish {
    /// The raw scores are the result.
    Keep,
    /// Every score is divided by `peak` plus the guard.
    DivideByPeak { peak: u32 },
    /// Every distance `d` becomes `1 - d / d_max`.
    RelateTo { d_max: u32 },
    /// Every position equals the reference: every result is one.
    Ones,
}

/// The finish that the metric calls for on the raw scores. The two cosines
/// keep the scores. The dot product and the relative norm divide by the peak.
/// The distances relate every score to the greatest one; where that is zero,
/// every result is one, and where no score is a number, the scores are kept.
pub open spec fn finish_of(metric: Metric, raw: Seq<u32>) -> Finish {
    match metric.spec_post_pass() {
        PostPass::Unscaled => Finish::Keep,
        PostPass::ByPeak => Finish::DivideByPeak { peak: peak_of(raw) },
        PostPass::ByMaxDistance => match greatest_of(raw) {
            None => Finish::Keep,
            Some(d_max) => if is_zero(d_max) {
                Finish::Ones
            } else {
                Finish::RelateTo { d_max }
            },
        },
    }
}

/// The peak is the pattern of a number without sign, no score that is a
/// number has a larger magnitude, and the peak is zero or the magnitude of
/// such a score.
pub proof fn lemma_peak(raw: Seq<u32>)
    ensures
        !is_nan(peak_of(raw)),
        magnitude(peak_of(raw)) == peak_of(raw),
        forall|j: int|
            0 <= j < raw.len() && !is_nan(#[trigger] raw[j]) ==> magnitude(raw[j]) <= peak_of(raw),
        peak_of(raw) == 0 || exists|j: int|
            0 <= j < raw.len() && !is_nan(#[trigger] raw[j]) && magnitude(raw[j]) == peak_of(raw),
    decreases raw.len(),
{
    if raw.len() > 0 {
        let front = raw.drop_last();
        lemma_peak(front);
        assert(forall|j: int| 0 <= j < front.len() ==> front[j] == raw[j]);
        if peak_of(raw) != 0 {
            if !is_nan(raw.last()) && magnitude(raw.last()) > peak_of(front) {
                assert(magnitude(raw[raw.len() - 1]) == peak_of(raw));
            } else {
                let j = choose|j: int|
                    0 <= j < front.len() && !is_nan(#[trigger] front[j]) && magnitude(front[j])
                        == peak_of(front);
                assert(!is_nan(raw[j]) && magnitude(raw[j]) == peak_of(raw));
            }
        }
    }
}

/// There is a greatest score exactly when some score is a number; it is one
/// of the scores, a number, and no score that is a number ranks above it.
pub proof fn lemma_greatest(raw: Seq<u32>)
    ensures
        greatest_of(raw) is None <==> forall|j: int|
            0 <= j < raw.len() ==> is_nan(#[trigger] raw[j]),
        greatest_of(raw) matches Some(best) ==> {
            &&& !is_nan(best)
            &&& exists|j: int| 0 <= j < raw.len() && #[trigger] raw[j] == best
            &&& forall|j: int|
                0 <= j < raw.len() && !is_nan(#[trigger] raw[j]) ==> rank(raw[j]) <= rank(best)
        },
    decreases raw.len(),
{
    if raw.len() > 0 {
        let front = raw.drop_last();
        lemma_greatest(front);
        assert(forall|j: int| 0 <= j < front.len() ==> front[j] == raw[j]);
        match greatest_of(raw) {
            None => {},
            Some(best) => {
                if greatest_of(front) == Some(best) && !(!is_nan(raw.last()) && best
                    == raw.last()) {
                    let j = choose|j: int| 0 <= j < front.len() && #[trigger] front[j] == best;
                    assert(raw[j] == best);
                } else {
                    assert(raw[raw.len() - 1] == best);
                }
            },
        }
    }
}

/// Where there are distances and each is a zero, every result is one.
pub proof fn lemma_identical_rows(metric: Metric, raw: Seq<u32>)
    requires
        metric.spec_post_pass() == PostPass::ByMaxDistance,
        raw.len() > 0,
        forall|j: int| 0 <= j < raw.len() ==> is_zero(#[trigger] raw[j]),
    ensures
        finish_of(metric, raw) == Finish::Ones,
{
    lemma_greatest(raw);
    assert(!is_nan(raw[0]));
    let best = greatest_of(raw)->Some_0;
    let j = choose|j: int| 0 <= j < raw.len() && #[trigger] raw[j] == best;
    assert(is_zero(raw[j]));
}

/// Computes [`peak_of`].
pub fn peak(raw: &[u32]) -> (peak: u32)
    ensures
        peak == peak_of(raw@),
{
    let mut peak: u32 = 0;
    let mut i: usize = 0;
    while i < raw.len()
        invariant
            i <= raw@.len(),
            peak == peak_of(raw@.take(i as int)),
        decreases raw@.len() - i,
    {
        let score = raw[i];
        assert(raw@.take(i + 1).drop_last() =~= raw@.take(i as int));
        if !not_a_number(score) && magnitude_of(score) > peak {
            peak = magnitude_of(score);
        }
        i += 1;
    }
    assert(raw@.take(i as int) =~= raw@);
    peak
}

/// Computes [`greatest_of`].
pub fn greatest(raw: &[u32]) -> (best: Option<u32>)
    ensures
        best == greatest_of(raw@),
{
    let mut best: Option<u32> = None;
    let mut i: usize = 0;
    while i < raw.len()
        invariant
            i <= raw@.len(),
            best == greatest_of(raw@.take(i as int)),
        decreases raw@.len() - i,
    {
        let score = raw[i];
        assert(raw@.take(i + 1).drop_last() =~= raw@.take(i as int));
        if !not_a_number(score) {
            best = match best {
                Some(held) if !at_most(held, score) => Some(held),
                _ => Some(score),
            };
        }
        i += 1;
    }
    assert(raw@.take(i as int) =~= raw@);
    best
}

/// Computes [`finish_of`].
pub fn finish(metric: Metric, raw: &[u32]) -> (finish: Finish)
    ensures
        finish == finish_of(metric, raw@),
{
    match metric.post_pass() {
        PostPass::Unscaled => Finish::Keep,
        PostPass::ByPeak => Finish::DivideByPeak { peak: peak(raw) },
        PostPass::ByMaxDistance => match greatest(raw) {
            None => Finish::Keep,
            Some(d_max) => if zero(d_max) {
                Finish::Ones
            } else {
                Finish::RelateTo { d_max }
            },
        },
    }
}

/// The result of a query whose every position equals the reference: `count`
/// times the scalar one.
pub fn ones(count: usize) -> (result: Vec<u32>)
    ensures
        result@ == Seq::new(count as nat, |j: int| ONE_BITS),
{
    let mut result: Vec<u32> = Vec::with_capacity(count);
    let mut i: usize = 0;
    while i < count
        invariant
            i <= count,
            result@.len() == i,
            forall|j: int| 0 <= j < i ==> result@[j] == ONE_BITS,
        decreases count - i,
    {
        result.push(ONE_BITS);
        i += 1;
    }
    assert(result@ =~= Seq::new(count as nat, |j: int| ONE_BITS));
    result
}

} // verus!
