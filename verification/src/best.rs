//! A running best with patience, for a bounded search loop: try a candidate,
//! keep it only if it scores better than the best so far, and stop once too
//! many attempts in a row failed to improve.
use crate::names::option_view;
use crate::number::{is_nan_bits, real_le, real_lt, Real};
use vstd::prelude::*;

verus! {

/// Keeps the best-scored candidate seen so far. Higher score wins.
#[derive(Debug)]
pub struct RunningBest<T> {
    best: Option<(T, Real)>,
    patience: u32,
    stale: u32,
}

/// A [`RunningBest`], with plain values for its parts.
pub struct RunningBestView<T> {
    /// The best candidate and the bits of its score.
    pub best: Option<(T, u64)>,
    /// How many attempts in a row may fail to improve.
    pub patience: u32,
    /// How many attempts in a row have failed to improve.
    pub stale: u32,
}

impl<T> View for RunningBest<T> {
    type V = RunningBestView<T>;

    closed spec fn view(&self) -> RunningBestView<T> {
        RunningBestView {
            best: match self.best {
                Some((candidate, score)) => Some((candidate, score@)),
                None => None,
            },
            patience: self.patience,
            stale: self.stale,
        }
    }
}

/// Whether a score beats the best so far, or is the first.
pub open spec fn improves<T>(state: RunningBestView<T>, score: u64) -> bool {
    match state.best {
        Some((_, best_score)) => real_lt(best_score, score),
        None => true,
    }
}

/// The state after one attempt.
pub open spec fn considered<T>(
    state: RunningBestView<T>,
    candidate: T,
    score: u64,
) -> RunningBestView<T> {
    if improves(state, score) {
        RunningBestView { best: Some((candidate, score)), stale: 0, ..state }
    } else {
        RunningBestView { stale: (state.stale + 1) as u32, ..state }
    }
}

impl<T> RunningBest<T> {
    /// Starts empty. `patience` is how many attempts in a row may fail to
    /// improve before the loop should stop.
    pub fn new(patience: u32) -> (r: Self)
        ensures
            r@ == (RunningBestView::<T> { best: None, patience, stale: 0 }),
    {
        RunningBest { best: None, patience, stale: 0 }
    }

    /// Considers one attempt. Keeps it as the new best if it strictly beats
    /// the current best, or if there is none. Returns whether it improved.
    pub fn consider(&mut self, candidate: T, score: Real) -> (r: bool)
        requires
            !improves(old(self)@, score@) ==> old(self)@.stale < u32::MAX,
        ensures
            r == improves(old(self)@, score@),
            final(self)@ == considered(old(self)@, candidate, score@),
    {
        let improved = match &self.best {
            Some((_, best_score)) => best_score.less_than(&score),
            None => true,
        };
        if improved {
            self.best = Some((candidate, score));
            self.stale = 0;
        } else {
            self.stale = self.stale + 1;
        }
        improved
    }

    /// How many attempts in a row have failed to improve.
    pub fn stale(&self) -> (r: u32)
        ensures
            r == self@.stale,
    {
        self.stale
    }

    /// Whether `patience` attempts in a row have failed to improve.
    pub fn should_stop(&self) -> (r: bool)
        ensures
            r == (self@.stale >= self@.patience),
    {
        self.stale >= self.patience
    }

    /// The best score seen so far, if any attempt was considered.
    pub fn best_score(&self) -> (r: Option<Real>)
        ensures
            option_view(r) == match self@.best {
                Some((_, score)) => Some(score),
                None => None,
            },
    {
        match &self.best {
            Some((_, score)) => Some(score.clone()),
            None => None,
        }
    }

    /// The best candidate so far, if any.
    pub fn best(&self) -> (r: Option<&T>)
        ensures
            match self@.best {
                Some((candidate, _)) => r == Some(&candidate),
                None => r is None,
            },
    {
        match &self.best {
            Some((candidate, _)) => Some(candidate),
            None => None,
        }
    }

    /// The best candidate, taken out, if any.
    pub fn into_best(self) -> (r: Option<T>)
        ensures
            r == match self@.best {
                Some((candidate, _)) => Some(candidate),
                None => None,
            },
    {
        match self.best {
            Some((candidate, _)) => Some(candidate),
            None => None,
        }
    }
}

/// The state after a sequence of attempts.
pub open spec fn considered_all<T>(
    state: RunningBestView<T>,
    attempts: Seq<(T, u64)>,
) -> RunningBestView<T>
    decreases attempts.len(),
{
    if attempts.len() == 0 {
        state
    } else {
        considered(
            considered_all(state, attempts.drop_last()),
            attempts.last().0,
            attempts.last().1,
        )
    }
}

/// After any number of attempts the best is one of them, none scored higher,
/// and there is one exactly where something was attempted. Scores that are
/// not numbers are left out: nothing beats them, and they beat nothing.
pub proof fn law_the_best_is_kept<T>(patience: u32, attempts: Seq<(T, u64)>)
    requires
        forall|i: int| 0 <= i < attempts.len() ==> !is_nan_bits((#[trigger] attempts[i]).1),
    ensures
        considered_all(RunningBestView { best: None, patience, stale: 0 }, attempts).best is Some
            == (attempts.len() > 0),
        considered_all(RunningBestView { best: None, patience, stale: 0 }, attempts).best
            matches Some(best) ==> attempts.contains(best) && forall|i: int|
            0 <= i < attempts.len() ==> real_le((#[trigger] attempts[i]).1, best.1),
    decreases attempts.len(),
{
    let start = RunningBestView::<T> { best: None, patience, stale: 0 };
    if attempts.len() > 0 {
        let front = attempts.drop_last();
        let last = attempts.len() - 1;
        law_the_best_is_kept(patience, front);
        let best = considered_all(start, attempts).best->0;
        assert forall|i: int| 0 <= i < attempts.len() implies real_le(
            (#[trigger] attempts[i]).1,
            best.1,
        ) by {
            if i < last {
                assert(front[i] == attempts[i]);
            }
        }
    }
}

/// One attempt either improves on the best and ends the run of failures, or
/// leaves the best alone and makes the run one longer.
pub proof fn law_patience_counts_failures_in_a_row<T>(
    state: RunningBestView<T>,
    candidate: T,
    score: u64,
)
    requires
        !improves(state, score) ==> state.stale < u32::MAX,
    ensures
        improves(state, score) ==> considered(state, candidate, score).stale == 0,
        !improves(state, score) ==> considered(state, candidate, score).stale == state.stale + 1
            && considered(state, candidate, score).best == state.best,
        considered(state, candidate, score).patience == state.patience,
{
}

/// The first attempt is an improvement, and after it every attempt that scores
/// strictly higher than the best, and no other: one that ties leaves the
/// earlier one in place.
pub proof fn law_only_a_higher_score_improves<T>(
    state: RunningBestView<T>,
    candidate: T,
    score: u64,
)
    ensures
        state.best is None ==> improves(state, score),
        state.best matches Some(best) ==> improves(state, score) == real_lt(best.1, score),
        improves(state, score) ==> considered(state, candidate, score).best == Some(
            (candidate, score),
        ),
        !improves(state, score) ==> considered(state, candidate, score).best == state.best,
{
}

/// Among attempts with the highest score the earliest is kept: every attempt
/// before the best scored lower.
pub proof fn law_the_earliest_best_is_kept<T>(patience: u32, attempts: Seq<(T, u64)>)
    requires
        attempts.len() > 0,
        forall|i: int| 0 <= i < attempts.len() ==> !is_nan_bits((#[trigger] attempts[i]).1),
    ensures
        exists|k: int|
            0 <= k < attempts.len() && considered_all(
                RunningBestView { best: None, patience, stale: 0 },
                attempts,
            ).best == Some(#[trigger] attempts[k]) && (forall|i: int|
                0 <= i < k ==> real_lt((#[trigger] attempts[i]).1, attempts[k].1)) && (forall|
                i: int,
            |
                k < i < attempts.len() ==> real_le((#[trigger] attempts[i]).1, attempts[k].1)),
    decreases attempts.len(),
{
    let start = RunningBestView::<T> { best: None, patience, stale: 0 };
    let front = attempts.drop_last();
    let n = attempts.len() - 1;
    assert forall|i: int| 0 <= i < front.len() implies !is_nan_bits((#[trigger] front[i]).1) by {
        assert(front[i] == attempts[i]);
    }
    if n == 0 {
        assert(considered_all(start, front).best is None);
        assert(considered_all(start, attempts).best == Some(attempts[0]));
    } else {
        law_the_earliest_best_is_kept(patience, front);
        let k = choose|k: int|
            0 <= k < front.len() && considered_all(start, front).best == Some(#[trigger] front[k])
                && (forall|i: int|
                0 <= i < k ==> real_lt((#[trigger] front[i]).1, front[k].1)) && (forall|i: int|
                k < i < front.len() ==> real_le((#[trigger] front[i]).1, front[k].1));
        assert(front[k] == attempts[k]);
        assert(!is_nan_bits(attempts[k].1) && !is_nan_bits(attempts[n].1));
        if real_lt(attempts[k].1, attempts[n].1) {
            assert(considered_all(start, attempts).best == Some(attempts[n]));
            assert forall|i: int| 0 <= i < n implies real_lt(
                (#[trigger] attempts[i]).1,
                attempts[n].1,
            ) by {
                assert(front[i] == attempts[i]);
            }
        } else {
            assert(considered_all(start, attempts).best == Some(attempts[k]));
            assert forall|i: int| 0 <= i < k implies real_lt(
                (#[trigger] attempts[i]).1,
                attempts[k].1,
            ) by {
                assert(front[i] == attempts[i]);
            }
            assert forall|i: int| k < i < attempts.len() implies real_le(
                (#[trigger] attempts[i]).1,
                attempts[k].1,
            ) by {
                if i < n {
                    assert(front[i] == attempts[i]);
                }
            }
        }
    }
}

} // verus!
