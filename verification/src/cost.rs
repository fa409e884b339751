//! A running total of usage and latency across a run's decision calls.
//!
//! It reports the raw facts: tokens, calls and time. What a token costs is
//! the caller's to know.
use crate::client::{Outcome, OutcomeView};
use crate::duration::{Duration, MAX_NANOS};
use crate::names::option_view;
use crate::question::Usage;
use vstd::prelude::*;

verus! {

/// Accumulated usage and latency across every outcome fed to it.
///
/// The time is that of the accepted attempts alone; retries are totaled
/// beside it and never lengthen it.
#[derive(Clone, Copy, Debug, PartialEq)]
pub struct Ledger {
    /// How many calls contributed to this total.
    pub calls: u32,
    /// How many of those calls reported a time. "Unknown" and "instant" are
    /// different claims.
    pub timed_calls: u32,
    /// Summed token usage, across every call that reported any.
    pub usage: Usage,
    /// Summed time of every accepted attempt, across every call that reported
    /// one.
    pub elapsed: Duration,
    /// Summed retries across every call that reported a count.
    pub retries: u32,
}

/// A [`Ledger`], with plain values for its parts.
pub struct LedgerView {
    /// Calls.
    pub calls: nat,
    /// Calls that reported a time.
    pub timed_calls: nat,
    /// Tokens in.
    pub input_tokens: nat,
    /// Tokens out.
    pub output_tokens: nat,
    /// Nanoseconds.
    pub elapsed: nat,
    /// Retries.
    pub retries: nat,
}

impl View for Ledger {
    type V = LedgerView;

    open spec fn view(&self) -> LedgerView {
        LedgerView {
            calls: self.calls as nat,
            timed_calls: self.timed_calls as nat,
            input_tokens: self.usage.input_tokens as nat,
            output_tokens: self.usage.output_tokens as nat,
            elapsed: self.elapsed@,
            retries: self.retries as nat,
        }
    }
}

/// A ledger without calls.
pub open spec fn blank_ledger() -> LedgerView {
    LedgerView {
        calls: 0,
        timed_calls: 0,
        input_tokens: 0,
        output_tokens: 0,
        elapsed: 0,
        retries: 0,
    }
}

/// A ledger with one more call: each total grows by what the call reported.
pub open spec fn recorded(ledger: LedgerView, outcome: OutcomeView) -> LedgerView {
    LedgerView {
        calls: ledger.calls + 1,
        timed_calls: if outcome.elapsed is Some {
            ledger.timed_calls + 1
        } else {
            ledger.timed_calls
        },
        input_tokens: match outcome.usage {
            Some(usage) => ledger.input_tokens + usage.input_tokens as nat,
            None => ledger.input_tokens,
        },
        output_tokens: match outcome.usage {
            Some(usage) => ledger.output_tokens + usage.output_tokens as nat,
            None => ledger.output_tokens,
        },
        elapsed: match outcome.elapsed {
            Some(elapsed) => ledger.elapsed + elapsed,
            None => ledger.elapsed,
        },
        retries: match outcome.retries {
            Some(retries) => ledger.retries + retries as nat,
            None => ledger.retries,
        },
    }
}

/// A ledger with each call of a sequence, one after the other.
pub open spec fn recorded_all(ledger: LedgerView, outcomes: Seq<OutcomeView>) -> LedgerView
    decreases outcomes.len(),
{
    if outcomes.len() == 0 {
        ledger
    } else {
        recorded(recorded_all(ledger, outcomes.drop_last()), outcomes.last())
    }
}

/// Whether the totals are within what a ledger can count.
pub open spec fn countable(ledger: LedgerView) -> bool {
    &&& ledger.calls <= u32::MAX
    &&& ledger.timed_calls <= u32::MAX
    &&& ledger.input_tokens <= u64::MAX
    &&& ledger.output_tokens <= u64::MAX
    &&& ledger.elapsed <= MAX_NANOS
    &&& ledger.retries <= u32::MAX
}

/// The mean time of the calls that reported one, rounded down to the
/// nanosecond; `None` where none did.
pub open spec fn mean_of(ledger: LedgerView) -> Option<nat> {
    if ledger.timed_calls == 0 {
        None
    } else {
        Some(ledger.elapsed / ledger.timed_calls)
    }
}

impl Ledger {
    /// An empty ledger.
    pub fn new() -> (r: Self)
        ensures
            r@ == blank_ledger(),
    {
        Ledger {
            calls: 0,
            timed_calls: 0,
            usage: Usage { input_tokens: 0, output_tokens: 0 },
            elapsed: Duration::zero(),
            retries: 0,
        }
    }

    /// Folds one outcome into the running total.
    pub fn record(&mut self, outcome: &Outcome)
        requires
            countable(recorded(old(self)@, outcome@)),
        ensures
            final(self)@ == recorded(old(self)@, outcome@),
    {
        self.calls = self.calls + 1;
        if let Some(usage) = &outcome.usage {
            self.usage.accumulate(usage);
        }
        if let Some(elapsed) = &outcome.elapsed {
            self.timed_calls = self.timed_calls + 1;
            self.elapsed = self.elapsed.plus(elapsed);
        }
        if let Some(retries) = outcome.retries {
            self.retries = self.retries + retries;
        }
    }

    /// Mean time per timed call, excluding retry backoff. `None` if no call
    /// has reported a time yet.
    pub fn mean_elapsed(&self) -> (r: Option<Duration>)
        ensures
            option_view(r) == mean_of(self@),
    {
        if self.timed_calls == 0 {
            None
        } else {
            Some(self.elapsed.divided_by(self.timed_calls))
        }
    }
}

impl Default for Ledger {
    fn default() -> (r: Self)
        ensures
            r@ == blank_ledger(),
    {
        Ledger::new()
    }
}

/// How many outcomes report a time.
pub open spec fn timed(outcomes: Seq<OutcomeView>) -> nat
    decreases outcomes.len(),
{
    if outcomes.len() == 0 {
        0
    } else if outcomes.last().elapsed is Some {
        timed(outcomes.drop_last()) + 1
    } else {
        timed(outcomes.drop_last())
    }
}

/// The mean is unknown exactly until a call reports a time: every call is
/// counted, and only the timed ones are averaged over.
pub proof fn law_mean_is_unknown_until_a_call_is_timed(outcomes: Seq<OutcomeView>)
    ensures
        recorded_all(blank_ledger(), outcomes).calls == outcomes.len(),
        recorded_all(blank_ledger(), outcomes).timed_calls == timed(outcomes),
        mean_of(recorded_all(blank_ledger(), outcomes)) is None == (timed(outcomes) == 0),
    decreases outcomes.len(),
{
    if outcomes.len() > 0 {
        law_mean_is_unknown_until_a_call_is_timed(outcomes.drop_last());
    }
}

/// Retries never lengthen the time: two outcomes that differ in their retries
/// alone leave the same time and the same mean.
pub proof fn law_retries_are_not_folded_into_elapsed(
    ledger: LedgerView,
    outcome: OutcomeView,
    retries: Option<u32>,
)
    ensures
        recorded(ledger, outcome).elapsed == recorded(
            ledger,
            OutcomeView { retries, ..outcome },
        ).elapsed,
        mean_of(recorded(ledger, outcome)) == mean_of(
            recorded(ledger, OutcomeView { retries, ..outcome }),
        ),
{
}

/// A ledger starts at nothing, and one more call adds to each total what the
/// call reported, and nothing where it reported nothing.
pub proof fn law_each_total_grows_by_what_was_reported(ledger: LedgerView, outcome: OutcomeView)
    ensures
        ({
            let blank = blank_ledger();
            &&& blank.calls == 0 && blank.timed_calls == 0 && blank.input_tokens == 0
            &&& blank.output_tokens == 0 && blank.elapsed == 0 && blank.retries == 0
        }),
        ({
            let more = recorded(ledger, outcome);
            &&& more.calls == ledger.calls + 1
            &&& outcome.elapsed matches Some(elapsed) ==> more.timed_calls == ledger.timed_calls + 1
                && more.elapsed == ledger.elapsed + elapsed
            &&& outcome.elapsed is None ==> more.timed_calls == ledger.timed_calls && more.elapsed
                == ledger.elapsed
            &&& outcome.usage matches Some(usage) ==> more.input_tokens == ledger.input_tokens
                + usage.input_tokens && more.output_tokens == ledger.output_tokens
                + usage.output_tokens
            &&& outcome.usage is None ==> more.input_tokens == ledger.input_tokens
                && more.output_tokens == ledger.output_tokens
            &&& outcome.retries matches Some(retries) ==> more.retries == ledger.retries + retries
            &&& outcome.retries is None ==> more.retries == ledger.retries
        }),
{
}

/// The mean is the whole time in equal parts, one for each timed call, as far as
/// whole nanoseconds go.
pub proof fn law_mean_times_the_timed_calls_is_the_time(ledger: LedgerView)
    requires
        ledger.timed_calls > 0,
    ensures
        mean_of(ledger) matches Some(mean) && mean * ledger.timed_calls <= ledger.elapsed < (mean
            + 1) * ledger.timed_calls,
{
    let mean = ledger.elapsed / ledger.timed_calls;
    vstd::arithmetic::div_mod::lemma_fundamental_div_mod(
        ledger.elapsed as int,
        ledger.timed_calls as int,
    );
    let n = ledger.timed_calls;
    assert(n * mean == mean * n) by (nonlinear_arith);
    assert((mean + 1) * n == mean * n + n) by (nonlinear_arith);
}

/// A ledger can count calls, timed calls and retries in 32 bits, tokens in 64,
/// and as much time as the longest span.
pub proof fn law_what_a_ledger_can_count(ledger: LedgerView)
    ensures
        countable(ledger) <==> {
            &&& ledger.calls <= 0xffff_ffff
            &&& ledger.timed_calls <= 0xffff_ffff
            &&& ledger.retries <= 0xffff_ffff
            &&& ledger.input_tokens <= 0xffff_ffff_ffff_ffff
            &&& ledger.output_tokens <= 0xffff_ffff_ffff_ffff
            &&& ledger.elapsed < 18_446_744_073_709_551_616 * 1_000_000_000
        },
{
}

} // verus!
