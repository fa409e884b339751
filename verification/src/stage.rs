//! Dependent decision chains: a later request built from an earlier outcome.
//!
//! Batching covers independent questions. This is the other half: a chain
//! where what a stage asks depends on how the one before it was answered.
//! Each stage costs a real call, in exchange for asking only the questions
//! that turn out to matter.
use crate::client::{traced, Client, Decided, Outcome, OutcomeView, Request, RequestView};
use crate::error::{Error, ErrorView};
use crate::names::result_view;
use crate::question::AnswerView;
use crate::trace::{RecordView, Trace};
use vstd::prelude::*;

verus! {

/// A continuation that asks for more than this many stages is refused: a bug
/// in it would otherwise turn into an unbounded sequence of real, billed
/// decision calls.
pub const MAX_STAGES: u32 = 16;

/// The views of a sequence of outcomes.
pub open spec fn outcome_views(outcomes: Seq<Outcome>) -> Seq<OutcomeView> {
    outcomes.map_values(|o: Outcome| o@)
}

/// How a chain went.
pub struct Stages<C> {
    /// The client before each stage that was put to it, and after the last.
    pub clients: Seq<C>,
    /// The requests of the stages.
    pub requests: Seq<RequestView>,
    /// The outcomes of the stages that were answered.
    pub outcomes: Seq<OutcomeView>,
}

/// Whether the continuation built a stage's request from the outcome before
/// it.
pub open spec fn continued<C, F: FnMut(&Outcome) -> Option<Request>>(
    run: Stages<C>,
    next: F,
    i: int,
) -> bool {
    exists|outcome: &Outcome, request: Request|
        #[trigger] call_ensures(next, (outcome,), Some(request)) && outcome@ == run.outcomes[i - 1]
            && request@ == run.requests[i]
}

/// Whether the continuation ended the chain at an outcome.
pub open spec fn stopped<F: FnMut(&Outcome) -> Option<Request>>(
    next: F,
    last: OutcomeView,
) -> bool {
    exists|outcome: &Outcome| #[trigger]
        call_ensures(next, (outcome,), None::<Request>) && outcome@ == last
}

/// Whether every stage but the first was built by the continuation.
pub open spec fn chained<C, F: FnMut(&Outcome) -> Option<Request>>(
    run: Stages<C>,
    next: F,
) -> bool {
    &&& run.outcomes.len() <= MAX_STAGES
    &&& run.requests.len() >= 1
    &&& run.clients.len() >= 1
    &&& forall|i: int| 0 < i < run.requests.len() ==> #[trigger] continued(run, next, i)
}

/// How a chain ends: with all outcomes where the continuation stopped it,
/// with the limit on stages where it asked for one more, or with an error of
/// the client.
pub open spec fn ends<C, F: FnMut(&Outcome) -> Option<Request>>(
    run: Stages<C>,
    next: F,
    result: Result<Vec<Outcome>, Error>,
) -> bool {
    match result {
        Ok(outcomes) => {
            &&& outcome_views(outcomes@) == run.outcomes
            &&& run.outcomes.len() >= 1
            &&& run.requests.len() == run.outcomes.len()
            &&& run.clients.len() == run.outcomes.len() + 1
            &&& stopped(next, run.outcomes.last())
        },
        Err(e) => {
            &&& run.requests.len() == run.outcomes.len() + 1
            &&& if run.outcomes.len() == MAX_STAGES {
                &&& run.clients.len() == run.outcomes.len() + 1
                &&& e@ == ErrorView::TooManyStages(MAX_STAGES)
            } else {
                run.clients.len() == run.outcomes.len() + 2
            }
        },
    }
}

/// What a stage gave: its outcome, or the error that ended the chain.
pub open spec fn stage_result<C>(
    run: Stages<C>,
    result: Result<Vec<Outcome>, Error>,
    i: int,
) -> Decided {
    if i < run.outcomes.len() {
        Ok(run.outcomes[i])
    } else {
        Err(result->Err_0@)
    }
}

/// The answers of a sequence of outcomes, one outcome after the other.
pub open spec fn all_answers(outcomes: Seq<OutcomeView>) -> Seq<(Seq<char>, AnswerView)>
    decreases outcomes.len(),
{
    if outcomes.len() == 0 {
        Seq::empty()
    } else {
        all_answers(outcomes.drop_last()) + outcomes.last().answers
    }
}

proof fn lemma_traced_one_more(
    before: Seq<RecordView>,
    outcomes: Seq<OutcomeView>,
    middle: Seq<RecordView>,
    outcome: OutcomeView,
    after: Seq<RecordView>,
)
    requires
        traced(before, all_answers(outcomes), middle),
        traced(middle, outcome.answers, after),
    ensures
        traced(before, all_answers(outcomes.push(outcome)), after),
{
    let n = before.len() as int;
    let m = middle.len() as int;
    assert(after.take(n) =~= middle.take(n));
    let records = after.skip(n);
    assert(outcomes.push(outcome).drop_last() =~= outcomes);
    let answers = all_answers(outcomes.push(outcome));
    assert forall|i: int| 0 <= i < records.len() implies #[trigger] records[i]
        == crate::trace::record_of(answers[i].0, answers[i].1, records[i].timestamp_unix) by {
        if i < m - n {
            assert(records[i] == middle.skip(n)[i]);
        } else {
            assert(records[i] == after.skip(m)[i - (m - n)]);
        }
    }
}

/// Asks a chain of dependent requests.
///
/// `first` is asked, then `next` inspects its outcome and either builds the
/// next stage's request or ends the chain. Every stage's full answer set is
/// appended to `trace` in order, also where a later stage fails. Returns every
/// stage's outcome, in order.
pub fn decide_staged<C: Client, F: FnMut(&Outcome) -> Option<Request>>(
    client: &mut C,
    first: Request,
    trace: &mut Trace,
    next: F,
) -> (r: Result<Vec<Outcome>, Error>)
    requires
        forall|outcome: &Outcome| call_requires(next, (outcome,)),
    ensures
        exists|run: Stages<C>|
            {
                &&& #[trigger] chained(run, next)
                &&& run.requests[0] == first@
                &&& ends(run, next, r)
                &&& traced(old(trace)@, all_answers(run.outcomes), final(trace)@)
                &&& run.clients[0] == *old(client)
                &&& run.clients.last() == *final(client)
                &&& forall|i: int|
                    0 <= i < run.clients.len() - 1 ==> exists|
                        call: &mut C,
                        asked: &Request,
                        given: Result<Outcome, Error>,
                    |
                        {
                            &&& #[trigger] call_ensures(C::decide, (call, asked), given)
                            &&& *call == (#[trigger] run.clients[i])
                            &&& *final(call) == run.clients[i + 1]
                            &&& asked@ == run.requests[i]
                            &&& result_view(given) == stage_result(run, r, i)
                        }
            },
{
    let ghost before = trace@;
    let mut ask = next;
    let mut outcomes: Vec<Outcome> = Vec::new();
    let mut request = first;
    let ghost mut run: Stages<C> = Stages {
        clients: seq![*client],
        requests: seq![first@],
        outcomes: Seq::empty(),
    };
    assert(trace@.take(before.len() as int) =~= before);
    loop
        invariant
            ask == next,
            forall|outcome: &Outcome| call_requires(next, (outcome,)),
            chained(run, next),
            run.clients.len() == run.outcomes.len() + 1,
            run.requests.len() == run.outcomes.len() + 1,
            run.requests[0] == first@,
            run.requests.last() == request@,
            run.outcomes == outcome_views(outcomes@),
            traced(before, all_answers(run.outcomes), trace@),
            before == old(trace)@,
            run.clients[0] == *old(client),
            run.clients.last() == *client,
            forall|i: int|
                0 <= i < run.outcomes.len() ==> exists|
                    call: &mut C,
                    asked: &Request,
                    given: Result<Outcome, Error>,
                |
                    {
                        &&& #[trigger] call_ensures(C::decide, (call, asked), given)
                        &&& *call == (#[trigger] run.clients[i])
                        &&& *final(call) == run.clients[i + 1]
                        &&& asked@ == run.requests[i]
                        &&& result_view(given) == Ok::<OutcomeView, ErrorView>(run.outcomes[i])
                    },
        decreases MAX_STAGES - outcomes@.len(),
    {
        if outcomes.len() as u32 >= MAX_STAGES {
            return Err(Error::TooManyStages(MAX_STAGES));
        }
        let ghost put = run;
        let reply = client.decide(&request);
        proof {
            run = Stages { clients: run.clients.push(*client), ..run };
            assert forall|i: int| 0 < i < run.requests.len() implies #[trigger] continued(
                run,
                next,
                i,
            ) by {
                assert(continued(put, next, i));
            }
        }
        let outcome = match reply {
            Ok(outcome) => outcome,
            Err(e) => {
                assert(chained(run, next));
                return Err(e);
            },
        };
        let ghost middle = trace@;
        outcome.record_all(trace);
        proof {
            lemma_traced_one_more(before, run.outcomes, middle, outcome@, trace@);
        }
        let continuation = ask(&outcome);
        proof {
            run = Stages { outcomes: run.outcomes.push(outcome@), ..run };
            assert forall|i: int| 0 < i < run.requests.len() implies #[trigger] continued(
                run,
                next,
                i,
            ) by {
                assert(continued(put, next, i));
            }
        }
        outcomes.push(outcome);
        assert(run.outcomes =~= outcome_views(outcomes@));
        match continuation {
            Some(next_request) => {
                let ghost so_far = run;
                proof {
                    run = Stages { requests: run.requests.push(next_request@), ..run };
                    assert forall|i: int| 0 < i < run.requests.len() implies #[trigger] continued(
                        run,
                        next,
                        i,
                    ) by {
                        if i < so_far.requests.len() {
                            assert(continued(so_far, next, i));
                        }
                    }
                }
                request = next_request;
            },
            None => {
                assert(chained(run, next));
                return Ok(outcomes);
            },
        }
    }
}

/// A chain that is done gives the outcome of every stage, in order, and was
/// stopped by the continuation at the last one; every stage but the first was
/// built from the outcome just before it. It never has more than sixteen
/// stages: a continuation that asks for one more ends the chain with an error.
pub proof fn law_each_stage_is_built_from_the_one_before<
    C,
    F: FnMut(&Outcome) -> Option<Request>,
>(run: Stages<C>, next: F, result: Result<Vec<Outcome>, Error>, stage: int)
    requires
        chained(run, next),
        ends(run, next, result),
    ensures
        run.outcomes.len() <= 16,
        0 < stage < run.requests.len() ==> exists|outcome: &Outcome, request: Request|
            #[trigger] call_ensures(next, (outcome,), Some(request)) && outcome@
                == run.outcomes[stage - 1] && request@ == run.requests[stage],
        result matches Ok(outcomes) ==> {
            &&& outcomes@.len() == run.outcomes.len()
            &&& forall|i: int|
                0 <= i < outcomes@.len() ==> (#[trigger] outcomes@[i])@ == run.outcomes[i]
            &&& run.requests.len() == outcomes@.len() >= 1
            &&& exists|outcome: &Outcome| #[trigger]
                call_ensures(next, (outcome,), None::<Request>) && outcome@ == run.outcomes.last()
        },
        result matches Err(e) ==> {
            &&& run.requests.len() == run.outcomes.len() + 1
            &&& run.outcomes.len() == 16 ==> e@ == ErrorView::TooManyStages(16)
            &&& run.outcomes.len() < 16 ==> run.clients.len() == run.outcomes.len() + 2
        },
        forall|i: int|
            0 <= i < run.outcomes.len() ==> stage_result(run, result, i) == Ok::<
                OutcomeView,
                ErrorView,
            >(#[trigger] run.outcomes[i]),
        result matches Err(e) ==> stage_result(run, result, run.outcomes.len() as int) == Err::<
            OutcomeView,
            ErrorView,
        >(e@),
{
    if 0 < stage < run.requests.len() {
        assert(continued(run, next, stage));
    }
    if let Ok(outcomes) = result {
        assert forall|i: int| 0 <= i < outcomes@.len() implies (#[trigger] outcomes@[i])@
            == run.outcomes[i] by {
            assert(outcome_views(outcomes@)[i] == outcomes@[i]@);
        }
    }
}

/// The answers of all stages are recorded stage by stage: those of a stage
/// stand together, in their order, right behind those of the stages before it.
pub proof fn law_answers_are_taken_stage_by_stage(outcomes: Seq<OutcomeView>, i: int, j: int)
    requires
        0 <= i < outcomes.len(),
        0 <= j < outcomes[i].answers.len(),
    ensures
        ({
            let earlier = all_answers(outcomes.take(i)).len();
            &&& earlier + j < all_answers(outcomes).len()
            &&& all_answers(outcomes)[earlier + j] == outcomes[i].answers[j]
            &&& all_answers(outcomes.take(i + 1)).len() == earlier + outcomes[i].answers.len()
            &&& all_answers(outcomes.take(0)).len() == 0
            &&& all_answers(outcomes.take(outcomes.len() as int)) == all_answers(outcomes)
        }),
    decreases outcomes.len(),
{
    let front = outcomes.drop_last();
    assert(outcomes.take(outcomes.len() as int) =~= outcomes);
    assert(outcomes.take(i + 1).drop_last() =~= outcomes.take(i));
    assert(outcomes.take(i + 1).last() == outcomes[i]);
    if i < front.len() {
        assert(front.take(i) =~= outcomes.take(i));
        law_answers_are_taken_stage_by_stage(front, i, j);
    } else {
        assert(front =~= outcomes.take(i));
    }
}

} // verus!
