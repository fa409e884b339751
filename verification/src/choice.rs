//! Scoping a decision to a plain Rust enum.
//!
//! [`ChoiceSpace`] is a closed Rust type from which both a choice's option
//! set and the reading of its answer come, so they cannot drift apart.
use crate::client::{
    request_about, request_with, Client, Decided, Observation, Outcome, OutcomeView, Request,
    RequestView,
};
use crate::error::{Error, ErrorView};
use crate::json::JsonTree;
use crate::names::{law_entry_is_read_back, lookup, result_view, NameMap};
use crate::number::Real;
use crate::question::{
    answer_recorded_confidence, answer_value, Answer, AnswerView, Criteria, Question, QuestionView,
};
use crate::trace::{record_of, RecordView, Trace};
use vstd::prelude::*;

verus! {

/// A closed, named set of options a choice can resolve to.
pub trait ChoiceSpace: Sized {
    /// Every option this type can resolve to, key -> description, in
    /// declaration order.
    fn options() -> Criteria;

    /// Reads a wire key back into a variant; `None` for a key outside the
    /// declared set.
    fn from_key(key: &str) -> Option<Self>;
}

/// A typed decision with its confidence.
#[derive(Clone, Debug, PartialEq)]
pub struct Decision<T> {
    /// The resolved variant.
    pub answer: T,
    /// How much to trust it, in `0.0..=1.0`.
    pub confidence: Real,
    /// Posterior over the offered option keys.
    pub probabilities: NameMap<Real>,
}

/// The request that puts one choice.
pub open spec fn choice_request(
    observation: JsonTree,
    name: Seq<char>,
    instructions: Seq<char>,
    options: Seq<(Seq<char>, Seq<char>)>,
) -> RequestView {
    request_with(
        request_about(observation),
        name,
        QuestionView::Choice { instructions, criteria: options },
    )
}

/// What an answered choice gives, by what its key was read as.
pub open spec fn resolves<T>(
    name: Seq<char>,
    choice: Seq<char>,
    probabilities: Seq<(Seq<char>, u64)>,
    confidence: u64,
    found: Option<T>,
    result: Result<Decision<T>, Error>,
) -> bool {
    match found {
        Some(answer) => {
            &&& result is Ok
            &&& result->Ok_0.answer == answer
            &&& result->Ok_0.confidence@ == confidence
            &&& result->Ok_0.probabilities@ == probabilities
        },
        None => {
            &&& result is Err
            &&& result->Err_0@ == (ErrorView::UnknownChoice { question: name, chosen: choice })
        },
    }
}

/// What a decision call gives a caller who asked one choice.
pub open spec fn follows<T: ChoiceSpace>(
    decided: Decided,
    name: Seq<char>,
    result: Result<Decision<T>, Error>,
) -> bool {
    match decided {
        Err(e) => result is Err && result->Err_0@ == e,
        Ok(outcome) => match lookup(outcome.answers, name) {
            None => result is Err && result->Err_0@ == ErrorView::MissingAnswer(name),
            Some(AnswerView::Choice { choice, probabilities, confidence }) => exists|
                key: &str,
                found: Option<T>,
            |
                key@ == choice && #[trigger] call_ensures(T::from_key, (key,), found) && resolves(
                    name,
                    choice,
                    probabilities,
                    confidence,
                    found,
                    result,
                ),
            Some(_) => result is Err && result->Err_0@ == (ErrorView::WrongAnswerKind {
                question: name,
                expected: "choice"@,
            }),
        },
    }
}

/// Whether a trace was left as it was, or took one record of the answer where
/// there is one.
pub open spec fn traces(
    decided: Decided,
    name: Seq<char>,
    before: Seq<RecordView>,
    after: Seq<RecordView>,
) -> bool {
    match decided {
        Ok(outcome) => match lookup(outcome.answers, name) {
            Some(answer) => {
                &&& after.len() == before.len() + 1
                &&& after.drop_last() == before
                &&& after.last() == record_of(name, answer, after.last().timestamp_unix)
            },
            None => after == before,
        },
        Err(_) => after == before,
    }
}

/// The decision that an answered choice gives, by what its key was read as.
pub fn resolved<T>(
    name: &str,
    choice: &str,
    probabilities: &NameMap<Real>,
    confidence: &Real,
    found: Option<T>,
) -> (r: Result<Decision<T>, Error>)
    ensures
        resolves(name@, choice@, probabilities@, confidence@, found, r),
{
    match found {
        Some(answer) => Ok(
            Decision {
                answer,
                confidence: confidence.clone(),
                probabilities: probabilities.clone(),
            },
        ),
        None => Err(
            Error::UnknownChoice { question: name.to_owned(), chosen: choice.to_owned() },
        ),
    }
}

/// The decision that an outcome holds under a name.
pub fn decision_from_outcome<T: ChoiceSpace>(outcome: &Outcome, name: &str) -> (r: Result<
    Decision<T>,
    Error,
>)
    ensures
        follows(Ok(outcome@), name@, r),
{
    let answer = match outcome.answer(name) {
        Ok(answer) => answer,
        Err(e) => {
            return Err(e);
        },
    };
    match answer {
        Answer::Choice { choice, probabilities, confidence } => {
            let key = choice.as_str();
            let found = T::from_key(key);
            let ghost seen = found;
            let r = resolved(name, key, probabilities, confidence, found);
            assert(call_ensures(T::from_key, (key,), seen));
            r
        },
        _ => Err(Error::WrongAnswerKind { question: name.to_owned(), expected: "choice" }),
    }
}

/// A decide call with a single question whose options are those of `T`.
///
/// The client's error is handed on; an answer outside the option set of `T` is
/// an error of its own.
pub fn decide_choice<T: ChoiceSpace, C: Client>(
    client: &mut C,
    observation: Observation,
    name: &str,
    instructions: &str,
) -> (r: Result<Decision<T>, Error>)
    ensures
        exists|
            call: &mut C,
            asked: &Request,
            given: Result<Outcome, Error>,
            options: Criteria,
        |
            {
                &&& #[trigger] call_ensures(C::decide, (call, asked), given)
                &&& *call == *old(client)
                &&& *final(call) == *final(client)
                &&& #[trigger] call_ensures(T::options, (), options)
                &&& asked@ == choice_request(observation@, name@, instructions@, options@)
                &&& follows(result_view(given), name@, r)
            },
{
    let options = T::options();
    let ghost offered = options;
    let request = Request::single(observation, name, Question::choice(instructions, options));
    let reply = client.decide(&request);
    let ghost given = reply;
    assert(call_ensures(T::options, (), offered));
    assert(exists|call: &mut C|
        #[trigger] call_ensures(C::decide, (call, &request), given) && *call == *old(client)
            && *final(call) == *client);
    let r = match reply {
        Ok(outcome) => decision_from_outcome(&outcome, name),
        Err(e) => Err(e),
    };
    r
}

/// [`decide_choice`], additionally appending a record of the answer to
/// `trace`.
pub fn decide_choice_traced<T: ChoiceSpace, C: Client>(
    client: &mut C,
    observation: Observation,
    name: &str,
    instructions: &str,
    trace: &mut Trace,
) -> (r: Result<Decision<T>, Error>)
    ensures
        exists|
            call: &mut C,
            asked: &Request,
            given: Result<Outcome, Error>,
            options: Criteria,
        |
            {
                &&& #[trigger] call_ensures(C::decide, (call, asked), given)
                &&& *call == *old(client)
                &&& *final(call) == *final(client)
                &&& #[trigger] call_ensures(T::options, (), options)
                &&& asked@ == choice_request(observation@, name@, instructions@, options@)
                &&& follows(result_view(given), name@, r)
                &&& traces(result_view(given), name@, old(trace)@, final(trace)@)
            },
{
    let options = T::options();
    let ghost offered = options;
    let request = Request::single(observation, name, Question::choice(instructions, options));
    let reply = client.decide(&request);
    let ghost given = reply;
    assert(call_ensures(T::options, (), offered));
    assert(exists|call: &mut C|
        #[trigger] call_ensures(C::decide, (call, &request), given) && *call == *old(client)
            && *final(call) == *client);
    let r = match reply {
        Ok(outcome) => match outcome.recorded_answer(name, trace) {
            Ok(_) => decision_from_outcome(&outcome, name),
            Err(e) => Err(e),
        },
        Err(e) => Err(e),
    };
    r
}

/// Whether two results are the same decision, or the same error.
pub open spec fn same_result<T>(
    a: Result<Decision<T>, Error>,
    b: Result<Decision<T>, Error>,
) -> bool {
    match (a, b) {
        (Ok(x), Ok(y)) => {
            &&& x.answer == y.answer
            &&& x.confidence@ == y.confidence@
            &&& x.probabilities@ == y.probabilities@
        },
        (Err(e), Err(f)) => e@ == f@,
        _ => false,
    }
}

/// Whether the options and the keys of a choice are read alike every time.
pub open spec fn reads_alike<T: ChoiceSpace>() -> bool {
    &&& forall|a: Criteria, b: Criteria|
        #[trigger] call_ensures(T::options, (), a) && #[trigger] call_ensures(T::options, (), b)
            ==> a@ == b@
    &&& forall|a: &str, b: &str, x: Option<T>, y: Option<T>|
        #[trigger] call_ensures(T::from_key, (a,), x) && #[trigger] call_ensures(
            T::from_key,
            (b,),
            y,
        ) && a@ == b@ ==> x == y
}

/// [`decide_choice_traced`] is [`decide_choice`] and a record: with options and
/// keys that are read alike, both put the same request, and where the client
/// gives the same for it both give the same result. The trace is left as it was
/// where the client failed or omitted the answer; else it takes one record of
/// the answer and keeps the earlier ones.
pub proof fn law_traced_choice_is_the_plain_one_recorded<T: ChoiceSpace>(
    observation: JsonTree,
    name: Seq<char>,
    instructions: Seq<char>,
    plain_options: Criteria,
    traced_options: Criteria,
    plain_given: Decided,
    traced_given: Decided,
    plain: Result<Decision<T>, Error>,
    traced: Result<Decision<T>, Error>,
    before: Seq<RecordView>,
    after: Seq<RecordView>,
)
    requires
        reads_alike::<T>(),
        call_ensures(T::options, (), plain_options),
        call_ensures(T::options, (), traced_options),
        choice_request(observation, name, instructions, plain_options@) == choice_request(
            observation,
            name,
            instructions,
            traced_options@,
        ) ==> plain_given == traced_given,
        follows(plain_given, name, plain),
        follows(traced_given, name, traced),
        traces(traced_given, name, before, after),
    ensures
        choice_request(observation, name, instructions, plain_options@) == choice_request(
            observation,
            name,
            instructions,
            traced_options@,
        ),
        same_result(plain, traced),
        traced_given is Err ==> after == before,
        traced_given matches Ok(outcome) ==> match lookup(outcome.answers, name) {
            None => after == before,
            Some(answer) => {
                &&& after == before.push(after.last())
                &&& after.last().key == name
                &&& after.last().chosen == answer_value(answer)
                &&& after.last().confidence == answer_recorded_confidence(answer)
            },
        },
{
    if let Ok(outcome) = traced_given {
        if let Some(answer) = lookup(outcome.answers, name) {
            assert(after =~= after.drop_last().push(after.last()));
        }
    }
}

/// One choice is asked, alone: under its name, with the instructions and all the
/// options, about the observation.
pub proof fn law_choice_is_asked_alone(
    observation: JsonTree,
    name: Seq<char>,
    instructions: Seq<char>,
    options: Seq<(Seq<char>, Seq<char>)>,
    asked: Seq<char>,
)
    ensures
        ({
            let request = choice_request(observation, name, instructions, options);
            &&& request.observation == observation
            &&& request.correlation is None
            &&& lookup(request.questions, asked) == if asked == name {
                Some(QuestionView::Choice { instructions, criteria: options })
            } else {
                None
            }
            &&& request.questions.len() == 1
        }),
{
    let question = QuestionView::Choice { instructions, criteria: options };
    law_entry_is_read_back(request_about(observation).questions, name, question, asked);
}

/// A decision is the variant that the answered key is read as, with the
/// answer's own confidence and posterior; a key that is read as none is an
/// error that names it.
pub proof fn law_decision_is_the_answered_variant<T: ChoiceSpace>(
    outcome: OutcomeView,
    name: Seq<char>,
    choice: Seq<char>,
    probabilities: Seq<(Seq<char>, u64)>,
    confidence: u64,
    key: &str,
    found: Option<T>,
    result: Result<Decision<T>, Error>,
)
    requires
        reads_alike::<T>(),
        lookup(outcome.answers, name) == Some(
            AnswerView::Choice { choice, probabilities, confidence },
        ),
        key@ == choice,
        call_ensures(T::from_key, (key,), found),
        follows(Ok(outcome), name, result),
    ensures
        found matches Some(variant) ==> {
            &&& result matches Ok(decision)
            &&& decision.answer == variant
            &&& decision.confidence@ == confidence
            &&& decision.probabilities@ == probabilities
        },
        found is None ==> {
            &&& result matches Err(e)
            &&& e@ == (ErrorView::UnknownChoice { question: name, chosen: choice })
        },
{
}

/// A call that failed, an outcome without the answer and an answer of another
/// kind are errors of their own.
pub proof fn law_no_decision_without_a_choice<T: ChoiceSpace>(
    given: Decided,
    name: Seq<char>,
    result: Result<Decision<T>, Error>,
)
    requires
        follows(given, name, result),
    ensures
        given matches Err(e) ==> (result matches Err(f) && f@ == e),
        given matches Ok(outcome) ==> {
            &&& lookup(outcome.answers, name) is None ==> (result matches Err(e) && e@
                == ErrorView::MissingAnswer(name))
            &&& lookup(outcome.answers, name) matches Some(answer) ==> !(answer is Choice) ==> (
            result matches Err(e) && e@ == (ErrorView::WrongAnswerKind {
                question: name,
                expected: "choice"@,
            }))
        },
{
}

} // verus!
