//! The `decide()` seam: one request, any number of named questions, one typed
//! outcome.
//!
//! A single question is a batch of one, so there is exactly one code path for
//! retrying, tracing and failing.
use crate::duration::Duration;
use crate::error::{Error, ErrorView};
use crate::json::{Json, JsonTree};
use crate::names::{
    duplicate_option, law_entry_is_read_back, lookup, option_view, with_entries, with_entry,
    NameMap,
};
use crate::number::real_le;
use crate::question::{
    answer_recorded_confidence, Answer, AnswerView, Question, QuestionView, Usage,
};
use crate::trace::{passes, record_of, Kind, Record, RecordView, Trace};
use vstd::prelude::*;

verus! {

/// An observation: arbitrary JSON describing the situation being decided
/// about.
pub type Observation = Json;

/// A decide-call request: one observation, one or more named questions.
#[derive(Debug, PartialEq)]
pub struct Request {
    /// The situation being decided about.
    pub observation: Observation,
    /// Question name -> question, asked in one call.
    pub questions: NameMap<Question>,
    /// The caller's own name for the call, kept in a decision log and never
    /// sent to an endpoint.
    pub correlation: Option<String>,
}

/// A [`Request`], with plain values for its parts.
pub struct RequestView {
    /// The situation.
    pub observation: JsonTree,
    /// The questions, in the order of their names.
    pub questions: Seq<(Seq<char>, QuestionView)>,
    /// The caller's name for the call.
    pub correlation: Option<Seq<char>>,
}

impl View for Request {
    type V = RequestView;

    open spec fn view(&self) -> RequestView {
        RequestView {
            observation: self.observation@,
            questions: self.questions@,
            correlation: option_view(self.correlation),
        }
    }
}

/// A request with one more question.
pub open spec fn request_with(
    request: RequestView,
    name: Seq<char>,
    question: QuestionView,
) -> RequestView {
    RequestView { questions: with_entry(request.questions, name, question), ..request }
}

/// A request without questions.
pub open spec fn request_about(observation: JsonTree) -> RequestView {
    RequestView { observation, questions: Seq::empty(), correlation: None }
}

/// Adding a question leaves every other one as it is: all of them are asked in
/// one call.
pub proof fn law_questions_are_batched(
    request: RequestView,
    name: Seq<char>,
    question: QuestionView,
    other: Seq<char>,
)
    ensures
        lookup(request_with(request, name, question).questions, name) == Some(question),
        other != name ==> lookup(request_with(request, name, question).questions, other) == lookup(
            request.questions,
            other,
        ),
        request_with(request, name, question).observation == request.observation,
{
    law_entry_is_read_back(request.questions, name, question, name);
    law_entry_is_read_back(request.questions, name, question, other);
}

impl Request {
    /// Starts a request with no questions yet.
    pub fn new(observation: Observation) -> (r: Self)
        ensures
            r@ == request_about(observation@),
    {
        Request { observation, questions: NameMap::new(), correlation: None }
    }

    /// A request carrying exactly one named question.
    pub fn single(observation: Observation, name: &str, question: Question) -> (r: Self)
        ensures
            r@ == request_with(request_about(observation@), name@, question@),
    {
        Request::new(observation).with(name, question)
    }

    /// Adds a named question, batching it into the same call as any others
    /// already added. A question of the same name is replaced.
    pub fn with(self, name: &str, question: Question) -> (r: Self)
        ensures
            r@ == request_with(self@, name@, question@),
    {
        let mut request = self;
        request.questions.insert(name.to_owned(), question);
        request
    }

    /// Names the call, for the caller's own records.
    pub fn correlated(self, correlation: &str) -> (r: Self)
        ensures
            r@ == (RequestView { correlation: Some(correlation@), ..self@ }),
    {
        let mut request = self;
        request.correlation = Some(correlation.to_owned());
        request
    }
}

impl Clone for Request {
    fn clone(&self) -> (r: Self)
        ensures
            r@ == self@,
    {
        Request {
            observation: self.observation.clone(),
            questions: self.questions.clone(),
            correlation: duplicate_option(&self.correlation),
        }
    }
}

/// A response plus the transport metadata worth keeping.
#[derive(Debug, PartialEq)]
pub struct Outcome {
    /// Question name -> answer.
    pub answers: NameMap<Answer>,
    /// Token accounting, when the endpoint reported it.
    pub usage: Option<Usage>,
    /// The backend model that actually answered, when the endpoint reports
    /// it.
    pub resolved_model: Option<String>,
    /// How long the accepted attempt took, when a real call was made. The
    /// time spent on attempts before it is not part of it.
    pub elapsed: Option<Duration>,
    /// How many attempts came before the accepted one, when a real call was
    /// made.
    pub retries: Option<u32>,
}

/// An [`Outcome`], with plain values for its parts.
pub struct OutcomeView {
    /// The answers, in the order of the questions' names.
    pub answers: Seq<(Seq<char>, AnswerView)>,
    /// Token accounting.
    pub usage: Option<Usage>,
    /// The model that answered.
    pub resolved_model: Option<Seq<char>>,
    /// How long the accepted attempt took, in nanoseconds.
    pub elapsed: Option<nat>,
    /// How many attempts came before it.
    pub retries: Option<u32>,
}

impl View for Outcome {
    type V = OutcomeView;

    open spec fn view(&self) -> OutcomeView {
        OutcomeView {
            answers: self.answers@,
            usage: self.usage,
            resolved_model: option_view(self.resolved_model),
            elapsed: option_view(self.elapsed),
            retries: self.retries,
        }
    }
}

/// The outcome with these answers, of a call that was not timed.
pub open spec fn outcome_of(
    answers: Seq<(Seq<char>, AnswerView)>,
    usage: Option<Usage>,
    resolved_model: Option<Seq<char>>,
) -> OutcomeView {
    OutcomeView { answers, usage, resolved_model, elapsed: None, retries: None }
}

/// Whether `records` are those of `answers`, one each and in their order,
/// whenever they were made.
pub open spec fn records_answers(
    records: Seq<RecordView>,
    answers: Seq<(Seq<char>, AnswerView)>,
) -> bool {
    records.len() == answers.len() && forall|i: int|
        0 <= i < records.len() ==> #[trigger] records[i] == record_of(
            answers[i].0,
            answers[i].1,
            records[i].timestamp_unix,
        )
}

/// Whether a trace took the records of some answers, in order, and nothing
/// else.
pub open spec fn traced(
    before: Seq<RecordView>,
    answers: Seq<(Seq<char>, AnswerView)>,
    after: Seq<RecordView>,
) -> bool {
    &&& after.len() >= before.len()
    &&& after.take(before.len() as int) == before
    &&& records_answers(after.skip(before.len() as int), answers)
}

impl Outcome {
    /// An outcome, of a call that was not timed.
    pub fn new(
        answers: NameMap<Answer>,
        usage: Option<Usage>,
        resolved_model: Option<String>,
    ) -> (r: Self)
        ensures
            r@ == outcome_of(answers@, usage, option_view(resolved_model)),
    {
        Outcome { answers, usage, resolved_model, elapsed: None, retries: None }
    }

    /// An outcome with these answers alone.
    pub fn answered(answers: Vec<(String, Answer)>) -> (r: Self)
        ensures
            r@ == outcome_of(
                with_entries(Seq::empty(), crate::names::pairs(answers@)),
                None,
                None,
            ),
    {
        let ghost listed = crate::names::pairs(answers@);
        let ghost start = answers@;
        let mut map: NameMap<Answer> = NameMap::new();
        for entry in it: answers
            invariant
                it.seq() == start,
                listed == crate::names::pairs(start),
                map@ == with_entries(Seq::empty(), listed.take(it.index() as int)),
        {
            proof {
                let next = listed.take(it.index() + 1);
                assert(next.drop_last() =~= listed.take(it.index() as int));
            }
            map.insert(entry.0, entry.1);
        }
        assert(listed.take(listed.len() as int) =~= listed);
        Outcome::new(map, None, None)
    }

    /// Says how long the accepted attempt took.
    pub fn with_elapsed(self, elapsed: Duration) -> (r: Self)
        ensures
            r@ == (OutcomeView { elapsed: Some(elapsed@), ..self@ }),
    {
        let mut outcome = self;
        outcome.elapsed = Some(elapsed);
        outcome
    }

    /// Says how many attempts came before the accepted one.
    pub fn with_retries(self, retries: u32) -> (r: Self)
        ensures
            r@ == (OutcomeView { retries: Some(retries), ..self@ }),
    {
        let mut outcome = self;
        outcome.retries = Some(retries);
        outcome
    }

    /// The answer to a named question; an error when the endpoint omitted
    /// it.
    pub fn answer(&self, name: &str) -> (r: Result<&Answer, Error>)
        ensures
            r is Ok == (lookup(self@.answers, name@) is Some),
            r matches Ok(answer) ==> lookup(self@.answers, name@) == Some(answer@),
            r matches Err(e) ==> e@ == ErrorView::MissingAnswer(name@),
    {
        match self.answers.get(name) {
            Some(answer) => Ok(answer),
            None => Err(Error::MissingAnswer(name.to_owned())),
        }
    }

    /// Every answer, keyed by question name.
    pub fn answers(&self) -> (r: &NameMap<Answer>)
        ensures
            r@ == self@.answers,
    {
        &self.answers
    }

    /// [`Outcome::answer`], additionally appending a record of it to `trace`.
    pub fn recorded_answer(&self, name: &str, trace: &mut Trace) -> (r: Result<&Answer, Error>)
        ensures
            r is Ok == (lookup(self@.answers, name@) is Some),
            r matches Ok(answer) ==> {
                &&& lookup(self@.answers, name@) == Some(answer@)
                &&& final(trace)@.len() == old(trace)@.len() + 1
                &&& final(trace)@.drop_last() == old(trace)@
                &&& final(trace)@.last() == record_of(
                    name@,
                    answer@,
                    final(trace)@.last().timestamp_unix,
                )
            },
            r matches Err(e) ==> {
                &&& e@ == ErrorView::MissingAnswer(name@)
                &&& final(trace)@ == old(trace)@
            },
    {
        let answer = match self.answer(name) {
            Ok(answer) => answer,
            Err(e) => {
                return Err(e);
            },
        };
        trace.push(Record::now(name, answer));
        Ok(answer)
    }

    /// Appends a record of every answer to `trace`, in the order of the
    /// questions' names.
    pub fn record_all(&self, trace: &mut Trace)
        ensures
            traced(old(trace)@, self@.answers, final(trace)@),
    {
        let ghost before = trace@;
        let ghost n = before.len() as int;
        let mut i: usize = 0;
        while i < self.answers.len()
            invariant
                i <= self.answers@.len(),
                n == before.len(),
                trace@.len() == n + i,
                trace@.take(n) == before,
                records_answers(trace@.skip(n), self.answers@.take(i as int)),
            decreases self.answers@.len() - i,
        {
            let ghost so_far = trace@;
            trace.push(Record::now(self.answers.name(i), self.answers.value(i)));
            proof {
                let records = trace@.skip(n);
                let answers = self.answers@.take(i + 1);
                assert forall|j: int| 0 <= j < records.len() implies #[trigger] records[j]
                    == record_of(answers[j].0, answers[j].1, records[j].timestamp_unix) by {
                    if j < i {
                        assert(records[j] == so_far.skip(n)[j]);
                    }
                }
            }
            i += 1;
        }
    }
}

impl Clone for Outcome {
    fn clone(&self) -> (r: Self)
        ensures
            r@ == self@,
    {
        Outcome {
            answers: self.answers.clone(),
            usage: self.usage,
            resolved_model: duplicate_option(&self.resolved_model),
            elapsed: self.elapsed,
            retries: self.retries,
        }
    }
}

/// A gate sees what was recorded and nothing else: after some answers are
/// recorded, a trace passes a bar exactly where the records before pass it, if
/// there are any, and every one of those answers reaches it.
pub proof fn law_gate_sees_only_what_was_recorded(
    before: Seq<RecordView>,
    answers: Seq<(Seq<char>, AnswerView)>,
    after: Seq<RecordView>,
    bar: u64,
)
    requires
        traced(before, answers, after),
    ensures
        passes(after, bar) == {
            &&& before.len() + answers.len() > 0
            &&& before.len() > 0 ==> passes(before, bar)
            &&& forall|i: int|
                0 <= i < answers.len() ==> real_le(
                    bar,
                    answer_recorded_confidence((#[trigger] answers[i]).1),
                )
        },
{
    let n = before.len() as int;
    let records = after.skip(n);
    assert forall|i: int| 0 <= i < n implies before[i] == after[i] by {}
    if passes(after, bar) {
        assert forall|i: int| 0 <= i < answers.len() implies real_le(
            bar,
            answer_recorded_confidence((#[trigger] answers[i]).1),
        ) by {
            assert(records[i] == after[n + i]);
        }
    } else if after.len() > 0 {
        let i = choose|i: int|
            0 <= i < after.len() && !real_le(bar, (#[trigger] after[i]).confidence);
        if i >= n {
            assert(records[i - n] == after[i]);
        }
    }
}

/// What a `decide()` call gives, with plain values for its parts.
pub type Decided = Result<OutcomeView, ErrorView>;

/// Anything that can answer a batch of bounded questions about one
/// observation.
///
/// The seam exists so a caller can be exercised with no credentials and no
/// network, and so a recorded exchange can be replayed byte for byte.
pub trait Client {
    /// Puts `request`'s questions to the decision endpoint in one call.
    fn decide(&mut self, request: &Request) -> Result<Outcome, Error>;
}

/// A request starts out with the observation and no question, and one more
/// question is asked beside all others: no name is asked that was not given,
/// and the call's name is the caller's alone.
pub proof fn law_only_what_was_given_is_asked(
    observation: JsonTree,
    request: RequestView,
    name: Seq<char>,
    question: QuestionView,
    asked: Seq<char>,
)
    ensures
        request_about(observation).observation == observation,
        request_about(observation).questions.len() == 0,
        request_about(observation).correlation is None,
        lookup(request_with(request, name, question).questions, asked) is Some == (asked == name
            || lookup(request.questions, asked) is Some),
        request_with(request, name, question).correlation == request.correlation,
{
    law_entry_is_read_back(request.questions, name, question, asked);
}

/// An outcome that was not timed holds what was reported, and neither a time
/// nor a number of retries.
pub proof fn law_untimed_outcome_holds_what_was_reported(
    answers: Seq<(Seq<char>, AnswerView)>,
    usage: Option<Usage>,
    resolved_model: Option<Seq<char>>,
)
    ensures
        ({
            let outcome = outcome_of(answers, usage, resolved_model);
            &&& outcome.answers == answers
            &&& outcome.usage == usage
            &&& outcome.resolved_model == resolved_model
            &&& outcome.elapsed is None
            &&& outcome.retries is None
        }),
{
}

/// Recording some answers appends one record for each, in their order, with
/// the name of its question, its kind and the confidence that it carries, and
/// keeps the records from before.
pub proof fn law_every_answer_is_recorded_once(
    before: Seq<RecordView>,
    answers: Seq<(Seq<char>, AnswerView)>,
    after: Seq<RecordView>,
    i: int,
)
    requires
        traced(before, answers, after),
    ensures
        after.len() == before.len() + answers.len(),
        0 <= i < before.len() ==> after[i] == before[i],
        0 <= i < answers.len() ==> {
            let record = after[before.len() + i];
            &&& record.key == answers[i].0
            &&& answers[i].1 matches AnswerView::Choice { choice, confidence, .. } ==> record.kind
                == Kind::Choice && record.chosen == choice && record.confidence == confidence
            &&& answers[i].1 matches AnswerView::Score { confidence, .. } ==> record.kind
                == Kind::Score && record.confidence == confidence.unwrap_or(0)
            &&& answers[i].1 matches AnswerView::Noul { noul } ==> record.kind == Kind::Noul
                && record.confidence == noul
        },
{
    if 0 <= i < before.len() {
        assert(after.take(before.len() as int)[i] == after[i]);
    }
    if 0 <= i < answers.len() {
        let new = after.skip(before.len() as int);
        assert(new[i] == after[before.len() + i]);
    }
}

} // verus!
