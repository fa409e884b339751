//! Speculative branch pre-fetch: every follow-up asked alongside its root,
//! keeping only the branch that matches.
//!
//! A root choice and one follow-up question per possible root answer are asked
//! in one call. Once the root resolves, the matching branch's answer is
//! already there. The answers of the other branches were never acted on, so
//! they never reach the trace: a low-confidence answer to a branch nobody used
//! must not be able to fail its gate.
use crate::client::{
    law_every_answer_is_recorded_once, request_about, request_with, traced, Client, Decided,
    Observation, Outcome, OutcomeView, Request, RequestView,
};
use crate::error::{Error, ErrorView};
use crate::json::JsonTree;
use crate::names::{
    ascending, duplicate_option, find_entry, law_entries_are_read_back, law_entry_is_read_back,
    law_entry_keeps_order, law_first_entry_with_a_name_is_found, lemma_found_entry, lookup,
    option_view, result_view, with_entries, with_entry, NameMap,
};
use crate::question::{answer_confidence, Answer, AnswerView, Question, QuestionView};
use crate::text::lemma_text_order_total;
use crate::trace::{Kind, Record, RecordView, Trace};
use vstd::prelude::*;

verus! {

/// A root choice plus one follow-up question per possible root answer.
#[derive(Debug)]
pub struct Speculation {
    root_name: String,
    root: Question,
    branches: NameMap<Question>,
}

/// A [`Speculation`], with plain values for its parts.
pub struct SpeculationView {
    /// The name of the root question.
    pub root_name: Seq<char>,
    /// The root question.
    pub root: QuestionView,
    /// The follow-up questions, by the root answer that keeps them.
    pub branches: Seq<(Seq<char>, QuestionView)>,
}

impl View for Speculation {
    type V = SpeculationView;

    closed spec fn view(&self) -> SpeculationView {
        SpeculationView {
            root_name: self.root_name@,
            root: self.root@,
            branches: self.branches@,
        }
    }
}

impl Speculation {
    /// Starts a speculation from a root question. It must be a choice, which
    /// [`decide_speculative`] checks before it spends a call.
    pub fn new(root_name: &str, root: Question) -> (r: Self)
        ensures
            r@ == (SpeculationView { root_name: root_name@, root: root@, branches: Seq::empty() }),
    {
        Speculation { root_name: root_name.to_owned(), root, branches: NameMap::new() }
    }

    /// Registers a follow-up question, asked in the same call as the root and
    /// kept only if the root resolves to `root_answer_key`.
    pub fn branch(self, root_answer_key: &str, question: Question) -> (r: Self)
        ensures
            r@ == (SpeculationView {
                branches: with_entry(self@.branches, root_answer_key@, question@),
                ..self@
            }),
    {
        let mut speculation = self;
        speculation.branches.insert(root_answer_key.to_owned(), question);
        speculation
    }
}

impl Clone for Speculation {
    fn clone(&self) -> (r: Self)
        ensures
            r@ == self@,
    {
        Speculation {
            root_name: self.root_name.clone(),
            root: self.root.clone(),
            branches: self.branches.clone(),
        }
    }
}

/// The root answer plus the one branch answer it resolved to.
#[derive(Debug, PartialEq)]
pub struct Resolved {
    /// The root question's answer.
    pub root: Answer,
    /// The answer of the branch registered under the root's resolved key;
    /// `None` where no branch is.
    pub branch: Option<Answer>,
}

/// A [`Resolved`], with plain values for its parts.
pub struct ResolvedView {
    /// The root question's answer.
    pub root: AnswerView,
    /// The answer of the branch that was kept.
    pub branch: Option<AnswerView>,
}

impl View for Resolved {
    type V = ResolvedView;

    open spec fn view(&self) -> ResolvedView {
        ResolvedView { root: self.root@, branch: option_view(self.branch) }
    }
}

impl Clone for Resolved {
    fn clone(&self) -> (r: Self)
        ensures
            r@ == self@,
    {
        Resolved { root: self.root.clone(), branch: duplicate_option(&self.branch) }
    }
}

/// The request that puts the root and every branch together.
pub open spec fn speculative_request(
    observation: JsonTree,
    speculation: SpeculationView,
) -> RequestView {
    let root = request_with(
        request_about(observation),
        speculation.root_name,
        speculation.root,
    );
    RequestView { questions: with_entries(root.questions, speculation.branches), ..root }
}

/// The answer of the branch registered under a key.
pub open spec fn kept_branch(
    outcome: OutcomeView,
    branches: Seq<(Seq<char>, QuestionView)>,
    key: Seq<char>,
) -> Option<AnswerView> {
    if lookup(branches, key) is Some {
        lookup(outcome.answers, key)
    } else {
        None
    }
}

/// The root and the branch that an outcome resolves to, or why it resolves to
/// none.
pub open spec fn resolution(
    outcome: OutcomeView,
    root_name: Seq<char>,
    branches: Seq<(Seq<char>, QuestionView)>,
) -> Result<ResolvedView, ErrorView> {
    match lookup(outcome.answers, root_name) {
        None => Err(ErrorView::MissingAnswer(root_name)),
        Some(root) => match root {
            AnswerView::Choice { choice, .. } => Ok(
                ResolvedView { root, branch: kept_branch(outcome, branches, choice) },
            ),
            _ => Err(ErrorView::WrongAnswerKind { question: root_name, expected: "choice"@ }),
        },
    }
}

/// The answers on the path that was resolved: the root, and the branch where
/// there is one.
pub open spec fn path(
    root_name: Seq<char>,
    resolved: Result<ResolvedView, ErrorView>,
) -> Seq<(Seq<char>, AnswerView)> {
    match resolved {
        Ok(ResolvedView { root, branch: Some(branch) }) => seq![
            (root_name, root),
            (root->Choice_choice, branch),
        ],
        Ok(ResolvedView { root, branch: None }) => seq![(root_name, root)],
        Err(_) => Seq::empty(),
    }
}

/// What a speculative call gives, by what the client gave.
pub open spec fn speculated(decided: Decided, speculation: SpeculationView) -> Result<
    ResolvedView,
    ErrorView,
> {
    match decided {
        Ok(outcome) => resolution(outcome, speculation.root_name, speculation.branches),
        Err(e) => Err(e),
    }
}

/// A trace takes only records of the root and of the branch under the key it
/// resolved to, at most one of each: no discarded branch reaches it.
pub proof fn law_discarded_branches_stay_out_of_the_trace(
    before: Seq<RecordView>,
    after: Seq<RecordView>,
    outcome: OutcomeView,
    speculation: SpeculationView,
    i: int,
)
    requires
        traced(
            before,
            path(
                speculation.root_name,
                resolution(outcome, speculation.root_name, speculation.branches),
            ),
            after,
        ),
        before.len() <= i < after.len(),
    ensures
        after.len() <= before.len() + 2,
        resolution(outcome, speculation.root_name, speculation.branches) is Ok,
        i == before.len() ==> after[i].key == speculation.root_name,
        i > before.len() ==> after[i].key == resolution(
            outcome,
            speculation.root_name,
            speculation.branches,
        )->Ok_0.root->Choice_choice,
{
    assert(after.skip(before.len() as int)[i - before.len()] == after[i]);
}

fn resolve(
    outcome: &Outcome,
    root_name: &str,
    branches: &NameMap<Question>,
    trace: &mut Trace,
) -> (r: Result<Resolved, Error>)
    ensures
        result_view(r) == resolution(outcome@, root_name@, branches@),
        traced(old(trace)@, path(root_name@, result_view(r)), final(trace)@),
{
    let ghost before = trace@;
    let ghost n = before.len() as int;
    assert(before.take(n) =~= before);
    let root = match outcome.answer(root_name) {
        Ok(root) => root,
        Err(e) => {
            return Err(e);
        },
    };
    let key = match root.choice() {
        Some(key) => key,
        None => {
            return Err(
                Error::WrongAnswerKind { question: root_name.to_owned(), expected: "choice" },
            );
        },
    };
    trace.push(Record::now(root_name, root));
    let ghost middle = trace@;
    assert(middle.take(n) =~= before);
    let branch = match branches.get(key) {
        Some(_) => match outcome.answer(key) {
            Ok(answer) => Some(answer.clone()),
            Err(_) => None,
        },
        None => None,
    };
    if let Some(branch) = &branch {
        trace.push(Record::now(key, branch));
        assert(trace@.take(n) =~= before);
    }
    Ok(Resolved { root: root.clone(), branch })
}

/// Asks the root and every branch together, resolves to the one branch
/// matching the root's actual answer, and records only that path.
///
/// A root that is no choice is refused before any call is made.
pub fn decide_speculative<C: Client>(
    client: &mut C,
    observation: Observation,
    speculation: Speculation,
    trace: &mut Trace,
) -> (r: Result<Resolved, Error>)
    ensures
        !(speculation@.root is Choice) ==> {
            &&& result_view(r) == Err::<ResolvedView, ErrorView>(
                ErrorView::WrongAnswerKind {
                    question: speculation@.root_name,
                    expected: "choice"@,
                },
            )
            &&& *final(client) == *old(client)
            &&& final(trace)@ == old(trace)@
        },
        speculation@.root is Choice ==> exists|
            call: &mut C,
            asked: &Request,
            given: Result<Outcome, Error>,
        |
            {
                &&& #[trigger] call_ensures(C::decide, (call, asked), given)
                &&& *call == *old(client)
                &&& *final(call) == *final(client)
                &&& asked@ == speculative_request(observation@, speculation@)
                &&& result_view(r) == speculated(result_view(given), speculation@)
                &&& traced(
                    old(trace)@,
                    path(speculation@.root_name, result_view(r)),
                    final(trace)@,
                )
            },
{
    let ghost before = trace@;
    let is_choice = match &speculation.root {
        Question::Choice { .. } => true,
        _ => false,
    };
    if !is_choice {
        return Err(
            Error::WrongAnswerKind { question: speculation.root_name, expected: "choice" },
        );
    }
    let mut request = Request::new(observation).with(
        speculation.root_name.as_str(),
        speculation.root.clone(),
    );
    let ghost root_request = request@;
    let ghost branches = speculation.branches@;
    let mut i: usize = 0;
    while i < speculation.branches.len()
        invariant
            i <= speculation.branches@.len(),
            branches == speculation.branches@,
            request@ == (RequestView {
                questions: with_entries(root_request.questions, branches.take(i as int)),
                ..root_request
            }),
        decreases speculation.branches@.len() - i,
    {
        proof {
            let next = branches.take(i + 1);
            assert(next.drop_last() =~= branches.take(i as int));
        }
        request = request.with(speculation.branches.name(i), speculation.branches.value(i).clone());
        i += 1;
    }
    assert(branches.take(i as int) =~= branches);
    let reply = client.decide(&request);
    match reply {
        Ok(outcome) => resolve(
            &outcome,
            speculation.root_name.as_str(),
            &speculation.branches,
            trace,
        ),
        Err(e) => {
            assert(trace@.take(before.len() as int) =~= before);
            Err(e)
        },
    }
}

/// One call asks the root and every follow-up: each branch is asked under its
/// key, the root under its name unless a branch has that name, nothing else is
/// asked, and the observation is what all of it is about.
pub proof fn law_every_branch_is_asked_with_its_root(
    observation: JsonTree,
    speculation: SpeculationView,
    name: Seq<char>,
)
    ensures
        ({
            let asked = speculative_request(observation, speculation);
            &&& asked.observation == observation
            &&& asked.correlation is None
            &&& forall|i: int|
                0 <= i < speculation.branches.len() && (#[trigger] speculation.branches[i]).0
                    == name && (forall|j: int|
                    i < j < speculation.branches.len() ==> (#[trigger] speculation.branches[j]).0
                        != name) ==> lookup(asked.questions, name) == Some(
                    speculation.branches[i].1,
                )
            &&& (forall|i: int|
                0 <= i < speculation.branches.len() ==> (#[trigger] speculation.branches[i]).0
                    != name) ==> lookup(asked.questions, name) == if name
                == speculation.root_name {
                Some(speculation.root)
            } else {
                None
            }
        }),
{
    let root = request_with(request_about(observation), speculation.root_name, speculation.root);
    law_entries_are_read_back(root.questions, speculation.branches, name);
    law_entry_is_read_back(
        request_about(observation).questions,
        speculation.root_name,
        speculation.root,
        name,
    );
}

/// A follow-up is asked from the moment it is registered, whatever is
/// registered after it under other keys; registering it leaves every other
/// question of the call as it was.
pub proof fn law_registered_branch_is_asked(
    observation: JsonTree,
    speculation: SpeculationView,
    key: Seq<char>,
    question: QuestionView,
    other: Seq<char>,
)
    requires
        ascending(speculation.branches),
    ensures
        ({
            let more = SpeculationView {
                branches: with_entry(speculation.branches, key, question),
                ..speculation
            };
            let asked = speculative_request(observation, more).questions;
            &&& lookup(asked, key) == Some(question)
            &&& other != key ==> lookup(asked, other) == lookup(
                speculative_request(observation, speculation).questions,
                other,
            )
        }),
{
    let branches = with_entry(speculation.branches, key, question);
    let more = SpeculationView { branches, ..speculation };
    law_entry_keeps_order(speculation.branches, key, question);
    lemma_asked(observation, speculation, other);
    lemma_asked(observation, more, other);
    lemma_asked(observation, more, key);
    law_entry_is_read_back(speculation.branches, key, question, key);
    law_entry_is_read_back(speculation.branches, key, question, other);
}

proof fn lemma_asked(observation: JsonTree, speculation: SpeculationView, name: Seq<char>)
    requires
        ascending(speculation.branches),
    ensures
        lookup(speculative_request(observation, speculation).questions, name) == match lookup(
            speculation.branches,
            name,
        ) {
            Some(question) => Some(question),
            None => if name == speculation.root_name {
                Some(speculation.root)
            } else {
                None
            },
        },
{
    let branches = speculation.branches;
    law_every_branch_is_asked_with_its_root(observation, speculation, name);
    lemma_found_entry(branches, name);
    let i = find_entry(branches, name);
    if i < branches.len() {
        assert forall|j: int| i < j < branches.len() implies (#[trigger] branches[j]).0 != name by {
            lemma_text_order_total(branches[i].0, branches[j].0);
        }
    }
}

/// The root's answer decides what is kept: the answer under the key that it
/// chose, where a branch is registered under that key and was answered, and
/// nothing else. An outcome without an answer to the root, or with one that is
/// no choice, resolves to nothing.
pub proof fn law_the_matching_branch_is_kept(
    outcome: OutcomeView,
    speculation: SpeculationView,
    choice: Seq<char>,
    probabilities: Seq<(Seq<char>, u64)>,
    confidence: u64,
)
    ensures
        ({
            let resolved = speculated(Ok(outcome), speculation);
            let chosen = AnswerView::Choice { choice, probabilities, confidence };
            let registered = exists|i: int|
                0 <= i < speculation.branches.len() && (#[trigger] speculation.branches[i]).0
                    == choice;
            &&& lookup(outcome.answers, speculation.root_name) == Some(chosen) ==> {
                &&& resolved is Ok
                &&& resolved->Ok_0.root == chosen
                &&& registered ==> resolved->Ok_0.branch == lookup(outcome.answers, choice)
                &&& !registered ==> resolved->Ok_0.branch is None
            }
            &&& lookup(outcome.answers, speculation.root_name) is None ==> resolved == Err::<
                ResolvedView,
                ErrorView,
            >(ErrorView::MissingAnswer(speculation.root_name))
            &&& lookup(outcome.answers, speculation.root_name) matches Some(answer) ==> !(answer
                is Choice) ==> resolved == Err::<ResolvedView, ErrorView>(
                ErrorView::WrongAnswerKind {
                    question: speculation.root_name,
                    expected: "choice"@,
                },
            )
        }),
{
    law_first_entry_with_a_name_is_found(speculation.branches, choice);
}

/// A client's failure is handed on as it is.
pub proof fn law_failed_speculation_hands_the_error_on(
    error: ErrorView,
    speculation: SpeculationView,
)
    ensures
        speculated(Err(error), speculation) == Err::<ResolvedView, ErrorView>(error),
        path(speculation.root_name, speculated(Err(error), speculation)).len() == 0,
{
}

/// What was resolved is recorded, and all of it: the root under its name, then
/// the kept branch under the key that the root chose, each with the answer's
/// own confidence.
pub proof fn law_resolved_path_is_recorded(
    before: Seq<RecordView>,
    after: Seq<RecordView>,
    root_name: Seq<char>,
    root: AnswerView,
    branch: Option<AnswerView>,
)
    requires
        root is Choice,
        traced(before, path(root_name, Ok(ResolvedView { root, branch })), after),
    ensures
        after.len() == before.len() + 1 + if branch is Some {
            1int
        } else {
            0
        },
        forall|i: int| 0 <= i < before.len() ==> after[i] == #[trigger] before[i],
        after[before.len() as int].key == root_name,
        after[before.len() as int].kind == Kind::Choice,
        after[before.len() as int].chosen == root->Choice_choice,
        after[before.len() as int].confidence == root->Choice_confidence,
        branch matches Some(answer) ==> {
            let record = after[before.len() as int + 1];
            &&& record.key == root->Choice_choice
            &&& answer_confidence(answer) matches Some(c) ==> record.confidence == c
            &&& answer matches AnswerView::Noul { noul } ==> record.confidence == noul
        },
{
    let answers = path(root_name, Ok(ResolvedView { root, branch }));
    law_every_answer_is_recorded_once(before, answers, after, 0);
    law_every_answer_is_recorded_once(before, answers, after, 1);
    assert forall|i: int| 0 <= i < before.len() implies after[i] == #[trigger] before[i] by {
        law_every_answer_is_recorded_once(before, answers, after, i);
    }
}

} // verus!
