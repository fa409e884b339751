//! Durable local capture of every decide call, for fine-tuning later.
//!
//! One combined record per call, a request paired with its outcome or error,
//! appended to a log that rolls over when it is full. What a record holds and
//! what a failure to write one means are decided here; writing is the
//! caller's.
use crate::client::{Decided, Outcome, OutcomeView, Request, RequestView};
use crate::error::{error_text, Error, ErrorView};
use crate::http::{questions_object, questions_tree};
use crate::json::{self, entry_trees, json_text, object, real_tree, Json, JsonTree, Object};
use crate::names::{
    ascending, duplicate_option, lemma_entry_at_end, lemma_find_entry, lookup, option_view, pairs,
    result_view, with_entries, NameMap,
};
use crate::number::{is_finite_bits, NumberKind, Real};
use crate::question::{
    answer_of, member_reals, question_tree, reals_of, Answer, AnswerView, Usage,
};
use crate::shape::{
    absent_fault, field_count, field_name, field_type, find_field, lemma_field_found,
    lemma_members_fit, lemma_reals_fit, members_fault, value_fault, Shape,
};
use crate::text::{self, hex_text, text_before};
use vstd::prelude::*;

verus! {

broadcast use vstd::string::group_string_axioms;

/// Cap for one capture log before it rolls over. One previous generation is
/// kept, so a run's captured history costs at most twice this.
pub const MAX_CAPTURE_LOG_BYTES: u64 = 64 * 1024 * 1024;

/// One captured call, as written to the log.
#[derive(Debug)]
pub struct CapturedDecision {
    /// The shape of the record.
    pub schema_version: u32,
    /// Distinguishes one process lifetime's decisions from another's in a log
    /// they share.
    pub run_id: String,
    /// Counts the records of one [`Capture`], from zero.
    pub sequence: u64,
    /// Unix milliseconds when the record was made.
    pub at_unix_ms: u128,
    /// The caller's own name for this call, when it supplied one: the join key
    /// between a decision and its consequence. It is never sent to any
    /// endpoint.
    pub correlation: Option<String>,
    /// The request sent, as JSON.
    pub request: Json,
    /// The outcome received, as JSON, when the call succeeded. Exactly one of
    /// `outcome` and `error` is present.
    pub outcome: Option<Json>,
    /// The call's error, when it failed.
    pub error: Option<String>,
    /// Caller-supplied context, constant for the life of a [`Capture`].
    pub labels: NameMap<String>,
}

/// A [`CapturedDecision`], with plain values for its parts.
pub struct CapturedView {
    /// The shape of the record.
    pub schema_version: u32,
    /// The run.
    pub run_id: Seq<char>,
    /// The record's number in the run.
    pub sequence: u64,
    /// Unix milliseconds.
    pub at_unix_ms: u128,
    /// The caller's name for the call.
    pub correlation: Option<Seq<char>>,
    /// The request.
    pub request: JsonTree,
    /// The outcome.
    pub outcome: Option<JsonTree>,
    /// The error.
    pub error: Option<Seq<char>>,
    /// The caller's context.
    pub labels: Seq<(Seq<char>, Seq<char>)>,
}

impl View for CapturedDecision {
    type V = CapturedView;

    open spec fn view(&self) -> CapturedView {
        CapturedView {
            schema_version: self.schema_version,
            run_id: self.run_id@,
            sequence: self.sequence,
            at_unix_ms: self.at_unix_ms,
            correlation: option_view(self.correlation),
            request: self.request@,
            outcome: option_view(self.outcome),
            error: option_view(self.error),
            labels: self.labels@,
        }
    }
}

impl Clone for CapturedDecision {
    fn clone(&self) -> (r: Self)
        ensures
            r@ == self@,
    {
        CapturedDecision {
            schema_version: self.schema_version,
            run_id: self.run_id.clone(),
            sequence: self.sequence,
            at_unix_ms: self.at_unix_ms,
            correlation: duplicate_option(&self.correlation),
            request: self.request.clone(),
            outcome: duplicate_option(&self.outcome),
            error: duplicate_option(&self.error),
            labels: self.labels.clone(),
        }
    }
}

/// A request as a record holds it.
pub open spec fn request_tree(request: RequestView) -> JsonTree {
    JsonTree::Object(
        seq![
            ("observation"@, request.observation),
            ("questions"@, questions_tree(request.questions)),
        ],
    )
}

/// A map from names to doubles as a record holds it.
pub open spec fn reals_tree(reals: Seq<(Seq<char>, u64)>) -> JsonTree {
    JsonTree::Object(reals.map_values(|e: (Seq<char>, u64)| (e.0, real_tree(e.1))))
}

/// An answer as a record holds it: the form in which an endpoint gives it.
pub open spec fn answer_tree(answer: AnswerView) -> JsonTree {
    match answer {
        AnswerView::Choice { choice, probabilities, confidence } => JsonTree::Object(
            seq![
                ("type"@, JsonTree::String("choice"@)),
                ("choice"@, JsonTree::String(choice)),
                ("probabilities"@, reals_tree(probabilities)),
                ("confidence"@, real_tree(confidence)),
            ],
        ),
        AnswerView::Score { score, probabilities, confidence } => JsonTree::Object(
            seq![
                ("type"@, JsonTree::String("score"@)),
                ("score"@, score),
                ("probabilities"@, reals_tree(probabilities)),
                (
                    "confidence"@,
                    match confidence {
                        Some(bits) => real_tree(bits),
                        None => JsonTree::Null,
                    },
                ),
            ],
        ),
        AnswerView::Noul { noul } => JsonTree::Object(
            seq![
                ("type"@, JsonTree::String("boolean"@)),
                ("probability"@, real_tree(noul)),
            ],
        ),
    }
}

/// Answers as a record holds them, by name.
pub open spec fn answers_tree(answers: Seq<(Seq<char>, AnswerView)>) -> JsonTree {
    JsonTree::Object(answers.map_values(|a: (Seq<char>, AnswerView)| (a.0, answer_tree(a.1))))
}

/// Token accounting as a record holds it.
pub open spec fn usage_tree(usage: Option<Usage>) -> JsonTree {
    match usage {
        Some(usage) => JsonTree::Object(
            seq![
                ("input_tokens"@, JsonTree::Number(NumberKind::PosInt(usage.input_tokens))),
                ("output_tokens"@, JsonTree::Number(NumberKind::PosInt(usage.output_tokens))),
            ],
        ),
        None => JsonTree::Null,
    }
}

/// A number that may be absent, as a record holds it.
pub open spec fn count_tree(count: Option<u64>) -> JsonTree {
    match count {
        Some(n) => JsonTree::Number(NumberKind::PosInt(n)),
        None => JsonTree::Null,
    }
}

/// The milliseconds of an outcome's time.
pub open spec fn elapsed_millis(outcome: OutcomeView) -> Option<nat> {
    match outcome.elapsed {
        Some(nanos) => Some(nanos / 1_000_000),
        None => None,
    }
}

/// Whether a number of milliseconds fits a JSON integer.
pub open spec fn millis_fit(outcome: OutcomeView) -> bool {
    elapsed_millis(outcome) matches Some(millis) ==> millis <= u64::MAX
}

/// An outcome as a record holds it.
pub open spec fn outcome_tree(outcome: OutcomeView) -> JsonTree {
    JsonTree::Object(
        seq![
            ("answers"@, answers_tree(outcome.answers)),
            ("usage"@, usage_tree(outcome.usage)),
            (
                "resolved_model"@,
                match outcome.resolved_model {
                    Some(model) => JsonTree::String(model),
                    None => JsonTree::Null,
                },
            ),
            (
                "elapsed_ms"@,
                count_tree(
                    match elapsed_millis(outcome) {
                        Some(millis) => Some(millis as u64),
                        None => None,
                    },
                ),
            ),
            (
                "retries"@,
                count_tree(
                    match outcome.retries {
                        Some(n) => Some(n as u64),
                        None => None,
                    },
                ),
            ),
        ],
    )
}

fn reals_object(reals: &NameMap<Real>) -> (r: Json)
    ensures
        r@ == reals_tree(reals@),
{
    broadcast use Json::lemma_tree;

    let ghost all = reals@.map_values(|e: (Seq<char>, u64)| (e.0, real_tree(e.1)));
    let mut out = Object::new();
    let mut i: usize = 0;
    while i < reals.len()
        invariant
            i <= reals@.len(),
            all == reals@.map_values(|e: (Seq<char>, u64)| (e.0, real_tree(e.1))),
            out@ == all.take(i as int),
        decreases reals@.len() - i,
    {
        proof {
            lemma_new_name(reals@, i as int);
        }
        out.put_new(reals.name(i), Json::of_real(reals.value(i)));
        i += 1;
    }
    assert(all.take(i as int) =~= all);
    Json::Object(out)
}

proof fn lemma_new_name<T>(s: Seq<(Seq<char>, T)>, i: int)
    requires
        ascending(s),
        0 <= i < s.len(),
    ensures
        forall|j: int| 0 <= j < i ==> (#[trigger] s[j]).0 != s[i].0,
{
    assert forall|j: int| 0 <= j < i implies (#[trigger] s[j]).0 != s[i].0 by {
        text::lemma_text_order_total(s[j].0, s[i].0);
    }
}

proof fn lemma_answer_keys()
    ensures
        "type"@.len() == 4,
        "choice"@.len() == 6,
        "score"@.len() == 5,
        "boolean"@.len() == 7,
        "probabilities"@.len() == 13,
        "confidence"@.len() == 10,
        "probability"@.len() == 11,
{
    reveal_strlit("type");
    reveal_strlit("choice");
    reveal_strlit("score");
    reveal_strlit("boolean");
    reveal_strlit("probabilities");
    reveal_strlit("confidence");
    reveal_strlit("probability");
}

impl Answer {
    /// The answer in the form in which an endpoint gives it.
    pub fn wire(&self) -> (r: Json)
        ensures
            r@ == answer_tree(self@),
    {
        broadcast use Json::lemma_tree;

        proof {
            lemma_answer_keys();
        }
        let entries = match self {
            Answer::Choice { choice, probabilities, confidence } => vec![
                ("type", Json::text("choice")),
                ("choice", Json::text(choice.as_str())),
                ("probabilities", reals_object(probabilities)),
                ("confidence", Json::of_real(confidence)),
            ],
            Answer::Score { score, probabilities, confidence } => vec![
                ("type", Json::text("score")),
                ("score", score.clone()),
                ("probabilities", reals_object(probabilities)),
                (
                    "confidence",
                    match confidence {
                        Some(x) => Json::of_real(x),
                        None => Json::Null,
                    },
                ),
            ],
            Answer::Noul { noul } => vec![
                ("type", Json::text("boolean")),
                ("probability", Json::of_real(noul)),
            ],
        };
        assert(entry_trees(entries@) =~= answer_tree(self@)->Object_0);
        object(entries)
    }
}

fn answers_object(answers: &NameMap<Answer>) -> (r: Json)
    ensures
        r@ == answers_tree(answers@),
{
    broadcast use Json::lemma_tree;

    let ghost all = answers@.map_values(|a: (Seq<char>, AnswerView)| (a.0, answer_tree(a.1)));
    let mut out = Object::new();
    let mut i: usize = 0;
    while i < answers.len()
        invariant
            i <= answers@.len(),
            all == answers@.map_values(|a: (Seq<char>, AnswerView)| (a.0, answer_tree(a.1))),
            out@ == all.take(i as int),
        decreases answers@.len() - i,
    {
        proof {
            lemma_new_name(answers@, i as int);
        }
        out.put_new(answers.name(i), answers.value(i).wire());
        i += 1;
    }
    assert(all.take(i as int) =~= all);
    Json::Object(out)
}

fn usage_object(usage: &Option<Usage>) -> (r: Json)
    ensures
        r@ == usage_tree(*usage),
{
    broadcast use Json::lemma_tree;

    match usage {
        Some(usage) => {
            proof {
                reveal_strlit("input_tokens");
                reveal_strlit("output_tokens");
                assert("input_tokens"@.len() == 12 && "output_tokens"@.len() == 13);
            }
            let entries = vec![
                ("input_tokens", Json::unsigned(usage.input_tokens)),
                ("output_tokens", Json::unsigned(usage.output_tokens)),
            ];
            assert(entry_trees(entries@) =~= usage_tree(Some(*usage))->Object_0);
            object(entries)
        },
        None => Json::Null,
    }
}

fn count(n: Option<u64>) -> (r: Json)
    ensures
        r@ == count_tree(n),
{
    broadcast use Json::lemma_tree;

    match n {
        Some(n) => Json::unsigned(n),
        None => Json::Null,
    }
}

/// The request of a record.
pub fn request_json(request: &Request) -> (r: Json)
    ensures
        r@ == request_tree(request@),
{
    proof {
        reveal_strlit("observation");
        reveal_strlit("questions");
        assert("observation"@.len() == 11 && "questions"@.len() == 9);
    }
    let entries = vec![
        ("observation", request.observation.clone()),
        ("questions", questions_object(&request.questions)),
    ];
    assert(entry_trees(entries@) =~= request_tree(request@)->Object_0);
    object(entries)
}

/// The outcome of a record.
pub fn outcome_json(outcome: &Outcome) -> (r: Json)
    requires
        millis_fit(outcome@),
    ensures
        r@ == outcome_tree(outcome@),
{
    proof {
        reveal_strlit("answers");
        reveal_strlit("usage");
        reveal_strlit("resolved_model");
        reveal_strlit("elapsed_ms");
        reveal_strlit("retries");
        assert("answers"@.len() == 7 && "usage"@.len() == 5 && "resolved_model"@.len() == 14);
        assert("answers"@[0] == 'a' && "retries"@[0] == 'r');
    }
    let millis: Option<u64> = match &outcome.elapsed {
        Some(elapsed) => Some(elapsed.as_millis() as u64),
        None => None,
    };
    let retries: Option<u64> = match outcome.retries {
        Some(n) => Some(n as u64),
        None => None,
    };
    let entries = vec![
        ("answers", answers_object(&outcome.answers)),
        ("usage", usage_object(&outcome.usage)),
        ("resolved_model", Json::text_or_null(&outcome.resolved_model)),
        ("elapsed_ms", count(millis)),
        ("retries", count(retries)),
    ];
    assert(entry_trees(entries@) =~= outcome_tree(outcome@)->Object_0);
    object(entries)
}

/// What a capture log knows of itself.
#[derive(Debug)]
pub struct Capture {
    sequence: u64,
    run_id: String,
    labels: NameMap<String>,
}

/// A [`Capture`], with plain values for its parts.
pub struct CaptureView {
    /// The number of the next record.
    pub sequence: u64,
    /// The run.
    pub run_id: Seq<char>,
    /// The caller's context.
    pub labels: Seq<(Seq<char>, Seq<char>)>,
}

impl View for Capture {
    type V = CaptureView;

    closed spec fn view(&self) -> CaptureView {
        CaptureView { sequence: self.sequence, run_id: self.run_id@, labels: self.labels@ }
    }
}

/// The record of a call, made at a time.
pub open spec fn captured(
    capture: CaptureView,
    request: RequestView,
    result: Decided,
    at_unix_ms: u128,
) -> CapturedView {
    CapturedView {
        schema_version: 1,
        run_id: capture.run_id,
        sequence: capture.sequence,
        at_unix_ms,
        correlation: request.correlation,
        request: request_tree(request),
        outcome: match result {
            Ok(outcome) => Some(outcome_tree(outcome)),
            Err(_) => None,
        },
        error: match result {
            Ok(_) => None,
            Err(e) => Some(error_text(e)),
        },
        labels: capture.labels,
    }
}

/// The number after a record's; the count starts over after the last there
/// is.
pub open spec fn next_sequence(sequence: u64) -> u64 {
    if sequence == u64::MAX {
        0
    } else {
        (sequence + 1) as u64
    }
}

/// A run identifier: the process and the instant of opening, in hexadecimal.
pub open spec fn run_id_text(process: u32, nanos: u128) -> Seq<char> {
    hex_text(process as nat) + "-"@ + hex_text(nanos as nat)
}

/// Makes the identifier of a run.
pub fn new_run_id(process: u32, nanos: u128) -> (r: String)
    ensures
        r@ == run_id_text(process, nanos),
{
    text::join3(
        text::hexadecimal(process as u128).as_str(),
        "-",
        text::hexadecimal(nanos).as_str(),
    )
}

/// Whether a log of this many bytes has to roll over.
pub fn is_full(bytes: u64) -> (r: bool)
    ensures
        r == (bytes > MAX_CAPTURE_LOG_BYTES),
{
    bytes > MAX_CAPTURE_LOG_BYTES
}

/// The file name under which a rolled-over log is kept.
pub fn rolled_name(name: &str) -> (r: String)
    ensures
        r@ == name@ + ".1"@,
{
    text::join2(name, ".1")
}

impl Capture {
    /// The capture of a run that has recorded nothing yet.
    pub fn new(run_id: &str) -> (r: Self)
        ensures
            r@ == (CaptureView { sequence: 0, run_id: run_id@, labels: Seq::empty() }),
    {
        Capture { sequence: 0, run_id: run_id.to_owned(), labels: NameMap::new() }
    }

    /// This capture's run identifier, stamped onto every record.
    pub fn run_id(&self) -> (r: &str)
        ensures
            r@ == self@.run_id,
    {
        self.run_id.as_str()
    }

    /// Attaches caller context to every record from here on, replacing any
    /// previous value for the same key.
    pub fn labelled(self, labels: Vec<(String, String)>) -> (r: Self)
        ensures
            r@ == (CaptureView { labels: with_entries(self@.labels, pairs(labels@)), ..self@ }),
    {
        let ghost listed = pairs(labels@);
        let ghost start = labels@;
        let ghost before = self.labels@;
        let mut capture = self;
        for entry in it: labels
            invariant
                it.seq() == start,
                listed == pairs(start),
                capture.labels@ == with_entries(before, listed.take(it.index() as int)),
                capture.sequence == self.sequence,
                capture.run_id == self.run_id,
        {
            proof {
                let next = listed.take(it.index() + 1);
                assert(next.drop_last() =~= listed.take(it.index() as int));
            }
            capture.labels.insert(entry.0, entry.1);
        }
        assert(listed.take(listed.len() as int) =~= listed);
        capture
    }

    /// The record of a call, made at a given time. Each record of a capture
    /// has the number after the one before it.
    pub fn next_record(
        &mut self,
        request: &Request,
        result: &Result<Outcome, Error>,
        at_unix_ms: u128,
    ) -> (r: CapturedDecision)
        requires
            result matches Ok(outcome) ==> millis_fit(outcome@),
        ensures
            r@ == captured(old(self)@, request@, result_view(*result), at_unix_ms),
            final(self)@ == (CaptureView {
                sequence: next_sequence(old(self)@.sequence),
                ..old(self)@
            }),
    {
        let sequence: u64 = self.sequence;
        self.sequence = if sequence == u64::MAX {
            0
        } else {
            sequence + 1
        };
        let outcome = match result {
            Ok(outcome) => Some(outcome_json(outcome)),
            Err(_) => None,
        };
        let error = match result {
            Ok(_) => None,
            Err(e) => Some(e.message()),
        };
        CapturedDecision {
            schema_version: 1,
            run_id: self.run_id.clone(),
            sequence,
            at_unix_ms,
            correlation: duplicate_option(&request.correlation),
            request: request_json(request),
            outcome,
            error,
            labels: self.labels.clone(),
        }
    }
}

/// Labels as a record holds them.
pub open spec fn labels_tree(labels: Seq<(Seq<char>, Seq<char>)>) -> JsonTree {
    JsonTree::Object(labels.map_values(|l: (Seq<char>, Seq<char>)| (l.0, JsonTree::String(l.1))))
}

/// The members of a record's line. What a record does not have is left out.
pub open spec fn captured_members(record: CapturedView) -> Seq<(Seq<char>, JsonTree)> {
    let head = seq![
        ("schema_version"@, JsonTree::Number(NumberKind::PosInt(record.schema_version as u64))),
        ("run_id"@, JsonTree::String(record.run_id)),
        ("sequence"@, JsonTree::Number(NumberKind::PosInt(record.sequence))),
        ("at_unix_ms"@, JsonTree::Number(NumberKind::PosInt(record.at_unix_ms as u64))),
    ];
    let correlation = match record.correlation {
        Some(name) => seq![("correlation"@, JsonTree::String(name))],
        None => Seq::empty(),
    };
    let outcome = match record.outcome {
        Some(tree) => seq![("outcome"@, tree)],
        None => Seq::empty(),
    };
    let error = match record.error {
        Some(words) => seq![("error"@, JsonTree::String(words))],
        None => Seq::empty(),
    };
    let labels = if record.labels.len() > 0 {
        seq![("labels"@, labels_tree(record.labels))]
    } else {
        Seq::empty()
    };
    head + correlation + seq![("request"@, record.request)] + outcome + error + labels
}

proof fn lemma_captured_keys()
    ensures
        "schema_version"@.len() == 14,
        "run_id"@.len() == 6,
        "sequence"@.len() == 8,
        "at_unix_ms"@.len() == 10,
        "correlation"@.len() == 11,
        "request"@.len() == 7,
        "outcome"@.len() == 7,
        "error"@.len() == 5,
        "labels"@.len() == 6,
        "request"@[0] == 'r',
        "outcome"@[0] == 'o',
        "run_id"@[0] == 'r',
        "labels"@[0] == 'l',
{
    reveal_strlit("schema_version");
    reveal_strlit("run_id");
    reveal_strlit("sequence");
    reveal_strlit("at_unix_ms");
    reveal_strlit("correlation");
    reveal_strlit("request");
    reveal_strlit("outcome");
    reveal_strlit("error");
    reveal_strlit("labels");
}

fn labels_object(labels: &NameMap<String>) -> (r: Json)
    ensures
        r@ == labels_tree(labels@),
{
    broadcast use Json::lemma_tree;

    let ghost all = labels@.map_values(
        |l: (Seq<char>, Seq<char>)| (l.0, JsonTree::String(l.1)),
    );
    let mut out = Object::new();
    let mut i: usize = 0;
    while i < labels.len()
        invariant
            i <= labels@.len(),
            all == labels@.map_values(
                |l: (Seq<char>, Seq<char>)| (l.0, JsonTree::String(l.1)),
            ),
            out@ == all.take(i as int),
        decreases labels@.len() - i,
    {
        proof {
            lemma_new_name(labels@, i as int);
        }
        out.put_new(labels.name(i), Json::text(labels.value(i).as_str()));
        i += 1;
    }
    assert(all.take(i as int) =~= all);
    Json::Object(out)
}

impl CapturedDecision {
    /// The JSON object of the record.
    pub fn wire(&self) -> (r: Json)
        requires
            self@.at_unix_ms <= u64::MAX,
        ensures
            r@ == JsonTree::Object(captured_members(self@)),
    {
        broadcast use Json::lemma_tree;

        proof {
            lemma_captured_keys();
        }
        let mut out = Object::new();
        out.put_new("schema_version", Json::unsigned(self.schema_version as u64));
        out.put_new("run_id", Json::text(self.run_id.as_str()));
        out.put_new("sequence", Json::unsigned(self.sequence));
        out.put_new("at_unix_ms", Json::unsigned(self.at_unix_ms as u64));
        if let Some(correlation) = &self.correlation {
            out.put_new("correlation", Json::text(correlation.as_str()));
        }
        out.put_new("request", self.request.clone());
        if let Some(outcome) = &self.outcome {
            out.put_new("outcome", outcome.clone());
        }
        if let Some(error) = &self.error {
            out.put_new("error", Json::text(error.as_str()));
        }
        if !self.labels.is_empty() {
            out.put_new("labels", labels_object(&self.labels));
        }
        assert(out@ =~= captured_members(self@));
        Json::Object(out)
    }

    /// The line that is appended to the log for the record.
    pub fn line(&self) -> (r: String)
        requires
            self@.at_unix_ms <= u64::MAX,
        ensures
            r@ == json_text(JsonTree::Object(captured_members(self@))) + "\n"@,
    {
        text::join2(json::render(&self.wire()).as_str(), "\n")
    }
}

/// What a captured call gives, by what became of its record: a decision that
/// could not be logged is an error, and the error of a call that failed is
/// never hidden by that of its record.
pub open spec fn captured_result(appended: Result<(), ErrorView>, result: Decided) -> Decided {
    match (appended, result) {
        (Ok(()), result) => result,
        (Err(capture_error), Ok(_)) => Err(capture_error),
        (Err(_), Err(decide_error)) => Err(decide_error),
    }
}

/// What a captured call gives, by what became of its record.
pub fn settle(appended: Result<(), Error>, result: Result<Outcome, Error>) -> (r: Result<
    Outcome,
    Error,
>)
    ensures
        result_view(r) == captured_result(
            match appended {
                Ok(()) => Ok(()),
                Err(e) => Err(e@),
            },
            result_view(result),
        ),
{
    match appended {
        Ok(()) => result,
        Err(capture_error) => match result {
            Ok(_) => Err(capture_error),
            Err(decide_error) => Err(decide_error),
        },
    }
}

/// The number of the record after some calls.
pub open spec fn sequence_after(calls: nat) -> u64
    decreases calls,
{
    if calls == 0 {
        0
    } else {
        next_sequence(sequence_after((calls - 1) as nat))
    }
}

/// The records of a capture are numbered from zero, one by one, as far as the
/// count goes.
pub proof fn law_records_are_numbered_in_order(calls: nat)
    requires
        calls <= u64::MAX,
    ensures
        sequence_after(calls) == calls,
    decreases calls,
{
    if calls > 0 {
        law_records_are_numbered_in_order((calls - 1) as nat);
    }
}

/// A record holds exactly one of an outcome and an error.
pub proof fn law_record_holds_an_outcome_or_an_error(
    capture: CaptureView,
    request: RequestView,
    result: Decided,
    at_unix_ms: u128,
)
    ensures
        captured(capture, request, result, at_unix_ms).outcome is Some == result is Ok,
        captured(capture, request, result, at_unix_ms).error is Some == result is Err,
{
}

/// A record's line carries the caller's name for the call exactly where it
/// has one.
pub proof fn law_correlation_is_logged_where_it_is_set(record: CapturedView)
    ensures
        lookup(captured_members(record), "correlation"@) == match record.correlation {
            Some(name) => Some(JsonTree::String(name)),
            None => None,
        },
{
    lemma_captured_keys();
    let members = captured_members(record);
    if record.correlation is Some {
        lemma_find_entry(members, "correlation"@, 4);
    } else {
        lemma_find_entry(members, "correlation"@, members.len() as int);
    }
}

/// A caller is told of success only where the decision was made and its
/// record was written.
pub proof fn law_success_means_decided_and_logged(
    appended: Result<(), ErrorView>,
    result: Decided,
)
    ensures
        captured_result(appended, result) is Ok == (appended is Ok && result is Ok),
        result is Err ==> captured_result(appended, result) == result,
{
}

proof fn lemma_entries_in_order<T>(s: Seq<(Seq<char>, T)>)
    requires
        ascending(s),
    ensures
        with_entries(Seq::empty(), s) == s,
    decreases s.len(),
{
    if s.len() > 0 {
        let front = s.drop_last();
        assert(ascending(front)) by {
            assert forall|i: int, j: int| 0 <= i < j < front.len() implies text_before(
                front[i].0,
                front[j].0,
            ) by {
                assert(text_before(s[i].0, s[j].0));
            }
        }
        lemma_entries_in_order(front);
        assert forall|j: int| 0 <= j < front.len() implies text_before(
            (#[trigger] front[j]).0,
            s.last().0,
        ) by {
            assert(text_before(s[j].0, s[s.len() - 1].0));
        }
        lemma_entry_at_end(front, s.last().0, s.last().1);
        assert(front.push(s.last()) =~= s);
    }
}

/// Whether every double of an answer is finite and its posterior is in the
/// order of its keys, as every answer's is.
pub open spec fn writable(answer: AnswerView) -> bool {
    let finite = |reals: Seq<(Seq<char>, u64)>|
        ascending(reals) && forall|i: int|
            0 <= i < reals.len() ==> is_finite_bits((#[trigger] reals[i]).1);
    match answer {
        AnswerView::Choice { probabilities, confidence, .. } => finite(probabilities)
            && is_finite_bits(confidence),
        AnswerView::Score { probabilities, confidence, .. } => finite(probabilities) && (
        confidence matches Some(bits) ==> is_finite_bits(bits)),
        AnswerView::Noul { noul } => is_finite_bits(noul),
    }
}

proof fn lemma_reals_read_back(reals: Seq<(Seq<char>, u64)>)
    requires
        ascending(reals),
        forall|i: int| 0 <= i < reals.len() ==> is_finite_bits((#[trigger] reals[i]).1),
    ensures
        reals_of(Some(reals_tree(reals))) == Some(reals),
{
    let members = reals_tree(reals)->Object_0;
    assert(member_reals(members) =~= reals);
    lemma_entries_in_order(reals);
}

proof fn lemma_answer_fits(members: Seq<(Seq<char>, JsonTree)>, shape: Shape)
    requires
        shape == Shape::Choice || shape == Shape::Score || shape == Shape::Noul,
        members.len() == field_count(shape) + 1,
        members[0].0 == "type"@,
        forall|i: int|
            1 <= i < members.len() ==> (#[trigger] members[i]).0 == field_name(shape, i - 1)
                && value_fault(members[i].1, field_type(shape, i - 1)) is None,
    ensures
        members_fault(members, shape, 0) is None,
{
    lemma_answer_keys();
    reveal_with_fuel(find_field, 4);
    assert forall|i: int| 0 <= i < members.len() implies (find_field(
        shape,
        (#[trigger] members[i]).0,
        0,
    ) matches Some(k) ==> value_fault(members[i].1, field_type(shape, k)) is None) by {
        if i > 0 {
            lemma_field_found(shape, i - 1);
        }
    }
    lemma_members_fit(members, shape, 0);
}

/// An answer is read back from the form in which a record holds it, unless one
/// of its doubles is an infinity or a NaN, which JSON cannot hold: a recorded
/// exchange can be replayed.
pub proof fn law_answer_is_read_back(answer: AnswerView)
    requires
        writable(answer),
    ensures
        answer_of(answer_tree(answer)) == Ok::<AnswerView, Seq<char>>(answer),
{
    lemma_answer_keys();
    reveal_with_fuel(find_field, 4);
    reveal_with_fuel(absent_fault, 4);
    let members = answer_tree(answer)->Object_0;
    lemma_find_entry(members, "type"@, 0);
    match answer {
        AnswerView::Choice { choice, probabilities, confidence } => {
            lemma_find_entry(members, "choice"@, 1);
            lemma_find_entry(members, "probabilities"@, 2);
            lemma_find_entry(members, "confidence"@, 3);
            lemma_reals_read_back(probabilities);
            lemma_reals_fit(reals_tree(probabilities)->Object_0, 0);
            lemma_answer_fits(members, Shape::Choice);
        },
        AnswerView::Score { score, probabilities, confidence } => {
            lemma_find_entry(members, "score"@, 1);
            lemma_find_entry(members, "probabilities"@, 2);
            lemma_find_entry(members, "confidence"@, 3);
            lemma_reals_read_back(probabilities);
            lemma_reals_fit(reals_tree(probabilities)->Object_0, 0);
            lemma_answer_fits(members, Shape::Score);
        },
        AnswerView::Noul { noul } => {
            lemma_find_entry(members, "probability"@, 1);
            lemma_answer_fits(members, Shape::Noul);
        },
    }
}

/// The record of a call says which run it is of, its number there, when it was
/// made and what the caller calls it; it holds the observation and every
/// question, the outcome or the words of the error, and the caller's labels.
pub proof fn law_record_holds_the_call(
    capture: CaptureView,
    request: RequestView,
    result: Decided,
    at_unix_ms: u128,
)
    ensures
        ({
            let record = captured(capture, request, result, at_unix_ms);
            &&& record.schema_version == 1
            &&& record.run_id == capture.run_id
            &&& record.sequence == capture.sequence
            &&& record.at_unix_ms == at_unix_ms
            &&& record.correlation == request.correlation
            &&& record.labels == capture.labels
            &&& record.request matches JsonTree::Object(members) && {
                &&& members.len() == 2
                &&& members[0] == ("observation"@, request.observation)
                &&& members[1].0 == "questions"@
                &&& members[1].1 matches JsonTree::Object(questions) && {
                    &&& questions.len() == request.questions.len()
                    &&& forall|i: int|
                        0 <= i < questions.len() ==> #[trigger] questions[i] == (
                            request.questions[i].0,
                            question_tree(request.questions[i].1),
                        )
                }
            }
            &&& result matches Ok(outcome) ==> record.outcome == Some(outcome_tree(outcome))
                && record.error is None
            &&& result matches Err(e) ==> record.outcome is None && record.error == Some(
                error_text(e),
            )
        }),
{
}

/// The outcome of a record holds every answer under its question's name, the
/// tokens, the model, the time in whole milliseconds and the retries, each
/// `null` where it was not reported.
pub proof fn law_recorded_outcome_holds_what_was_reported(outcome: OutcomeView)
    requires
        outcome.elapsed matches Some(nanos) ==> nanos / 1_000_000 <= u64::MAX,
    ensures
        outcome_tree(outcome) matches JsonTree::Object(members) && {
            &&& members.len() == 5
            &&& members[0].0 == "answers"@
            &&& members[0].1 matches JsonTree::Object(answers) && {
                &&& answers.len() == outcome.answers.len()
                &&& forall|i: int|
                    0 <= i < answers.len() ==> #[trigger] answers[i] == (
                        outcome.answers[i].0,
                        answer_tree(outcome.answers[i].1),
                    )
            }
            &&& members[1].0 == "usage"@
            &&& outcome.usage is None ==> members[1].1 is Null
            &&& outcome.usage matches Some(usage) ==> (members[1].1 matches JsonTree::Object(
                counts,
            ) && {
                &&& counts.len() == 2
                &&& counts[0] == (
                    "input_tokens"@,
                    JsonTree::Number(NumberKind::PosInt(usage.input_tokens)),
                )
                &&& counts[1] == (
                    "output_tokens"@,
                    JsonTree::Number(NumberKind::PosInt(usage.output_tokens)),
                )
            })
            &&& members[2].0 == "resolved_model"@
            &&& outcome.resolved_model is None ==> members[2].1 is Null
            &&& outcome.resolved_model matches Some(model) ==> members[2].1 == JsonTree::String(
                model,
            )
            &&& members[3].0 == "elapsed_ms"@
            &&& outcome.elapsed is None ==> members[3].1 is Null
            &&& outcome.elapsed matches Some(nanos) ==> (members[3].1 matches JsonTree::Number(
                NumberKind::PosInt(millis),
            ) && millis == nanos / 1_000_000)
            &&& members[4].0 == "retries"@
            &&& outcome.retries is None ==> members[4].1 is Null
            &&& outcome.retries matches Some(retries) ==> members[4].1 == JsonTree::Number(
                NumberKind::PosInt(retries as u64),
            )
        },
{
}

/// An answer stands in a record as an endpoint gives it: tagged, with its own
/// parts under their names.
pub proof fn law_recorded_answer_is_tagged(answer: AnswerView)
    ensures
        answer_tree(answer) matches JsonTree::Object(members) && {
            &&& members[0].0 == "type"@
            &&& answer matches AnswerView::Choice { choice, probabilities, confidence } ==> {
                &&& members.len() == 4
                &&& members[0].1 == JsonTree::String("choice"@)
                &&& members[1] == ("choice"@, JsonTree::String(choice))
                &&& members[2].0 == "probabilities"@
                &&& members[2].1 == reals_tree(probabilities)
                &&& members[3] == ("confidence"@, real_tree(confidence))
            }
            &&& answer matches AnswerView::Score { score, probabilities, confidence } ==> {
                &&& members.len() == 4
                &&& members[0].1 == JsonTree::String("score"@)
                &&& members[1] == ("score"@, score)
                &&& members[2].0 == "probabilities"@
                &&& members[2].1 == reals_tree(probabilities)
                &&& members[3].0 == "confidence"@
                &&& confidence matches Some(bits) ==> members[3].1 == real_tree(bits)
                &&& confidence is None ==> members[3].1 is Null
            }
            &&& answer matches AnswerView::Noul { noul } ==> {
                &&& members.len() == 2
                &&& members[0].1 == JsonTree::String("boolean"@)
                &&& members[1] == ("probability"@, real_tree(noul))
            }
        },
{
}

/// A posterior stands in a record number by number, each under its own name.
pub proof fn law_recorded_posterior_keeps_its_names(reals: Seq<(Seq<char>, u64)>)
    ensures
        reals_tree(reals) matches JsonTree::Object(members) && {
            &&& members.len() == reals.len()
            &&& forall|i: int|
                0 <= i < members.len() ==> #[trigger] members[i] == (
                    reals[i].0,
                    real_tree(reals[i].1),
                )
        },
{
}

/// A line of the log holds the record's shape, run, number and time, then the
/// caller's name for the call where there is one, the request, the outcome or
/// the error, and the labels where there are any.
pub proof fn law_line_holds_the_record(record: CapturedView)
    requires
        record.at_unix_ms <= u64::MAX,
    ensures
        ({
            let members = captured_members(record);
            let named = if record.correlation is Some {
                1int
            } else {
                0
            };
            let decided = if record.outcome is Some {
                1int
            } else {
                0
            };
            let failed = if record.error is Some {
                1int
            } else {
                0
            };
            let labelled = if record.labels.len() > 0 {
                1int
            } else {
                0
            };
            &&& members.len() == 5 + named + decided + failed + labelled
            &&& members[0] == (
                "schema_version"@,
                JsonTree::Number(NumberKind::PosInt(record.schema_version as u64)),
            )
            &&& members[1] == ("run_id"@, JsonTree::String(record.run_id))
            &&& members[2] == ("sequence"@, JsonTree::Number(NumberKind::PosInt(record.sequence)))
            &&& members[3].0 == "at_unix_ms"@
            &&& members[3].1 matches JsonTree::Number(NumberKind::PosInt(millis)) && millis
                == record.at_unix_ms
            &&& record.correlation matches Some(name) ==> members[4] == (
                "correlation"@,
                JsonTree::String(name),
            )
            &&& members[4 + named] == ("request"@, record.request)
            &&& record.outcome matches Some(tree) ==> members[5 + named] == ("outcome"@, tree)
            &&& record.error matches Some(words) ==> members[5 + named + decided] == (
                "error"@,
                JsonTree::String(words),
            )
            &&& record.labels.len() > 0 ==> {
                let at = 5 + named + decided + failed;
                &&& members[at].0 == "labels"@
                &&& members[at].1 matches JsonTree::Object(labels) && {
                    &&& labels.len() == record.labels.len()
                    &&& forall|i: int|
                        0 <= i < labels.len() ==> #[trigger] labels[i] == (
                            record.labels[i].0,
                            JsonTree::String(record.labels[i].1),
                        )
                }
            }
        }),
{
}

/// A call whose record was kept gives what it gave; one whose record was not
/// gives that failure, unless it failed itself.
pub proof fn law_unlogged_decision_is_an_error(
    appended: Result<(), ErrorView>,
    result: Decided,
)
    ensures
        appended is Ok ==> captured_result(appended, result) == result,
        appended matches Err(e) ==> {
            &&& result is Ok ==> captured_result(appended, result) == Err::<OutcomeView, ErrorView>(
                e,
            )
            &&& result matches Err(f) ==> captured_result(appended, result) == Err::<
                OutcomeView,
                ErrorView,
            >(f)
        },
{
}

/// A run is named by its process and its instant, in hexadecimal, its records
/// are numbered one by one, and its log rolls over beyond 64 mebibytes.
pub proof fn law_runs_and_records_are_told_apart(process: u32, nanos: u128, sequence: u64)
    ensures
        run_id_text(process, nanos) == hex_text(process as nat) + "-"@ + hex_text(nanos as nat),
        sequence < u64::MAX ==> next_sequence(sequence) == sequence + 1,
        next_sequence(u64::MAX) == 0,
        MAX_CAPTURE_LOG_BYTES == 67_108_864,
{
}

/// The time of an outcome can be written as long as its milliseconds are an
/// integer of 64 bits.
pub proof fn law_what_time_can_be_written(outcome: OutcomeView)
    ensures
        millis_fit(outcome) <==> (outcome.elapsed matches Some(nanos) ==> nanos / 1_000_000
            <= 0xffff_ffff_ffff_ffff),
        outcome.elapsed matches Some(nanos) ==> elapsed_millis(outcome) == Some(nanos / 1_000_000),
{
}

} // verus!
