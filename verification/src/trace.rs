//! The decision history of a run.
//!
//! One record per decision, and a fold over the whole run's records that
//! fails on an empty trace rather than treating "nothing was decided" as a
//! pass.
use crate::fields::{self, field};
use crate::json::{
    distinct_keys, json_text, real_of, real_tree, string_of, trees, unsigned_of, Json, JsonTree, Object,
};
use crate::names::{lemma_find_entry, lookup, option_view, result_view};
use crate::number::{
    is_finite_bits, is_nan_bits, real_bits, real_le, real_lt, real_min, shown_fixed_text,
    NumberKind, Real,
};
use crate::question::{
    answer_confidence, answer_kind, answer_recorded_confidence, answer_value, lemma_object_fits,
    Answer, AnswerView,
};
use crate::shape::{
    self, absent_fault, field_type, find_field, invalid_type_text, items_fault, lemma_field_fits,
    lemma_field_found, lemma_members_fit, members_fault, record_fault, value_fault, FieldType,
    Shape,
};
use crate::text;
use vstd::prelude::*;

verus! {

broadcast use vstd::string::group_string_axioms;

/// Which kind of question produced a [`Record`].
#[derive(Clone, Copy, Debug, PartialEq, Eq, Structural)]
pub enum Kind {
    /// From a choice.
    Choice,
    /// From a score.
    Score,
    /// From a yes/no probability.
    Noul,
}

/// The name of a kind in a serialized record.
pub open spec fn kind_text(kind: Kind) -> Seq<char> {
    match kind {
        Kind::Choice => "choice"@,
        Kind::Score => "score"@,
        Kind::Noul => "noul"@,
    }
}

impl Kind {
    /// The name of the kind in a serialized record.
    pub fn name(&self) -> (r: &'static str)
        ensures
            r@ == kind_text(*self),
    {
        match self {
            Kind::Choice => "choice",
            Kind::Score => "score",
            Kind::Noul => "noul",
        }
    }
}

/// One recorded decision, kept for audit and for scoring a run.
#[derive(Debug, PartialEq)]
pub struct Record {
    /// The question's name.
    pub key: String,
    /// Which question kind produced this record.
    pub kind: Kind,
    /// The chosen key of a choice, or the value formatted plainly.
    pub chosen: String,
    /// The confidence that [`Trace::all_at_least`] folds over. For a yes/no
    /// answer this is the probability itself.
    pub confidence: Real,
    /// Unix seconds when the record was appended.
    pub timestamp_unix: u64,
}

/// A [`Record`], with plain values for its parts.
pub struct RecordView {
    /// The question's name.
    pub key: Seq<char>,
    /// The kind of the question.
    pub kind: Kind,
    /// What was chosen.
    pub chosen: Seq<char>,
    /// The bits of the confidence.
    pub confidence: u64,
    /// When the record was made.
    pub timestamp_unix: u64,
}

impl View for Record {
    type V = RecordView;

    open spec fn view(&self) -> RecordView {
        RecordView {
            key: self.key@,
            kind: self.kind,
            chosen: self.chosen@,
            confidence: self.confidence@,
            timestamp_unix: self.timestamp_unix,
        }
    }
}

/// The seconds since the Unix epoch, from `SystemTime::elapsed` of
/// `SystemTime::UNIX_EPOCH`; `None` where the clock stands before it. Nothing
/// is claimed of the result.
#[verifier::external_body]
fn unix_seconds() -> (r: Option<u64>)
{
    std::time::SystemTime::UNIX_EPOCH.elapsed().ok().map(|d| d.as_secs())
}

/// The record of an answer to a question, made at a time.
pub open spec fn record_of(key: Seq<char>, answer: AnswerView, timestamp_unix: u64) -> RecordView {
    RecordView {
        key,
        kind: answer_kind(answer),
        chosen: answer_value(answer),
        confidence: answer_recorded_confidence(answer),
        timestamp_unix,
    }
}

impl Record {
    /// The record of an answer, made at a given time.
    pub fn at(key: &str, answer: &Answer, timestamp_unix: u64) -> (r: Self)
        ensures
            r@ == record_of(key@, answer@, timestamp_unix),
    {
        Record {
            key: key.to_owned(),
            kind: answer.kind(),
            chosen: answer.recorded_value(),
            confidence: answer.recorded_confidence(),
            timestamp_unix,
        }
    }

    /// The record of an answer, made now; a clock that stands before the Unix
    /// epoch counts as zero.
    pub fn now(key: &str, answer: &Answer) -> (r: Self)
        ensures
            r@ == record_of(key@, answer@, r@.timestamp_unix),
    {
        let timestamp_unix: u64 = match unix_seconds() {
            Some(secs) => secs,
            None => 0,
        };
        Record::at(key, answer, timestamp_unix)
    }
}

impl Clone for Record {
    fn clone(&self) -> (r: Self)
        ensures
            r@ == self@,
    {
        Record {
            key: self.key.clone(),
            kind: self.kind,
            chosen: self.chosen.clone(),
            confidence: self.confidence.clone(),
            timestamp_unix: self.timestamp_unix,
        }
    }
}

/// A run's decision history, foldable into a confidence gate.
#[derive(Debug, PartialEq)]
pub struct Trace {
    records: Vec<Record>,
}

/// The views of a sequence of records.
pub open spec fn record_views(records: Seq<Record>) -> Seq<RecordView> {
    records.map_values(|r: Record| r@)
}

impl View for Trace {
    type V = Seq<RecordView>;

    closed spec fn view(&self) -> Seq<RecordView> {
        record_views(self.records@)
    }
}

/// Whether at least one decision was recorded and every one reached `bar`.
pub open spec fn passes(records: Seq<RecordView>, bar: u64) -> bool {
    records.len() > 0 && forall|i: int|
        0 <= i < records.len() ==> real_le(bar, (#[trigger] records[i]).confidence)
}

/// The lowest confidence recorded.
pub open spec fn lowest(records: Seq<RecordView>) -> Option<u64>
    decreases records.len(),
{
    if records.len() == 0 {
        None
    } else {
        match lowest(records.drop_last()) {
            Some(low) => Some(real_min(low, records.last().confidence)),
            None => Some(records.last().confidence),
        }
    }
}

impl Trace {
    /// An empty trace.
    pub fn new() -> (r: Self)
        ensures
            r@ == Seq::<RecordView>::empty(),
    {
        let r = Trace { records: Vec::new() };
        r
    }

    /// Appends a record.
    pub fn push(&mut self, record: Record)
        ensures
            final(self)@ == old(self)@.push(record@),
    {
        self.records.push(record);
    }

    /// Every record, in the order they were appended.
    pub fn records(&self) -> (r: &[Record])
        ensures
            record_views(r@) == self@,
    {
        self.records.as_slice()
    }

    /// The records themselves, in the order they were appended.
    pub fn into_records(self) -> (r: Vec<Record>)
        ensures
            record_views(r@) == self@,
    {
        self.records
    }

    /// Whether every recorded decision reached `min_confidence`, and at least
    /// one decision was recorded.
    pub fn all_at_least(&self, min_confidence: &Real) -> (r: bool)
        ensures
            r == passes(self@, min_confidence@),
    {
        if self.records.len() == 0 {
            return false;
        }
        let mut i: usize = 0;
        while i < self.records.len()
            invariant
                i <= self.records@.len(),
                forall|j: int|
                    0 <= j < i ==> real_le(min_confidence@, (#[trigger] self@[j]).confidence),
            decreases self.records@.len() - i,
        {
            assert(self@[i as int] == self.records@[i as int]@);
            if !min_confidence.at_most(&self.records[i].confidence) {
                return false;
            }
            i += 1;
        }
        true
    }

    /// The lowest confidence recorded, if any decisions were made.
    pub fn min_confidence(&self) -> (r: Option<Real>)
        ensures
            option_view(r) == lowest(self@),
    {
        let mut low: Option<Real> = None;
        let mut i: usize = 0;
        while i < self.records.len()
            invariant
                i <= self.records@.len(),
                option_view(low) == lowest(self@.take(i as int)),
            decreases self.records@.len() - i,
        {
            let next = self.records[i].confidence.clone();
            proof {
                let head = self@.take(i + 1);
                assert(head.drop_last() =~= self@.take(i as int));
            }
            low = Some(
                match low {
                    Some(a) => a.lesser(next),
                    None => next,
                },
            );
            i += 1;
        }
        assert(self@.take(i as int) =~= self@);
        low
    }
}

impl Default for Trace {
    fn default() -> (r: Self)
        ensures
            r@ == Seq::<RecordView>::empty(),
    {
        Trace::new()
    }
}

impl Clone for Trace {
    fn clone(&self) -> (r: Self)
        ensures
            r@ == self@,
    {
        let mut out = Trace::new();
        let mut i: usize = 0;
        while i < self.records.len()
            invariant
                i <= self.records@.len(),
                out@ == self@.take(i as int),
            decreases self.records@.len() - i,
        {
            out.push(self.records[i].clone());
            i += 1;
        }
        out
    }
}

/// A trace without records passes no bar.
pub proof fn law_empty_trace_never_passes(bar: u64)
    ensures
        !passes(Seq::<RecordView>::empty(), bar),
{
}

/// A trace that passes a bar passes every lower one.
pub proof fn law_passing_holds_for_lower_bars(records: Seq<RecordView>, bar: u64, lower: u64)
    requires
        passes(records, bar),
        real_le(lower, bar),
    ensures
        passes(records, lower),
{
}

/// A trace passes after one more record exactly where the record reaches the
/// bar and the trace passed before or was empty.
pub proof fn law_one_record_below_fails_the_trace(
    records: Seq<RecordView>,
    record: RecordView,
    bar: u64,
)
    ensures
        passes(records.push(record), bar) == (real_le(bar, record.confidence) && (records.len() == 0
            || passes(records, bar))),
{
    let more = records.push(record);
    if passes(more, bar) {
        assert(more[records.len() as int] == record);
        assert forall|i: int| 0 <= i < records.len() implies real_le(
            bar,
            (#[trigger] records[i]).confidence,
        ) by {
            assert(more[i] == records[i]);
        }
    }
}

/// The lowest confidence is one that was recorded, none is below it, and
/// there is one exactly where something was recorded.
pub proof fn law_lowest_is_a_lower_bound(records: Seq<RecordView>)
    requires
        forall|i: int|
            0 <= i < records.len() ==> !is_nan_bits((#[trigger] records[i]).confidence),
    ensures
        lowest(records) is Some == (records.len() > 0),
        lowest(records) matches Some(low) ==> (exists|i: int|
            0 <= i < records.len() && (#[trigger] records[i]).confidence == low) && forall|i: int|
            0 <= i < records.len() ==> real_le(low, (#[trigger] records[i]).confidence),
    decreases records.len(),
{
    if records.len() > 0 {
        let front = records.drop_last();
        let last = records.len() - 1;
        law_lowest_is_a_lower_bound(front);
        assert forall|i: int| 0 <= i < records.len() implies real_le(
            lowest(records)->0,
            (#[trigger] records[i]).confidence,
        ) by {
            if i < last {
                assert(front[i] == records[i]);
            }
        }
    }
}

/// A trace passes a bar exactly where its lowest confidence does.
pub proof fn law_passing_is_decided_by_the_lowest(records: Seq<RecordView>, bar: u64)
    requires
        forall|i: int|
            0 <= i < records.len() ==> !is_nan_bits((#[trigger] records[i]).confidence),
    ensures
        passes(records, bar) == (lowest(records) is Some && real_le(bar, lowest(records)->0)),
{
    law_lowest_is_a_lower_bound(records);
}

/// The members of a serialized record.
pub open spec fn record_members(record: RecordView) -> Seq<(Seq<char>, JsonTree)> {
    seq![
        ("key"@, JsonTree::String(record.key)),
        ("kind"@, JsonTree::String(kind_text(record.kind))),
        ("chosen"@, JsonTree::String(record.chosen)),
        ("confidence"@, real_tree(record.confidence)),
        (
            "timestamp_unix"@,
            JsonTree::Number(crate::number::NumberKind::PosInt(record.timestamp_unix)),
        ),
    ]
}

/// A serialized record.
pub open spec fn record_tree(record: RecordView) -> JsonTree {
    JsonTree::Object(record_members(record))
}

/// A serialized trace: the array of its records.
pub open spec fn trace_tree(records: Seq<RecordView>) -> JsonTree {
    JsonTree::Array(records.map_values(|r: RecordView| record_tree(r)))
}

/// The kind that a JSON value names, as a string or as the only key of an
/// object whose value is `null`.
pub open spec fn kind_of_tree(tree: JsonTree) -> Option<Kind> {
    let name = match tree {
        JsonTree::String(s) => Some(s),
        JsonTree::Object(members) => if members.len() == 1 && members[0].1 is Null {
            Some(members[0].0)
        } else {
            None
        },
        _ => None,
    };
    match name {
        Some(s) => if s == "choice"@ {
            Some(Kind::Choice)
        } else if s == "score"@ {
            Some(Kind::Score)
        } else if s == "noul"@ {
            Some(Kind::Noul)
        } else {
            None
        },
        None => None,
    }
}

/// The record that a JSON value holds, or what is wrong with it.
pub open spec fn record_of_tree(tree: JsonTree) -> Result<RecordView, Seq<char>> {
    match record_fault(tree, Shape::Record) {
        Some(words) => Err(words),
        None => Ok(
            RecordView {
                key: string_of(field(tree, 0, "key"@)->0)->0,
                kind: kind_of_tree(field(tree, 1, "kind"@)->0)->0,
                chosen: string_of(field(tree, 2, "chosen"@)->0)->0,
                confidence: real_of(field(tree, 3, "confidence"@)->0)->0,
                timestamp_unix: unsigned_of(field(tree, 4, "timestamp_unix"@)->0)->0,
            },
        ),
    }
}

/// The trace that a JSON value holds, or what is wrong with its first record
/// that is none.
pub open spec fn records_of_trees(items: Seq<JsonTree>) -> Result<Seq<RecordView>, Seq<char>>
    decreases items.len(),
{
    if items.len() == 0 {
        Ok(Seq::empty())
    } else {
        match records_of_trees(items.drop_last()) {
            Ok(front) => match record_of_tree(items.last()) {
                Ok(record) => Ok(front.push(record)),
                Err(e) => Err(e),
            },
            Err(e) => Err(e),
        }
    }
}

/// The trace that a JSON value holds.
pub open spec fn trace_of_tree(tree: JsonTree) -> Result<Seq<RecordView>, Seq<char>> {
    match tree {
        JsonTree::Array(items) => records_of_trees(items),
        _ => Err(invalid_type_text(tree, "a sequence"@)),
    }
}

fn kind_from(json: &Json) -> (r: Option<Kind>)
    ensures
        r == kind_of_tree(json@),
{
    let name = match json.as_str() {
        Some(s) => s,
        None => match json.as_object() {
            Some(o) => if o.len() == 1 && o.value(0).is_null() {
                o.key(0)
            } else {
                return None;
            },
            None => {
                return None;
            },
        },
    };
    if text::same(name, "choice") {
        Some(Kind::Choice)
    } else if text::same(name, "score") {
        Some(Kind::Score)
    } else if text::same(name, "noul") {
        Some(Kind::Noul)
    } else {
        None
    }
}

proof fn lemma_record_keys()
    ensures
        "key"@.len() == 3,
        "kind"@.len() == 4,
        "chosen"@.len() == 6,
        "confidence"@.len() == 10,
        "timestamp_unix"@.len() == 14,
{
    reveal_strlit("key");
    reveal_strlit("kind");
    reveal_strlit("chosen");
    reveal_strlit("confidence");
    reveal_strlit("timestamp_unix");
}

impl Record {
    /// The JSON object of the record.
    pub fn wire(&self) -> (r: Json)
        ensures
            r@ == record_tree(self@),
    {
        broadcast use Json::lemma_tree;

        proof {
            lemma_record_keys();
        }
        let mut out = Object::new();
        out.put_new("key", Json::text(self.key.as_str()));
        out.put_new("kind", Json::text(self.kind.name()));
        out.put_new("chosen", Json::text(self.chosen.as_str()));
        out.put_new("confidence", Json::of_real(&self.confidence));
        out.put_new("timestamp_unix", Json::unsigned(self.timestamp_unix));
        assert(out@ =~= record_members(self@));
        Json::Object(out)
    }

    /// Reads the record that a JSON value holds.
    pub fn decode(json: &Json) -> (r: Result<Record, String>)
        ensures
            result_view(r) == record_of_tree(json@),
    {
        if let Some(words) = shape::fault(json, Shape::Record) {
            return Err(words);
        }
        proof {
            lemma_field_fits(json@, Shape::Record, 0);
            lemma_field_fits(json@, Shape::Record, 1);
            lemma_field_fits(json@, Shape::Record, 2);
            lemma_field_fits(json@, Shape::Record, 3);
            lemma_field_fits(json@, Shape::Record, 4);
        }
        let key = fields::text_at(json, 0, "key");
        let kind = match fields::get_field(json, 1, "kind") {
            Some(value) => match kind_from(value) {
                Some(kind) => kind,
                None => Kind::Choice,
            },
            None => Kind::Choice,
        };
        let chosen = fields::text_at(json, 2, "chosen");
        let confidence = fields::real_at(json, 3, "confidence");
        let timestamp_unix: u64 = match fields::get_field(json, 4, "timestamp_unix") {
            Some(value) => match value.as_unsigned() {
                Some(n) => n,
                None => 0,
            },
            None => 0,
        };
        Ok(Record { key, kind, chosen, confidence, timestamp_unix })
    }
}

proof fn lemma_first_bad_record(items: Seq<JsonTree>, i: int)
    requires
        0 <= i < items.len(),
        records_of_trees(items.take(i)) is Ok,
        record_of_tree(items[i]) is Err,
    ensures
        records_of_trees(items) == Err::<Seq<RecordView>, Seq<char>>(
            record_of_tree(items[i])->Err_0,
        ),
    decreases items.len(),
{
    if i < items.len() - 1 {
        let front = items.drop_last();
        assert(front.take(i) =~= items.take(i));
        lemma_first_bad_record(front, i);
    }
}

impl Trace {
    /// The JSON array of the records.
    pub fn wire(&self) -> (r: Json)
        ensures
            r@ == trace_tree(self@),
    {
        broadcast use Json::lemma_tree;

        let mut out: Vec<Json> = Vec::new();
        let mut i: usize = 0;
        while i < self.records.len()
            invariant
                i <= self.records@.len(),
                out@.len() == i,
                forall|j: int| 0 <= j < i ==> (#[trigger] out@[j])@ == record_tree(self@[j]),
            decreases self.records@.len() - i,
        {
            out.push(self.records[i].wire());
            i += 1;
        }
        assert(trees(out@) =~= self@.map_values(|r: RecordView| record_tree(r)));
        Json::Array(out)
    }

    /// Reads the trace that a JSON value holds.
    pub fn decode(json: &Json) -> (r: Result<Trace, String>)
        ensures
            result_view(r) == trace_of_tree(json@),
    {
        let items = match json.as_array() {
            Some(items) => items,
            None => {
                return Err(shape::wrong_type(json, "a sequence"));
            },
        };
        let ghost all = trees(items@);
        let mut out = Trace::new();
        let mut i: usize = 0;
        while i < items.len()
            invariant
                i <= items@.len(),
                json@ == JsonTree::Array(all),
                all == trees(items@),
                records_of_trees(all.take(i as int)) == Ok::<Seq<RecordView>, Seq<char>>(out@),
            decreases items@.len() - i,
        {
            proof {
                let next = all.take(i + 1);
                assert(next.drop_last() =~= all.take(i as int));
            }
            match Record::decode(&items[i]) {
                Ok(record) => {
                    out.push(record);
                },
                Err(e) => {
                    proof {
                        lemma_first_bad_record(all, i as int);
                    }
                    return Err(e);
                },
            }
            i += 1;
        }
        assert(all.take(i as int) =~= all);
        Ok(out)
    }
}

/// A record is read back from its serialized form, unless its confidence is
/// an infinity or a NaN, which JSON cannot hold.
pub proof fn law_record_is_read_back(record: RecordView)
    requires
        is_finite_bits(record.confidence),
    ensures
        record_of_tree(record_tree(record)) == Ok::<RecordView, Seq<char>>(record),
{
    lemma_record_keys();
    reveal_with_fuel(absent_fault, 6);
    let members = record_members(record);
    lemma_find_entry(members, "key"@, 0);
    lemma_find_entry(members, "kind"@, 1);
    lemma_find_entry(members, "chosen"@, 2);
    lemma_find_entry(members, "confidence"@, 3);
    lemma_find_entry(members, "timestamp_unix"@, 4);
    reveal_strlit("choice");
    reveal_strlit("score");
    reveal_strlit("noul");
    assert("choice"@.len() == 6 && "score"@.len() == 5 && "noul"@.len() == 4);
    assert forall|i: int| 0 <= i < members.len() implies (find_field(
        Shape::Record,
        (#[trigger] members[i]).0,
        0,
    ) matches Some(k) ==> value_fault(members[i].1, field_type(Shape::Record, k)) is None) by {
        lemma_field_found(Shape::Record, i);
    }
    lemma_members_fit(members, Shape::Record, 0);
}

/// A trace is read back from its serialized form, record by record.
pub proof fn law_trace_is_read_back(records: Seq<RecordView>)
    requires
        forall|i: int|
            0 <= i < records.len() ==> is_finite_bits((#[trigger] records[i]).confidence),
    ensures
        trace_of_tree(trace_tree(records)) == Ok::<Seq<RecordView>, Seq<char>>(records),
    decreases records.len(),
{
    let items = trace_tree(records)->Array_0;
    if records.len() == 0 {
        assert(records =~= Seq::<RecordView>::empty());
    } else {
        let front = records.drop_last();
        law_trace_is_read_back(front);
        assert(items.drop_last() =~= trace_tree(front)->Array_0);
        law_record_is_read_back(records.last());
        assert(front.push(records.last()) =~= records);
    }
}

/// A record says which question was answered and when, and keeps the
/// confidence that the answer carries; only of an answer without one does it
/// keep the probability of a yes/no answer, or zero.
pub proof fn law_record_keeps_the_confidence(
    key: Seq<char>,
    answer: AnswerView,
    timestamp_unix: u64,
)
    ensures
        ({
            let record = record_of(key, answer, timestamp_unix);
            &&& record.key == key
            &&& record.timestamp_unix == timestamp_unix
            &&& answer matches AnswerView::Choice { choice, confidence, .. } ==> {
                &&& record.kind == Kind::Choice
                &&& record.chosen == choice
                &&& record.confidence == confidence
            }
            &&& answer matches AnswerView::Score { score, confidence, .. } ==> {
                &&& record.kind == Kind::Score
                &&& record.chosen == json_text(score)
                &&& confidence matches Some(c) ==> record.confidence == c
                &&& confidence is None ==> record.confidence == 0
            }
            &&& answer matches AnswerView::Noul { noul } ==> {
                &&& record.kind == Kind::Noul
                &&& record.chosen == shown_fixed_text(noul)
                &&& record.confidence == noul
            }
        }),
{
}

/// The record of one answer decides alone where nothing else is recorded: the
/// bars that the confidence of the answer reaches are passed, and that
/// confidence is the lowest.
pub proof fn law_single_answer_decides_alone(
    key: Seq<char>,
    answer: AnswerView,
    timestamp_unix: u64,
    bar: u64,
)
    ensures
        ({
            let records = seq![record_of(key, answer, timestamp_unix)];
            &&& answer_confidence(answer) matches Some(c) ==> {
                &&& passes(records, bar) == real_le(bar, c)
                &&& lowest(records) == Some(c)
            }
            &&& answer matches AnswerView::Noul { noul } ==> {
                &&& passes(records, bar) == real_le(bar, noul)
                &&& lowest(records) == Some(noul)
            }
            &&& answer matches AnswerView::Score { confidence: None, .. } ==> {
                &&& passes(records, bar) == real_le(bar, 0)
                &&& lowest(records) == Some(0u64)
            }
        }),
{
    let records = seq![record_of(key, answer, timestamp_unix)];
    assert(records.drop_last() =~= Seq::empty());
    assert(lowest(records.drop_last()) is None);
    assert(records[0].confidence == records.last().confidence);
}

/// A trace that passes has every one of its records at the bar or above it,
/// by the order of the numbers, and one that fails is empty or has a record
/// that is not.
pub proof fn law_gate_asks_every_record(records: Seq<RecordView>, bar: u64)
    ensures
        passes(records, bar) ==> records.len() > 0 && forall|i: int|
            0 <= i < records.len() ==> real_le(bar, (#[trigger] records[i]).confidence),
        !passes(records, bar) ==> records.len() == 0 || exists|i: int|
            0 <= i < records.len() && !real_le(bar, (#[trigger] records[i]).confidence),
{
}

/// A serialized record holds every part of it under its name, in order, and a
/// serialized trace its records in order.
pub proof fn law_serialized_record_names_its_parts(records: Seq<RecordView>, i: int)
    requires
        0 <= i < records.len(),
    ensures
        trace_tree(records) matches JsonTree::Array(items) && {
            &&& items.len() == records.len()
            &&& items[i] matches JsonTree::Object(members) && {
                &&& members.len() == 5
                &&& members[0] == ("key"@, JsonTree::String(records[i].key))
                &&& members[1].0 == "kind"@
                &&& members[1].1 == JsonTree::String(
                    match records[i].kind {
                        Kind::Choice => "choice"@,
                        Kind::Score => "score"@,
                        Kind::Noul => "noul"@,
                    },
                )
                &&& members[2] == ("chosen"@, JsonTree::String(records[i].chosen))
                &&& members[3] == ("confidence"@, real_tree(records[i].confidence))
                &&& members[4] == (
                    "timestamp_unix"@,
                    JsonTree::Number(crate::number::NumberKind::PosInt(records[i].timestamp_unix)),
                )
            }
        },
{
    let items = trace_tree(records)->Array_0;
    assert(items[i] == JsonTree::Object(record_members(records[i])));
}

/// An object is a record exactly where its key and what was chosen are strings,
/// its kind names one, its confidence is a number and its time an integer from
/// zero up; the record holds these.
pub proof fn law_record_is_read_from_its_members(members: Seq<(Seq<char>, JsonTree)>)
    requires
        distinct_keys(members),
    ensures
        record_of_tree(JsonTree::Object(members)) is Ok <==> {
            &&& lookup(members, "key"@) matches Some(JsonTree::String(_))
            &&& lookup(members, "kind"@) matches Some(kind) && value_fault(
                kind,
                FieldType::Kind,
            ) is None
            &&& lookup(members, "chosen"@) matches Some(JsonTree::String(_))
            &&& lookup(members, "confidence"@) matches Some(JsonTree::Number(_))
            &&& lookup(members, "timestamp_unix"@) matches Some(
                JsonTree::Number(NumberKind::PosInt(_)),
            )
        },
        record_of_tree(JsonTree::Object(members)) matches Ok(record) ==> {
            &&& lookup(members, "key"@) == Some(JsonTree::String(record.key))
            &&& lookup(members, "chosen"@) == Some(JsonTree::String(record.chosen))
            &&& lookup(members, "confidence"@) matches Some(JsonTree::Number(kind))
                && record.confidence == real_bits(kind)
            &&& lookup(members, "timestamp_unix"@) == Some(
                JsonTree::Number(NumberKind::PosInt(record.timestamp_unix)),
            )
            &&& lookup(members, "kind"@) matches Some(JsonTree::String(name)) ==> name == match record.kind {
                Kind::Choice => "choice"@,
                Kind::Score => "score"@,
                Kind::Noul => "noul"@,
            }
        },
{
    let tree = JsonTree::Object(members);
    if record_fault(tree, Shape::Record) is None {
        lemma_field_fits(tree, Shape::Record, 0);
        lemma_field_fits(tree, Shape::Record, 1);
        lemma_field_fits(tree, Shape::Record, 2);
        lemma_field_fits(tree, Shape::Record, 3);
        lemma_field_fits(tree, Shape::Record, 4);
    }
    if {
        &&& lookup(members, "key"@) matches Some(JsonTree::String(_))
        &&& lookup(members, "kind"@) matches Some(kind) && value_fault(kind, FieldType::Kind)
            is None
        &&& lookup(members, "chosen"@) matches Some(JsonTree::String(_))
        &&& lookup(members, "confidence"@) matches Some(JsonTree::Number(_))
        &&& lookup(members, "timestamp_unix"@) matches Some(
            JsonTree::Number(NumberKind::PosInt(_)),
        )
    } {
        lemma_object_fits(members, Shape::Record);
    }
}

/// A trace is read where each of its items is a record, and then holds them in
/// their order; else it is refused for the first that is none.
pub proof fn law_trace_is_read_record_by_record(items: Seq<JsonTree>, i: int)
    ensures
        trace_of_tree(JsonTree::Array(items)) matches Ok(records) ==> {
            &&& records.len() == items.len()
            &&& 0 <= i < items.len() ==> record_of_tree(items[i]) == Ok::<RecordView, Seq<char>>(
                records[i],
            )
        },
        0 <= i < items.len() && (forall|j: int|
            0 <= j < i ==> record_of_tree(#[trigger] items[j]) is Ok) ==> (record_of_tree(items[i])
            matches Err(words) ==> trace_of_tree(JsonTree::Array(items)) == Err::<
            Seq<RecordView>,
            Seq<char>,
        >(words)),
        (forall|j: int| 0 <= j < items.len() ==> record_of_tree(#[trigger] items[j]) is Ok)
            ==> trace_of_tree(JsonTree::Array(items)) is Ok,
    decreases items.len(),
{
    if items.len() > 0 {
        let front = items.drop_last();
        law_trace_is_read_record_by_record(front, i);
        assert forall|j: int| 0 <= j < front.len() implies #[trigger] front[j] == items[j] by {}
        if forall|j: int| 0 <= j < items.len() ==> record_of_tree(#[trigger] items[j]) is Ok {
            assert forall|j: int| 0 <= j < front.len() implies record_of_tree(
                #[trigger] front[j],
            ) is Ok by {
                assert(front[j] == items[j]);
            }
            assert(record_of_tree(items[items.len() - 1]) is Ok);
        }
        if 0 <= i < items.len() && (forall|j: int|
            0 <= j < i ==> record_of_tree(#[trigger] items[j]) is Ok) && record_of_tree(items[i])
            is Err {
            let early = items.take(i);
            assert forall|j: int| 0 <= j < early.len() implies record_of_tree(
                #[trigger] early[j],
            ) is Ok by {
                assert(early[j] == items[j]);
            }
            law_trace_is_read_record_by_record(early, 0);
            lemma_first_bad_record(items, i);
        }
    }
}

/// A further record makes its confidence the lowest where it is the first or
/// lies below all others.
pub proof fn law_lowest_is_kept_record_by_record(records: Seq<RecordView>, record: RecordView)
    ensures
        lowest(Seq::<RecordView>::empty()) is None,
        lowest(records) is None ==> lowest(records.push(record)) == Some(record.confidence),
        lowest(records) matches Some(low) ==> lowest(records.push(record)) == Some(
            if is_nan_bits(low) || real_lt(record.confidence, low) {
                record.confidence
            } else {
                low
            },
        ),
{
    assert(records.push(record).drop_last() =~= records);
}

/// A kind that is named by the only key of an object is the kind of that name.
pub proof fn law_kind_is_read_in_either_form(name: Seq<char>)
    ensures
        ({
            let plain = kind_of_tree(JsonTree::String(name));
            &&& plain == Some(Kind::Choice) <==> name == "choice"@
            &&& plain == Some(Kind::Score) <==> name == "score"@
            &&& plain == Some(Kind::Noul) <==> name == "noul"@
            &&& kind_of_tree(JsonTree::Object(seq![(name, JsonTree::Null)])) == plain
        }),
        kind_text(Kind::Choice) == "choice"@,
        kind_text(Kind::Score) == "score"@,
        kind_text(Kind::Noul) == "noul"@,
{
    reveal_strlit("choice");
    reveal_strlit("score");
    reveal_strlit("noul");
    assert("choice"@.len() == 6 && "score"@.len() == 5 && "noul"@.len() == 4);
}

/// A record in an array is read as the one in an object with the same parts.
pub proof fn law_record_may_be_an_array(
    key: JsonTree,
    kind: JsonTree,
    chosen: JsonTree,
    confidence: JsonTree,
    time: JsonTree,
)
    ensures
        record_of_tree(JsonTree::Array(seq![key, kind, chosen, confidence, time]))
            == record_of_tree(
            JsonTree::Object(
                seq![
                    ("key"@, key),
                    ("kind"@, kind),
                    ("chosen"@, chosen),
                    ("confidence"@, confidence),
                    ("timestamp_unix"@, time),
                ],
            ),
        ),
{
    let items = seq![key, kind, chosen, confidence, time];
    let members = seq![
        ("key"@, key),
        ("kind"@, kind),
        ("chosen"@, chosen),
        ("confidence"@, confidence),
        ("timestamp_unix"@, time),
    ];
    let shape = Shape::Record;
    lemma_record_keys();
    reveal_with_fuel(absent_fault, 6);
    lemma_find_entry(members, "key"@, 0);
    lemma_find_entry(members, "kind"@, 1);
    lemma_find_entry(members, "chosen"@, 2);
    lemma_find_entry(members, "confidence"@, 3);
    lemma_find_entry(members, "timestamp_unix"@, 4);
    lemma_field_found(shape, 0);
    lemma_field_found(shape, 1);
    lemma_field_found(shape, 2);
    lemma_field_found(shape, 3);
    lemma_field_found(shape, 4);
    assert(items_fault(items, shape, 5) is None);
    assert(members_fault(members, shape, 5) is None);
    assert(items_fault(items, shape, 4) == members_fault(members, shape, 4));
    assert(items_fault(items, shape, 3) == members_fault(members, shape, 3));
    assert(items_fault(items, shape, 2) == members_fault(members, shape, 2));
    assert(items_fault(items, shape, 1) == members_fault(members, shape, 1));
    assert(items_fault(items, shape, 0) == members_fault(members, shape, 0));
    assert(absent_fault(members, shape, 0) is None);
}

/// Anything but an array is no trace.
pub proof fn law_trace_is_an_array(tree: JsonTree)
    requires
        !(tree is Array),
    ensures
        trace_of_tree(tree) == Err::<Seq<RecordView>, Seq<char>>(
            invalid_type_text(tree, "a sequence"@),
        ),
{
}

/// A record that is none is refused in the words of its fault.
pub proof fn law_faulty_record_is_refused_in_its_words(tree: JsonTree)
    ensures
        record_fault(tree, Shape::Record) matches Some(words) ==> record_of_tree(tree) == Err::<
            RecordView,
            Seq<char>,
        >(words),
        record_fault(tree, Shape::Record) is None ==> record_of_tree(tree) is Ok,
{
}

} // verus!
