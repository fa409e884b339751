//! The bounded question and answer wire types.
//!
//! There is no free text on this wire in either direction. A request carries
//! a JSON observation and a set of named questions, each one a closed set the
//! caller wrote down; a response carries, per question, the chosen key (or
//! rating, or probability) plus a confidence.
use crate::fields::{self, field, is_record, optional_field};
use crate::json::{
    self, distinct_keys, json_text, law_member_is_found_by_its_key, law_member_is_read_back,
    law_member_keeps_its_place, real_of, string_of, trees, unsigned_of, with_member, Json, JsonTree, Object,
};
use crate::names::{
    duplicate_option, find_entry, law_entries_are_read_back, lemma_find_entry, lemma_found_entry,
    lookup, option_view, result_view, with_entries, Duplicate, NameMap,
};
use crate::number::{real_bits, shown_fixed_text, NumberKind, Real};
use crate::shape::{
    self, absent_fault, answer_fault, field_count, field_name, field_required, field_type,
    find_field, items_fault, lemma_field_fits, lemma_members_fit, lemma_reals_fit, reals_fault,
    record_fault, value_fault, FieldType, Shape,
};
use crate::text;
use crate::trace::Kind;
use vstd::prelude::*;

verus! {

broadcast use vstd::string::group_string_axioms;

/// An ordered set of `key -> description` pairs, preserving the order the
/// caller declared them in.
///
/// The order can carry meaning: a [`Question::Score`] rubric is declared low
/// to high.
#[derive(Debug, PartialEq, Eq)]
pub struct Criteria {
    pairs: Vec<(String, String)>,
}

impl View for Criteria {
    type V = Seq<(Seq<char>, Seq<char>)>;

    closed spec fn view(&self) -> Seq<(Seq<char>, Seq<char>)> {
        self.pairs@.map_values(|p: (String, String)| (p.0@, p.1@))
    }
}

/// The keys of a set of criteria, in order.
pub open spec fn criteria_keys(pairs: Seq<(Seq<char>, Seq<char>)>) -> Seq<Seq<char>> {
    pairs.map_values(|p: (Seq<char>, Seq<char>)| p.0)
}

/// The texts of a sequence of string slices.
pub open spec fn texts(items: Seq<&str>) -> Seq<Seq<char>> {
    items.map_values(|s: &str| s@)
}

impl Criteria {
    /// An empty set; fill it with [`Criteria::push`].
    pub fn new() -> (r: Self)
        ensures
            r@ == Seq::<(Seq<char>, Seq<char>)>::empty(),
    {
        let r = Criteria { pairs: Vec::new() };
        r
    }

    /// Appends one pair, keeping declaration order, and hands the set back
    /// for the next one.
    pub fn push(&mut self, key: &str, description: &str) -> (r: &mut Self)
        ensures
            r@ == old(self)@.push((key@, description@)),
            *final(self) == *final(r),
    {
        self.pairs.push((key.to_owned(), description.to_owned()));
        self
    }

    /// The set of these pairs, in their order.
    pub fn from_pairs(pairs: &[(&str, &str)]) -> (r: Self)
        ensures
            r@ == pairs@.map_values(|p: (&str, &str)| (p.0@, p.1@)),
    {
        let mut out: Vec<(String, String)> = Vec::new();
        let mut i: usize = 0;
        while i < pairs.len()
            invariant
                i <= pairs@.len(),
                out@.len() == i,
                forall|j: int|
                    0 <= j < i ==> (#[trigger] out@[j]).0@ == pairs@[j].0@ && out@[j].1@
                        == pairs@[j].1@,
            decreases pairs@.len() - i,
        {
            out.push((pairs[i].0.to_owned(), pairs[i].1.to_owned()));
            i += 1;
        }
        let r = Criteria { pairs: out };
        r
    }

    /// The keys, in declaration order: the answer alphabet of a question.
    pub fn keys(&self) -> (r: Vec<&str>)
        ensures
            texts(r@) == criteria_keys(self@),
    {
        let mut out: Vec<&str> = Vec::new();
        let mut i: usize = 0;
        while i < self.pairs.len()
            invariant
                i <= self.pairs@.len(),
                out@.len() == i,
                forall|j: int| 0 <= j < i ==> (#[trigger] out@[j])@ == self.pairs@[j].0@,
            decreases self.pairs@.len() - i,
        {
            out.push(self.pairs[i].0.as_str());
            i += 1;
        }
        out
    }

    /// The description of the pair at a place.
    pub fn description(&self, i: usize) -> (r: &str)
        requires
            i < self@.len(),
        ensures
            r@ == self@[i as int].1,
    {
        self.pairs[i].1.as_str()
    }

    /// Whether `key` is one of the declared options.
    pub fn contains_key(&self, key: &str) -> (r: bool)
        ensures
            r == criteria_keys(self@).contains(key@),
    {
        let ghost keys = criteria_keys(self@);
        let mut i: usize = 0;
        while i < self.pairs.len()
            invariant
                i <= self.pairs@.len(),
                keys == criteria_keys(self@),
                forall|j: int| 0 <= j < i ==> #[trigger] keys[j] != key@,
            decreases self.pairs@.len() - i,
        {
            if text::same(self.pairs[i].0.as_str(), key) {
                assert(keys[i as int] == key@);
                return true;
            }
            i += 1;
        }
        false
    }

    /// The number of declared options.
    pub fn len(&self) -> (r: usize)
        ensures
            r == self@.len(),
    {
        self.pairs.len()
    }

    /// Whether no options were declared.
    pub fn is_empty(&self) -> (r: bool)
        ensures
            r == (self@.len() == 0),
    {
        self.pairs.len() == 0
    }
}

impl Default for Criteria {
    fn default() -> (r: Self)
        ensures
            r@ == Seq::<(Seq<char>, Seq<char>)>::empty(),
    {
        Criteria::new()
    }
}

impl Clone for Criteria {
    fn clone(&self) -> (r: Self)
        ensures
            r@ == self@,
    {
        let mut out: Vec<(String, String)> = Vec::new();
        let mut i: usize = 0;
        while i < self.pairs.len()
            invariant
                i <= self.pairs@.len(),
                out@.len() == i,
                forall|j: int|
                    0 <= j < i ==> (#[trigger] out@[j]).0@ == self.pairs@[j].0@ && out@[j].1@
                        == self.pairs@[j].1@,
            decreases self.pairs@.len() - i,
        {
            out.push((self.pairs[i].0.clone(), self.pairs[i].1.clone()));
            i += 1;
        }
        let r = Criteria { pairs: out };
        r
    }
}

impl Duplicate for Criteria {
    fn duplicate(&self) -> (r: Self) {
        self.clone()
    }
}

/// The members of the JSON object of a set of criteria: each description
/// under its key, a key declared twice at its first place with its last
/// description.
pub open spec fn criteria_members(pairs: Seq<(Seq<char>, Seq<char>)>) -> Seq<
    (Seq<char>, JsonTree),
>
    decreases pairs.len(),
{
    if pairs.len() == 0 {
        Seq::empty()
    } else {
        with_member(
            criteria_members(pairs.drop_last()),
            pairs.last().0,
            JsonTree::String(pairs.last().1),
        )
    }
}

/// The JSON array of a sequence of texts.
pub open spec fn text_array(items: Seq<Seq<char>>) -> JsonTree {
    JsonTree::Array(items.map_values(|s: Seq<char>| JsonTree::String(s)))
}

/// Distinct keys stand on the wire in declaration order, each with its own
/// description.
pub proof fn law_criteria_keep_declaration_order(pairs: Seq<(Seq<char>, Seq<char>)>)
    requires
        distinct_keys(pairs),
    ensures
        criteria_members(pairs) == pairs.map_values(
            |p: (Seq<char>, Seq<char>)| (p.0, JsonTree::String(p.1)),
        ),
    decreases pairs.len(),
{
    if pairs.len() > 0 {
        let front = pairs.drop_last();
        law_criteria_keep_declaration_order(front);
        let members = criteria_members(front);
        lemma_find_entry(members, pairs.last().0, members.len() as int);
    }
}

impl Criteria {
    /// The JSON object of the set, in declaration order.
    pub fn object(&self) -> (r: Json)
        ensures
            r@ == JsonTree::Object(criteria_members(self@)),
    {
        broadcast use Json::lemma_tree;

        let mut out = Object::new();
        let mut i: usize = 0;
        while i < self.pairs.len()
            invariant
                i <= self.pairs@.len(),
                out@ == criteria_members(self@.take(i as int)),
            decreases self.pairs@.len() - i,
        {
            proof {
                let next = self@.take(i + 1);
                assert(next.drop_last() =~= self@.take(i as int));
            }
            out.insert(self.pairs[i].0.clone(), Json::text(self.pairs[i].1.as_str()));
            i += 1;
        }
        assert(self@.take(i as int) =~= self@);
        Json::Object(out)
    }

    /// The JSON array of the keys, in declaration order.
    pub fn key_array(&self) -> (r: Json)
        ensures
            r@ == text_array(criteria_keys(self@)),
    {
        broadcast use Json::lemma_tree;

        let mut out: Vec<Json> = Vec::new();
        let mut i: usize = 0;
        while i < self.pairs.len()
            invariant
                i <= self.pairs@.len(),
                out@.len() == i,
                forall|j: int|
                    0 <= j < i ==> (#[trigger] out@[j])@ == JsonTree::String(self.pairs@[j].0@),
            decreases self.pairs@.len() - i,
        {
            out.push(Json::text(self.pairs[i].0.as_str()));
            i += 1;
        }
        assert(trees(out@) =~= criteria_keys(self@).map_values(|s: Seq<char>| JsonTree::String(s)));
        Json::Array(out)
    }
}

/// A question put to the decision model.
#[allow(inconsistent_fields)]
#[derive(Debug, PartialEq)]
pub enum Question {
    /// Pick exactly one of up to 255 named options.
    Choice {
        /// What the model is being asked to decide.
        instructions: String,
        /// Option key -> description. The keys are the answer alphabet.
        criteria: Criteria,
    },
    /// Rate the observation against an ordered rubric, low to high.
    Score {
        /// What the model is being asked to rate.
        instructions: String,
        /// Level key -> description, ascending. Only the keys go on the
        /// wire.
        criteria: Criteria,
    },
    /// A calibrated yes/no probability: the probability itself is the
    /// answer, not a threshold decision on top of it. Its wire tag is
    /// `boolean`.
    Noul {
        /// The proposition whose probability is wanted.
        instructions: String,
        /// Optional `true`/`false` framing hints, left off the wire when
        /// absent.
        criteria: Option<Criteria>,
    },
}

/// A [`Question`], with texts as sequences of characters.
#[allow(inconsistent_fields)]
pub enum QuestionView {
    /// See [`Question::Choice`].
    Choice {
        /// What is being decided.
        instructions: Seq<char>,
        /// The options.
        criteria: Seq<(Seq<char>, Seq<char>)>,
    },
    /// See [`Question::Score`].
    Score {
        /// What is being rated.
        instructions: Seq<char>,
        /// The levels.
        criteria: Seq<(Seq<char>, Seq<char>)>,
    },
    /// See [`Question::Noul`].
    Noul {
        /// The proposition.
        instructions: Seq<char>,
        /// The framing hints.
        criteria: Option<Seq<(Seq<char>, Seq<char>)>>,
    },
}

impl View for Question {
    type V = QuestionView;

    open spec fn view(&self) -> QuestionView {
        match self {
            Question::Choice { instructions, criteria } => QuestionView::Choice {
                instructions: instructions@,
                criteria: criteria@,
            },
            Question::Score { instructions, criteria } => QuestionView::Score {
                instructions: instructions@,
                criteria: criteria@,
            },
            Question::Noul { instructions, criteria } => QuestionView::Noul {
                instructions: instructions@,
                criteria: option_view(*criteria),
            },
        }
    }
}

/// The members of a question on the wire.
pub open spec fn question_members(
    tag: Seq<char>,
    instructions: Seq<char>,
    criteria: Option<JsonTree>,
) -> Seq<(Seq<char>, JsonTree)> {
    let always = seq![
        ("type"@, JsonTree::String(tag)),
        ("instructions"@, JsonTree::String(instructions)),
    ];
    match criteria {
        Some(tree) => always.push(("criteria"@, tree)),
        None => always,
    }
}

/// A question as it stands on the wire.
pub open spec fn question_tree(question: QuestionView) -> JsonTree {
    match question {
        QuestionView::Choice { instructions, criteria } => JsonTree::Object(
            question_members(
                "choice"@,
                instructions,
                Some(JsonTree::Object(criteria_members(criteria))),
            ),
        ),
        QuestionView::Score { instructions, criteria } => JsonTree::Object(
            question_members("score"@, instructions, Some(text_array(criteria_keys(criteria)))),
        ),
        QuestionView::Noul { instructions, criteria } => JsonTree::Object(
            question_members(
                "boolean"@,
                instructions,
                match criteria {
                    Some(pairs) => Some(JsonTree::Object(criteria_members(pairs))),
                    None => None,
                },
            ),
        ),
    }
}

impl Question {
    /// Builds a [`Question::Choice`].
    pub fn choice(instructions: &str, criteria: Criteria) -> (r: Self)
        ensures
            r@ == (QuestionView::Choice { instructions: instructions@, criteria: criteria@ }),
    {
        Question::Choice { instructions: instructions.to_owned(), criteria }
    }

    /// Builds a [`Question::Score`], its levels ascending.
    pub fn score(instructions: &str, criteria: Criteria) -> (r: Self)
        ensures
            r@ == (QuestionView::Score { instructions: instructions@, criteria: criteria@ }),
    {
        Question::Score { instructions: instructions.to_owned(), criteria }
    }

    /// Builds a [`Question::Noul`] with no framing hints.
    pub fn noul(instructions: &str) -> (r: Self)
        ensures
            r@ == (QuestionView::Noul { instructions: instructions@, criteria: None }),
    {
        Question::Noul { instructions: instructions.to_owned(), criteria: None }
    }

    /// Builds a [`Question::Noul`] with `true`/`false` framing hints.
    pub fn noul_with_context(instructions: &str, true_desc: &str, false_desc: &str) -> (r: Self)
        ensures
            r@ == (QuestionView::Noul {
                instructions: instructions@,
                criteria: Some(seq![("true"@, true_desc@), ("false"@, false_desc@)]),
            }),
    {
        let mut criteria = Criteria::new();
        criteria.push("true", true_desc).push("false", false_desc);
        assert(criteria@ =~= seq![("true"@, true_desc@), ("false"@, false_desc@)]);
        Question::Noul { instructions: instructions.to_owned(), criteria: Some(criteria) }
    }

    /// The option keys this question permits as an answer, for a choice.
    pub fn option_keys(&self) -> (r: Option<Vec<&str>>)
        ensures
            r is Some == (self@ is Choice),
            r matches Some(keys) ==> texts(keys@) == criteria_keys(self@->Choice_criteria),
    {
        match self {
            Question::Choice { criteria, .. } => Some(criteria.keys()),
            _ => None,
        }
    }

    /// The JSON value of the question, as it stands on the wire.
    pub fn wire(&self) -> (r: Json)
        ensures
            r@ == question_tree(self@),
    {
        match self {
            Question::Choice { instructions, criteria } => wire_record(
                "choice",
                instructions,
                Some(criteria.object()),
            ),
            Question::Score { instructions, criteria } => wire_record(
                "score",
                instructions,
                Some(criteria.key_array()),
            ),
            Question::Noul { instructions, criteria } => wire_record(
                "boolean",
                instructions,
                match criteria {
                    Some(pairs) => Some(pairs.object()),
                    None => None,
                },
            ),
        }
    }
}

fn wire_record(tag: &str, instructions: &String, criteria: Option<Json>) -> (r: Json)
    ensures
        r@ == JsonTree::Object(question_members(tag@, instructions@, option_view(criteria))),
{
    broadcast use Json::lemma_tree;

    proof {
        reveal_strlit("type");
        reveal_strlit("instructions");
        reveal_strlit("criteria");
        assert("type"@.len() == 4 && "instructions"@.len() == 12 && "criteria"@.len() == 8);
    }
    let ghost members = question_members(tag@, instructions@, option_view(criteria));
    let mut out = Object::new();
    out.put_new("type", Json::text(tag));
    out.put_new("instructions", Json::text(instructions.as_str()));
    if let Some(criteria) = criteria {
        out.put_new("criteria", criteria);
    }
    assert(out@ =~= members);
    Json::Object(out)
}

impl Clone for Question {
    fn clone(&self) -> (r: Self)
        ensures
            r@ == self@,
    {
        match self {
            Question::Choice { instructions, criteria } => Question::Choice {
                instructions: instructions.clone(),
                criteria: criteria.clone(),
            },
            Question::Score { instructions, criteria } => Question::Score {
                instructions: instructions.clone(),
                criteria: criteria.clone(),
            },
            Question::Noul { instructions, criteria } => Question::Noul {
                instructions: instructions.clone(),
                criteria: duplicate_option(criteria),
            },
        }
    }
}

impl Duplicate for Question {
    fn duplicate(&self) -> (r: Self) {
        self.clone()
    }
}

/// A typed answer to one question.
#[allow(inconsistent_fields)]
#[derive(Debug, PartialEq)]
pub enum Answer {
    /// One of the option keys the caller offered.
    Choice {
        /// The chosen option key.
        choice: String,
        /// Posterior over the offered option keys.
        probabilities: NameMap<Real>,
        /// How much to trust the choice, in `0.0..=1.0`.
        confidence: Real,
    },
    /// A rating against ordered levels. Its payload is kept as it came: a
    /// number or the key of a level.
    Score {
        /// Raw score payload as returned.
        score: Json,
        /// Posterior over levels, when present.
        probabilities: NameMap<Real>,
        /// Confidence, when present.
        confidence: Option<Real>,
    },
    /// A yes/no probability in `0.0..=1.0`. It carries no confidence: the
    /// probability is the answer.
    Noul {
        /// Probability that the proposition holds.
        noul: Real,
    },
}

/// An [`Answer`], with plain values for its parts.
#[allow(inconsistent_fields)]
pub enum AnswerView {
    /// See [`Answer::Choice`].
    Choice {
        /// The chosen key.
        choice: Seq<char>,
        /// The posterior.
        probabilities: Seq<(Seq<char>, u64)>,
        /// The confidence.
        confidence: u64,
    },
    /// See [`Answer::Score`].
    Score {
        /// The payload.
        score: JsonTree,
        /// The posterior.
        probabilities: Seq<(Seq<char>, u64)>,
        /// The confidence.
        confidence: Option<u64>,
    },
    /// See [`Answer::Noul`].
    Noul {
        /// The probability.
        noul: u64,
    },
}

impl View for Answer {
    type V = AnswerView;

    open spec fn view(&self) -> AnswerView {
        match self {
            Answer::Choice { choice, probabilities, confidence } => AnswerView::Choice {
                choice: choice@,
                probabilities: probabilities@,
                confidence: confidence@,
            },
            Answer::Score { score, probabilities, confidence } => AnswerView::Score {
                score: score@,
                probabilities: probabilities@,
                confidence: option_view(*confidence),
            },
            Answer::Noul { noul } => AnswerView::Noul { noul: noul@ },
        }
    }
}

/// The confidence that an answer carries.
pub open spec fn answer_confidence(answer: AnswerView) -> Option<u64> {
    match answer {
        AnswerView::Choice { confidence, .. } => Some(confidence),
        AnswerView::Score { confidence, .. } => confidence,
        AnswerView::Noul { .. } => None,
    }
}

/// The kind of an answer.
pub open spec fn answer_kind(answer: AnswerView) -> Kind {
    match answer {
        AnswerView::Choice { .. } => Kind::Choice,
        AnswerView::Score { .. } => Kind::Score,
        AnswerView::Noul { .. } => Kind::Noul,
    }
}

/// What a record keeps as the value of an answer: the chosen key, the JSON
/// text of a score, a probability with three decimals.
pub open spec fn answer_value(answer: AnswerView) -> Seq<char> {
    match answer {
        AnswerView::Choice { choice, .. } => choice,
        AnswerView::Score { score, .. } => json_text(score),
        AnswerView::Noul { noul } => shown_fixed_text(noul),
    }
}

/// What a record keeps as the confidence of an answer: the one it carries,
/// the probability of a yes/no answer, or zero.
pub open spec fn answer_recorded_confidence(answer: AnswerView) -> u64 {
    match answer {
        AnswerView::Choice { confidence, .. } => confidence,
        AnswerView::Score { confidence: Some(confidence), .. } => confidence,
        AnswerView::Score { confidence: None, .. } => 0,
        AnswerView::Noul { noul } => noul,
    }
}

impl Answer {
    /// The chosen option key, for a choice.
    pub fn choice(&self) -> (r: Option<&str>)
        ensures
            r is Some == (self@ is Choice),
            r matches Some(key) ==> key@ == self@->Choice_choice,
    {
        match self {
            Answer::Choice { choice, .. } => Some(choice.as_str()),
            _ => None,
        }
    }

    /// The reported confidence, where the kind of answer carries one.
    pub fn confidence(&self) -> (r: Option<Real>)
        ensures
            option_view(r) == answer_confidence(self@),
    {
        match self {
            Answer::Choice { confidence, .. } => Some(confidence.clone()),
            Answer::Score { confidence, .. } => duplicate_option(confidence),
            Answer::Noul { .. } => None,
        }
    }

    /// A score's value, when it came back as a plain number.
    pub fn score_as_f64(&self) -> (r: Option<Real>)
        ensures
            option_view(r) == match self@ {
                AnswerView::Score { score, .. } => real_of(score),
                _ => None,
            },
    {
        match self {
            Answer::Score { score, .. } => score.as_real(),
            _ => None,
        }
    }

    /// A yes/no answer's probability.
    pub fn noul(&self) -> (r: Option<Real>)
        ensures
            option_view(r) == match self@ {
                AnswerView::Noul { noul } => Some(noul),
                _ => None,
            },
    {
        match self {
            Answer::Noul { noul } => Some(noul.clone()),
            _ => None,
        }
    }

    /// The kind of the answer, for a trace.
    pub fn kind(&self) -> (r: Kind)
        ensures
            r == answer_kind(self@),
    {
        match self {
            Answer::Choice { .. } => Kind::Choice,
            Answer::Score { .. } => Kind::Score,
            Answer::Noul { .. } => Kind::Noul,
        }
    }

    /// The value worth recording in a trace.
    pub fn recorded_value(&self) -> (r: String)
        ensures
            r@ == answer_value(self@),
    {
        match self {
            Answer::Choice { choice, .. } => choice.clone(),
            Answer::Score { score, .. } => json::render(score),
            Answer::Noul { noul } => noul.fixed_text(),
        }
    }

    /// The confidence worth recording in a trace.
    pub fn recorded_confidence(&self) -> (r: Real)
        ensures
            r@ == answer_recorded_confidence(self@),
    {
        match self {
            Answer::Choice { confidence, .. } => confidence.clone(),
            Answer::Score { confidence: Some(confidence), .. } => confidence.clone(),
            Answer::Score { confidence: None, .. } => Real::zero(),
            Answer::Noul { noul } => noul.clone(),
        }
    }
}

impl Clone for Answer {
    fn clone(&self) -> (r: Self)
        ensures
            r@ == self@,
    {
        match self {
            Answer::Choice { choice, probabilities, confidence } => Answer::Choice {
                choice: choice.clone(),
                probabilities: probabilities.clone(),
                confidence: confidence.clone(),
            },
            Answer::Score { score, probabilities, confidence } => Answer::Score {
                score: score.clone(),
                probabilities: probabilities.clone(),
                confidence: duplicate_option(confidence),
            },
            Answer::Noul { noul } => Answer::Noul { noul: noul.clone() },
        }
    }
}

impl Duplicate for Answer {
    fn duplicate(&self) -> (r: Self) {
        self.clone()
    }
}

/// The doubles of the members of an object, where every one is a number.
pub open spec fn member_reals(members: Seq<(Seq<char>, JsonTree)>) -> Seq<(Seq<char>, u64)> {
    members.map_values(|m: (Seq<char>, JsonTree)| (m.0, real_of(m.1).unwrap_or(0)))
}

/// A map from names to doubles, as a JSON value holds it: absent, it is
/// empty.
pub open spec fn reals_of(tree: Option<JsonTree>) -> Option<Seq<(Seq<char>, u64)>> {
    match tree {
        None => Some(Seq::empty()),
        Some(JsonTree::Object(members)) => if forall|i: int|
            0 <= i < members.len() ==> real_of((#[trigger] members[i]).1) is Some {
            Some(with_entries(Seq::empty(), member_reals(members)))
        } else {
            None
        },
        Some(_) => None,
    }
}

/// A double, where a JSON value holds one; absent or `null`, there is none.
pub open spec fn optional_real(tree: Option<JsonTree>) -> Option<Option<u64>> {
    match tree {
        None => Some(None),
        Some(tree) => match real_of(tree) {
            Some(bits) => Some(Some(bits)),
            None => None,
        },
    }
}

/// The answer that a JSON value without a fault holds: the field `type` says
/// which kind it is.
pub open spec fn tagged_answer(tree: JsonTree) -> AnswerView {
    let tag = string_of(field(tree, 0, "type"@)->0)->0;
    let probabilities = reals_of(field(tree, 2, "probabilities"@))->0;
    if tag == "choice"@ {
        AnswerView::Choice {
            choice: string_of(field(tree, 1, "choice"@)->0)->0,
            probabilities,
            confidence: real_of(field(tree, 3, "confidence"@)->0)->0,
        }
    } else if tag == "score"@ {
        AnswerView::Score {
            score: field(tree, 1, "score"@)->0,
            probabilities,
            confidence: optional_real(optional_field(tree, 3, "confidence"@))->0,
        }
    } else {
        AnswerView::Noul { noul: real_of(field(tree, 1, "probability"@)->0)->0 }
    }
}

/// The answer that a JSON value holds, or what is wrong with it. Members of an
/// object that are no field of the answer are passed over.
pub open spec fn answer_of(tree: JsonTree) -> Result<AnswerView, Seq<char>> {
    match answer_fault(tree) {
        Some(words) => Err(words),
        None => Ok(tagged_answer(tree)),
    }
}

/// A map from names to doubles without a fault can be read.
pub proof fn lemma_reals_can_be_read(tree: Option<JsonTree>)
    requires
        tree matches Some(value) ==> value_fault(value, FieldType::Reals) is None,
    ensures
        reals_of(tree) is Some,
{
    if let Some(JsonTree::Object(members)) = tree {
        lemma_reals_fit(members, 0);
    }
}

/// Reads a map from names to doubles.
pub(crate) fn reals(json: Option<&Json>) -> (r: Option<NameMap<Real>>)
    ensures
        option_view(r) == reals_of(
            match json {
                Some(j) => Some(j@),
                None => None,
            },
        ),
{
    let value = match json {
        Some(v) => v,
        None => {
            return Some(NameMap::new());
        },
    };
    let object = match value.as_object() {
        Some(o) => o,
        None => {
            return None;
        },
    };
    let ghost listed = member_reals(object@);
    let mut out: NameMap<Real> = NameMap::new();
    let mut i: usize = 0;
    while i < object.len()
        invariant
            i <= object@.len(),
            json == Some(value),
            value@ == JsonTree::Object(object@),
            listed == member_reals(object@),
            forall|j: int| 0 <= j < i ==> real_of((#[trigger] object@[j]).1) is Some,
            out@ == with_entries(Seq::empty(), listed.take(i as int)),
        decreases object@.len() - i,
    {
        match object.value(i).as_real() {
            Some(x) => {
                proof {
                    let next = listed.take(i + 1);
                    assert(next.drop_last() =~= listed.take(i as int));
                }
                out.insert(object.key(i).to_owned(), x);
            },
            None => {
                return None;
            },
        }
        i += 1;
    }
    assert(listed.take(i as int) =~= listed);
    Some(out)
}

/// Reads a map from names to doubles that has no fault.
pub(crate) fn reals_at(json: &Json, place: usize, name: &str) -> (r: NameMap<Real>)
    requires
        field(json@, place as int, name@) matches Some(value) ==> value_fault(
            value,
            FieldType::Reals,
        ) is None,
    ensures
        reals_of(field(json@, place as int, name@)) == Some(r@),
{
    proof {
        lemma_reals_can_be_read(field(json@, place as int, name@));
    }
    match reals(fields::get_field(json, place, name)) {
        Some(map) => map,
        None => NameMap::new(),
    }
}

impl Answer {
    /// Reads the answer that a JSON value holds.
    pub fn decode(json: &Json) -> (r: Result<Answer, String>)
        ensures
            result_view(r) == answer_of(json@),
    {
        let shape = match shape::answer_shape(json) {
            Ok(shape) => shape,
            Err(words) => {
                return Err(words);
            },
        };
        proof {
            reveal_strlit("choice");
            reveal_strlit("score");
            reveal_strlit("boolean");
            assert("choice"@.len() == 6 && "score"@.len() == 5 && "boolean"@.len() == 7);
            lemma_field_fits(json@, shape, 0);
            if shape != Shape::Noul {
                lemma_field_fits(json@, shape, 1);
                lemma_field_fits(json@, shape, 2);
            }
        }
        match shape {
            Shape::Choice => Ok(
                Answer::Choice {
                    choice: fields::text_at(json, 1, "choice"),
                    probabilities: reals_at(json, 2, "probabilities"),
                    confidence: fields::real_at(json, 3, "confidence"),
                },
            ),
            Shape::Score => {
                let score = match fields::get_field(json, 1, "score") {
                    Some(score) => score.clone(),
                    None => Json::Null,
                };
                let confidence = match fields::get_optional(json, 3, "confidence") {
                    Some(value) => value.as_real(),
                    None => None,
                };
                Ok(
                    Answer::Score {
                        score,
                        probabilities: reals_at(json, 2, "probabilities"),
                        confidence,
                    },
                )
            },
            _ => Ok(Answer::Noul { noul: fields::real_at(json, 1, "probability") }),
        }
    }
}

/// Token accounting returned alongside the answers.
#[derive(Clone, Copy, Debug, PartialEq, Eq, Structural)]
pub struct Usage {
    /// Tokens consumed by the observation and questions.
    pub input_tokens: u64,
    /// Tokens generated. Typically `0`: nothing is written, only decided.
    pub output_tokens: u64,
}

impl Default for Usage {
    fn default() -> (r: Self)
        ensures
            r == (Usage { input_tokens: 0, output_tokens: 0 }),
    {
        Usage { input_tokens: 0, output_tokens: 0 }
    }
}

impl Usage {
    /// Adds another count to this one.
    pub fn accumulate(&mut self, other: &Usage)
        requires
            old(self).input_tokens + other.input_tokens <= u64::MAX,
            old(self).output_tokens + other.output_tokens <= u64::MAX,
        ensures
            final(self).input_tokens == old(self).input_tokens + other.input_tokens,
            final(self).output_tokens == old(self).output_tokens + other.output_tokens,
    {
        self.input_tokens = self.input_tokens + other.input_tokens;
        self.output_tokens = self.output_tokens + other.output_tokens;
    }

    /// Reads the count that a JSON value holds, if it holds one.
    pub fn decode(json: &Json) -> (r: Option<Usage>)
        ensures
            r == usage_of(json@),
    {
        if !fields::fits(json, 2) {
            return None;
        }
        match (
            count_field(json, 0, "input_tokens", "inputTokens"),
            count_field(json, 1, "output_tokens", "outputTokens"),
        ) {
            (Some(input_tokens), Some(output_tokens)) => Some(
                Usage { input_tokens, output_tokens },
            ),
            _ => None,
        }
    }
}

/// The count in a field that goes by either of two names: zero where it is
/// absent, none where it is no count or is given under both names.
pub open spec fn count_of(
    tree: JsonTree,
    place: int,
    name: Seq<char>,
    alias: Seq<char>,
) -> Option<u64> {
    if tree is Object && field(tree, place, name) is Some && field(tree, place, alias) is Some {
        None
    } else if field(tree, place, name) is Some {
        unsigned_of(field(tree, place, name)->0)
    } else if field(tree, place, alias) is Some {
        unsigned_of(field(tree, place, alias)->0)
    } else {
        Some(0)
    }
}

/// The count that a JSON value holds. A gateway may report either spelling of
/// a field.
pub open spec fn usage_of(tree: JsonTree) -> Option<Usage> {
    let input = count_of(tree, 0, "input_tokens"@, "inputTokens"@);
    let output = count_of(tree, 1, "output_tokens"@, "outputTokens"@);
    if is_record(tree, 2) && input is Some && output is Some {
        Some(Usage { input_tokens: input->0, output_tokens: output->0 })
    } else {
        None
    }
}

fn count_field(json: &Json, place: usize, name: &str, alias: &str) -> (r: Option<u64>)
    ensures
        r == count_of(json@, place as int, name@, alias@),
{
    let named = fields::get_field(json, place, name);
    let other = fields::get_field(json, place, alias);
    match (named, other) {
        (Some(v), Some(_)) => if json.as_object().is_some() {
            None
        } else {
            v.as_unsigned()
        },
        (Some(v), None) => v.as_unsigned(),
        (None, Some(v)) => v.as_unsigned(),
        (None, None) => Some(0),
    }
}

/// An answer carries a confidence unless it is a yes/no answer or a score that
/// came without one; a record keeps the one that is carried, and falls back to
/// the probability or to zero only where there is none.
pub proof fn law_carried_confidence_is_the_recorded_one(answer: AnswerView)
    ensures
        answer matches AnswerView::Choice { confidence, .. } ==> answer_confidence(answer) == Some(
            confidence,
        ),
        answer matches AnswerView::Score { confidence, .. } ==> answer_confidence(answer)
            == confidence,
        answer is Noul ==> answer_confidence(answer) is None,
        answer_confidence(answer) matches Some(c) ==> answer_recorded_confidence(answer) == c,
        answer matches AnswerView::Noul { noul } ==> answer_recorded_confidence(answer) == noul,
        answer is Score && answer_confidence(answer) is None ==> answer_recorded_confidence(answer)
            == 0,
{
}

/// The answer alphabet of a question is the keys of its criteria, in the order
/// of their declaration.
pub proof fn law_alphabet_is_the_declared_keys(pairs: Seq<(Seq<char>, Seq<char>)>)
    ensures
        criteria_keys(pairs).len() == pairs.len(),
        forall|i: int|
            0 <= i < pairs.len() ==> #[trigger] criteria_keys(pairs)[i] == pairs[i].0,
        text_array(criteria_keys(pairs)) matches JsonTree::Array(items) && items.len()
            == pairs.len() && forall|i: int|
            0 <= i < pairs.len() ==> #[trigger] items[i] == JsonTree::String(pairs[i].0),
{
}

/// On the wire a question has its tag, its instructions and its criteria, in
/// this order: an object of described options, an array of levels, or the
/// framing hints where there are any.
pub proof fn law_question_on_the_wire(question: QuestionView)
    ensures
        question matches QuestionView::Choice { instructions, criteria } ==> distinct_keys(criteria)
            ==> question_tree(question) == JsonTree::Object(
            seq![
                ("type"@, JsonTree::String("choice"@)),
                ("instructions"@, JsonTree::String(instructions)),
                (
                    "criteria"@,
                    JsonTree::Object(
                        Seq::new(
                            criteria.len(),
                            |i: int| (criteria[i].0, JsonTree::String(criteria[i].1)),
                        ),
                    ),
                ),
            ],
        ),
        question matches QuestionView::Score { instructions, criteria } ==> question_tree(question)
            == JsonTree::Object(
            seq![
                ("type"@, JsonTree::String("score"@)),
                ("instructions"@, JsonTree::String(instructions)),
                (
                    "criteria"@,
                    JsonTree::Array(
                        Seq::new(criteria.len(), |i: int| JsonTree::String(criteria[i].0)),
                    ),
                ),
            ],
        ),
        question matches QuestionView::Noul { instructions, criteria: None } ==> question_tree(
            question,
        ) == JsonTree::Object(
            seq![
                ("type"@, JsonTree::String("boolean"@)),
                ("instructions"@, JsonTree::String(instructions)),
            ],
        ),
        question matches QuestionView::Noul { instructions, criteria: Some(criteria) }
            ==> distinct_keys(criteria) ==> question_tree(question) == JsonTree::Object(
            seq![
                ("type"@, JsonTree::String("boolean"@)),
                ("instructions"@, JsonTree::String(instructions)),
                (
                    "criteria"@,
                    JsonTree::Object(
                        Seq::new(
                            criteria.len(),
                            |i: int| (criteria[i].0, JsonTree::String(criteria[i].1)),
                        ),
                    ),
                ),
            ],
        ),
{
    let members = question_tree(question)->Object_0;
    match question {
        QuestionView::Choice { instructions, criteria } => {
            if distinct_keys(criteria) {
                law_criteria_keep_declaration_order(criteria);
                assert(criteria_members(criteria) =~= Seq::new(
                    criteria.len(),
                    |i: int| (criteria[i].0, JsonTree::String(criteria[i].1)),
                ));
                assert(members =~= seq![members[0], members[1], members[2]]);
            }
        },
        QuestionView::Score { instructions, criteria } => {
            assert(text_array(criteria_keys(criteria))->Array_0 =~= Seq::new(
                criteria.len(),
                |i: int| JsonTree::String(criteria[i].0),
            ));
            assert(members =~= seq![members[0], members[1], members[2]]);
        },
        QuestionView::Noul { instructions, criteria: Some(criteria) } => {
            if distinct_keys(criteria) {
                law_criteria_keep_declaration_order(criteria);
                assert(criteria_members(criteria) =~= Seq::new(
                    criteria.len(),
                    |i: int| (criteria[i].0, JsonTree::String(criteria[i].1)),
                ));
                assert(members =~= seq![members[0], members[1], members[2]]);
            }
        },
        QuestionView::Noul { instructions, criteria: None } => {},
    }
}

/// An object of numbers is read number by number, each under its own name; a
/// value that is absent is read as none.
pub proof fn law_posterior_is_read_by_name(members: Seq<(Seq<char>, JsonTree)>, name: Seq<char>)
    requires
        distinct_keys(members),
    ensures
        reals_of(None) == Some(Seq::<(Seq<char>, u64)>::empty()),
        reals_of(Some(JsonTree::Object(members))) is Some <==> forall|i: int|
            0 <= i < members.len() ==> (#[trigger] members[i]).1 is Number,
        reals_of(Some(JsonTree::Object(members))) matches Some(reals) ==> match lookup(
            members,
            name,
        ) {
            Some(value) => lookup(reals, name) == real_of(value),
            None => lookup(reals, name) is None,
        },
{
    let listed = member_reals(members);
    law_entries_are_read_back(Seq::<(Seq<char>, u64)>::empty(), listed, name);
    lemma_found_entry(members, name);
    let at = find_entry(members, name);
    if forall|i: int| 0 <= i < members.len() ==> real_of((#[trigger] members[i]).1) is Some {
        if at < members.len() {
            assert(listed[at].0 == name);
            assert forall|j: int| at < j < listed.len() implies (#[trigger] listed[j]).0 != name by {
                assert(members[at].0 != members[j].0);
            }
        } else {
            assert forall|i: int| 0 <= i < listed.len() implies (#[trigger] listed[i]).0 != name by {
                assert(members[i].0 != name);
            }
        }
    }
    if forall|i: int| 0 <= i < members.len() ==> (#[trigger] members[i]).1 is Number {
        assert forall|i: int| 0 <= i < members.len() implies real_of((#[trigger] members[i]).1)
            is Some by {
            assert(members[i].1 is Number);
        }
    }
    if forall|i: int| 0 <= i < members.len() ==> real_of((#[trigger] members[i]).1) is Some {
        assert forall|i: int| 0 <= i < members.len() implies (#[trigger] members[i]).1
            is Number by {
            assert(real_of(members[i].1) is Some);
        }
    }
}

proof fn lemma_reals_fit_or_not(value: JsonTree)
    ensures
        value_fault(value, FieldType::Reals) is None <==> (value is Object && forall|i: int|
            0 <= i < value->Object_0.len() ==> (#[trigger] value->Object_0[i]).1 is Number),
{
    if let JsonTree::Object(members) = value {
        lemma_reals_fit(members, 0);
        if reals_fault(members, 0) is None {
            assert forall|i: int| 0 <= i < value->Object_0.len() implies (
            #[trigger] value->Object_0[i]).1 is Number by {
                assert(real_of(members[i].1) is Some);
            }
        }
        if forall|i: int|
            0 <= i < value->Object_0.len() ==> (#[trigger] value->Object_0[i]).1 is Number {
            assert forall|i: int| 0 <= i < members.len() implies real_of((#[trigger] members[i]).1)
                is Some by {
                assert(value->Object_0[i].1 is Number);
            }
        }
    }
}

/// Whether a value is absent, or an object of nothing but numbers.
pub open spec fn absent_or_numbers(value: Option<JsonTree>) -> bool {
    match value {
        None => true,
        Some(JsonTree::Object(members)) => forall|i: int|
            0 <= i < members.len() ==> (#[trigger] members[i]).1 is Number,
        Some(_) => false,
    }
}

/// An object whose fields hold what they should, and that has every field it has
/// to have, has no fault.
pub proof fn lemma_object_fits(members: Seq<(Seq<char>, JsonTree)>, shape: Shape)
    requires
        distinct_keys(members),
        forall|k: int|
            #![trigger field_name(shape, k)]
            0 <= k < field_count(shape) ==> match lookup(members, field_name(shape, k)) {
                Some(value) => value_fault(value, field_type(shape, k)) is None,
                None => !field_required(shape, k),
            },
    ensures
        record_fault(JsonTree::Object(members), shape) is None,
{
    reveal_with_fuel(find_field, 6);
    reveal_with_fuel(absent_fault, 6);
    assert forall|i: int| 0 <= i < members.len() implies (find_field(
        shape,
        (#[trigger] members[i]).0,
        0,
    ) matches Some(k) ==> value_fault(members[i].1, field_type(shape, k)) is None) by {
        law_member_is_found_by_its_key(members, i);
        if let Some(k) = find_field(shape, members[i].0, 0) {
            assert(field_name(shape, k) == members[i].0);
        }
    }
    lemma_members_fit(members, shape, 0);
    assert(absent_fault(members, shape, 0) is None) by {
        let a = field_name(shape, 0);
        let b = field_name(shape, 1);
        let c = field_name(shape, 2);
        let d = field_name(shape, 3);
        let e = field_name(shape, 4);
    }
}

/// An object tagged `choice` is an answer exactly where `choice` is a string,
/// `confidence` a number and `probabilities` absent or an object of numbers;
/// the answer holds these three.
pub proof fn law_choice_is_read_from_its_members(members: Seq<(Seq<char>, JsonTree)>)
    requires
        distinct_keys(members),
        lookup(members, "type"@) == Some(JsonTree::String("choice"@)),
    ensures
        answer_of(JsonTree::Object(members)) is Ok <==> {
            &&& lookup(members, "choice"@) matches Some(JsonTree::String(_))
            &&& lookup(members, "confidence"@) matches Some(JsonTree::Number(_))
            &&& absent_or_numbers(lookup(members, "probabilities"@))
        },
        answer_of(JsonTree::Object(members)) matches Ok(answer) ==> {
            &&& answer matches AnswerView::Choice { choice, probabilities, confidence }
            &&& lookup(members, "choice"@) == Some(JsonTree::String(choice))
            &&& lookup(members, "confidence"@) matches Some(JsonTree::Number(kind))
            &&& confidence == real_bits(kind)
            &&& reals_of(lookup(members, "probabilities"@)) == Some(probabilities)
        },
{
    let tree = JsonTree::Object(members);
    lemma_answer_words();
    if lookup(members, "probabilities"@) is Some {
        lemma_reals_fit_or_not(lookup(members, "probabilities"@)->0);
    }
    if record_fault(tree, Shape::Choice) is None {
        lemma_field_fits(tree, Shape::Choice, 0);
        lemma_field_fits(tree, Shape::Choice, 1);
        lemma_field_fits(tree, Shape::Choice, 2);
        lemma_reals_can_be_read(lookup(members, "probabilities"@));
    }
    if {
        &&& lookup(members, "choice"@) matches Some(JsonTree::String(_))
        &&& lookup(members, "confidence"@) matches Some(JsonTree::Number(_))
        &&& absent_or_numbers(lookup(members, "probabilities"@))
    } {
        lemma_object_fits(members, Shape::Choice);
    }
}

/// An object tagged `score` is an answer exactly where `score` is there,
/// `confidence` is absent, `null` or a number and `probabilities` absent or an
/// object of numbers; the answer holds these three.
pub proof fn law_score_is_read_from_its_members(members: Seq<(Seq<char>, JsonTree)>)
    requires
        distinct_keys(members),
        lookup(members, "type"@) == Some(JsonTree::String("score"@)),
    ensures
        answer_of(JsonTree::Object(members)) is Ok <==> {
            &&& lookup(members, "score"@) is Some
            &&& lookup(members, "confidence"@) matches Some(value) ==> value is Number || value
                is Null
            &&& absent_or_numbers(lookup(members, "probabilities"@))
        },
        answer_of(JsonTree::Object(members)) matches Ok(answer) ==> {
            &&& answer matches AnswerView::Score { score, probabilities, confidence }
            &&& lookup(members, "score"@) == Some(score)
            &&& confidence == match lookup(members, "confidence"@) {
                Some(JsonTree::Number(kind)) => Some(real_bits(kind)),
                _ => None,
            }
            &&& reals_of(lookup(members, "probabilities"@)) == Some(probabilities)
        },
{
    let tree = JsonTree::Object(members);
    lemma_answer_words();
    if lookup(members, "probabilities"@) is Some {
        lemma_reals_fit_or_not(lookup(members, "probabilities"@)->0);
    }
    if record_fault(tree, Shape::Score) is None {
        lemma_field_fits(tree, Shape::Score, 0);
        lemma_field_fits(tree, Shape::Score, 1);
        lemma_field_fits(tree, Shape::Score, 2);
        lemma_reals_can_be_read(lookup(members, "probabilities"@));
    }
    if {
        &&& lookup(members, "score"@) is Some
        &&& lookup(members, "confidence"@) matches Some(value) ==> value is Number || value is Null
        &&& absent_or_numbers(lookup(members, "probabilities"@))
    } {
        lemma_object_fits(members, Shape::Score);
    }
}

/// An object tagged `boolean` is an answer exactly where `probability` is a
/// number, which is the answer.
pub proof fn law_yes_or_no_is_read_from_its_members(members: Seq<(Seq<char>, JsonTree)>)
    requires
        distinct_keys(members),
        lookup(members, "type"@) == Some(JsonTree::String("boolean"@)),
    ensures
        answer_of(JsonTree::Object(members)) is Ok <==> (lookup(members, "probability"@)
            matches Some(JsonTree::Number(_))),
        lookup(members, "probability"@) matches Some(JsonTree::Number(kind)) ==> answer_of(
            JsonTree::Object(members),
        ) == Ok::<AnswerView, Seq<char>>(AnswerView::Noul { noul: real_bits(kind) }),
{
    let tree = JsonTree::Object(members);
    lemma_answer_words();
    if record_fault(tree, Shape::Noul) is None {
        lemma_field_fits(tree, Shape::Noul, 0);
    }
    if lookup(members, "probability"@) matches Some(JsonTree::Number(_)) {
        lemma_object_fits(members, Shape::Noul);
    }
}

/// No value is an answer but an object or an array, and of these only one whose
/// tag is `choice`, `score` or `boolean`.
pub proof fn law_answer_has_one_of_three_tags(tree: JsonTree)
    ensures
        answer_of(tree) is Ok ==> {
            &&& tree is Object || tree is Array
            &&& field(tree, 0, "type"@) matches Some(JsonTree::String(tag)) && (tag == "choice"@
                || tag == "score"@ || tag == "boolean"@)
        },
        tree is Object && field(tree, 0, "type"@) is None ==> answer_of(tree) == Err::<
            AnswerView,
            Seq<char>,
        >("missing field `"@ + "type"@ + "`"@),
{
}

/// An array is an answer where its first item is the tag and the fields follow
/// in their order.
pub proof fn law_answer_may_be_an_array(tag: JsonTree, a: JsonTree, b: JsonTree, c: JsonTree)
    ensures
        tag == JsonTree::String("boolean"@) && a is Number ==> answer_of(
            JsonTree::Array(seq![tag, a]),
        ) == Ok::<AnswerView, Seq<char>>(AnswerView::Noul { noul: real_of(a)->0 }),
        tag == JsonTree::String("choice"@) && a is String && absent_or_numbers(Some(b)) && c
            is Number ==> answer_of(JsonTree::Array(seq![tag, a, b, c])) == Ok::<
            AnswerView,
            Seq<char>,
        >(
            AnswerView::Choice {
                choice: a->String_0,
                probabilities: reals_of(Some(b))->0,
                confidence: real_of(c)->0,
            },
        ),
        tag == JsonTree::String("score"@) && absent_or_numbers(Some(b)) && c is Number
            ==> answer_of(JsonTree::Array(seq![tag, a, b, c])) == Ok::<AnswerView, Seq<char>>(
            AnswerView::Score {
                score: a,
                probabilities: reals_of(Some(b))->0,
                confidence: Some(real_of(c)->0),
            },
        ),
{
    lemma_answer_words();
    lemma_reals_fit_or_not(b);
    let items = seq![tag, a, b, c];
    assert(items_fault(items, Shape::Choice, 3) is None);
    assert(items_fault(items, Shape::Score, 3) is None);
    if absent_or_numbers(Some(b)) && c is Number {
        assert(value_fault(items[3], FieldType::Number) is None);
        assert(value_fault(items[3], FieldType::OptionalNumber) is None);
        assert(value_fault(items[2], FieldType::Reals) is None);
        assert(value_fault(items[1], FieldType::Any) is None);
        assert(a is String ==> value_fault(items[1], FieldType::Text) is None);
        assert(items_fault(items, Shape::Choice, 2) is None);
        assert(items_fault(items, Shape::Score, 2) is None);
        assert(items_fault(items, Shape::Choice, 1) is None);
        assert(items_fault(items, Shape::Score, 1) is None);
    }
    let pair = seq![tag, a];
    assert(items_fault(pair, Shape::Noul, 1) is None);
    assert(a is Number ==> value_fault(pair[1], FieldType::Number) is None);
}

proof fn lemma_answer_words()
    ensures
        "choice"@ != "score"@,
        "choice"@ != "boolean"@,
        "score"@ != "boolean"@,
{
    reveal_strlit("choice");
    reveal_strlit("score");
    reveal_strlit("boolean");
    assert("choice"@.len() == 6 && "score"@.len() == 5 && "boolean"@.len() == 7);
}

/// A count is read under either spelling of its name, is zero where it is under
/// neither, and is none where it is under both or is no integer from zero up.
pub proof fn law_tokens_are_counted_under_either_spelling(members: Seq<(Seq<char>, JsonTree)>)
    ensures
        ({
            let usage = usage_of(JsonTree::Object(members));
            let count = |name: Seq<char>, alias: Seq<char>, n: u64|
                match (lookup(members, name), lookup(members, alias)) {
                    (None, None) => n == 0,
                    (Some(value), None) => value == JsonTree::Number(NumberKind::PosInt(n)),
                    (None, Some(value)) => value == JsonTree::Number(NumberKind::PosInt(n)),
                    (Some(_), Some(_)) => false,
                };
            forall|input: u64, output: u64|
                usage == Some(#[trigger] counted(input, output)) <==> {
                    &&& count("input_tokens"@, "inputTokens"@, input)
                    &&& count("output_tokens"@, "outputTokens"@, output)
                }
        }),
{
    let usage = usage_of(JsonTree::Object(members));
    let a = lookup(members, "input_tokens"@);
    let b = lookup(members, "inputTokens"@);
    let c = lookup(members, "output_tokens"@);
    let d = lookup(members, "outputTokens"@);
}

/// So many tokens consumed and so many generated.
pub open spec fn counted(input_tokens: u64, output_tokens: u64) -> Usage {
    Usage { input_tokens, output_tokens }
}

/// A key that is declared again keeps its first place on the wire and has its
/// last description; a new one comes last.
pub proof fn law_repeated_key_keeps_its_first_place(
    pairs: Seq<(Seq<char>, Seq<char>)>,
    key: Seq<char>,
    description: Seq<char>,
    other: Seq<char>,
)
    ensures
        criteria_members(Seq::<(Seq<char>, Seq<char>)>::empty()).len() == 0,
        ({
            let before = criteria_members(pairs);
            let after = criteria_members(pairs.push((key, description)));
            &&& distinct_keys(after)
            &&& lookup(after, key) == Some(JsonTree::String(description))
            &&& other != key ==> lookup(after, other) == lookup(before, other)
            &&& forall|i: int|
                0 <= i < before.len() ==> (#[trigger] after[i]).0 == before[i].0
            &&& after.len() == before.len() + if lookup(before, key) is None {
                1int
            } else {
                0
            }
        }),
{
    let all = pairs.push((key, description));
    assert(all.drop_last() =~= pairs);
    lemma_criteria_distinct(pairs);
    let value = JsonTree::String(description);
    law_member_keeps_its_place(criteria_members(pairs), key, value);
    law_member_is_read_back(criteria_members(pairs), key, value, key);
    law_member_is_read_back(criteria_members(pairs), key, value, other);
}

proof fn lemma_criteria_distinct(pairs: Seq<(Seq<char>, Seq<char>)>)
    ensures
        distinct_keys(criteria_members(pairs)),
    decreases pairs.len(),
{
    if pairs.len() > 0 {
        lemma_criteria_distinct(pairs.drop_last());
        law_member_keeps_its_place(
            criteria_members(pairs.drop_last()),
            pairs.last().0,
            JsonTree::String(pairs.last().1),
        );
    }
}

/// In an array the counts stand by place, and one that is absent is zero.
pub proof fn law_tokens_may_stand_in_an_array(items: Seq<JsonTree>, input: u64, output: u64)
    ensures
        usage_of(JsonTree::Array(items)) == Some(counted(input, output)) <==> {
            &&& items.len() <= 2
            &&& if items.len() > 0 {
                items[0] == JsonTree::Number(NumberKind::PosInt(input))
            } else {
                input == 0
            }
            &&& if items.len() > 1 {
                items[1] == JsonTree::Number(NumberKind::PosInt(output))
            } else {
                output == 0
            }
        },
        forall|tree: JsonTree| !(tree is Object) && !(tree is Array) ==> #[trigger] usage_of(tree)
            is None,
{
}

/// An answer that is none is refused in the words of its fault.
pub proof fn law_faulty_answer_is_refused_in_its_words(tree: JsonTree)
    ensures
        answer_fault(tree) matches Some(words) ==> answer_of(tree) == Err::<AnswerView, Seq<char>>(
            words,
        ),
        answer_fault(tree) is None ==> answer_of(tree) is Ok,
{
}

} // verus!
