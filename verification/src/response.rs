//! Reading a decision response, whoever delivered it.
//!
//! A `choice` or `score` answer may report its confidence out of band, under
//! `providerMetadata.typesafe.confidence.<name>`. It is moved in before the
//! answer is read, where the answer does not carry one itself.
use crate::client::{outcome_of, Decided, Outcome, OutcomeView};
use crate::error::{self, truncated, Error, ErrorView};
use crate::fields::{self, field, optional_field};
use crate::json::{
    self, distinct_keys, json_read, json_text, law_member_is_found_by_its_key,
    law_member_is_read_back, law_member_keeps_its_place, member, real_of, real_tree, string_of,
    with_member, Json, JsonTree, Object,
};
use crate::names::{
    ascending, find_entry, law_entries_are_read_back, law_entry_keeps_order, lemma_entry_at_end,
    lemma_find_entry, lemma_found_entry, lookup, option_view, result_view, with_entries, NameMap,
};
use crate::number::{is_finite_bits, Real};
use crate::question::{
    self, absent_or_numbers, answer_of, law_choice_is_read_from_its_members,
    law_posterior_is_read_by_name, law_score_is_read_from_its_members, lemma_object_fits, reals_of,
    usage_of, Answer, AnswerView, Usage,
};
use crate::shape::{
    self, absent_fault, items_fault, lemma_field_found, members_fault, record_fault, Shape,
};
use crate::text::{self, lemma_text_order_total};
use vstd::prelude::*;

verus! {

broadcast use vstd::string::group_string_axioms;

/// The message of an error value: a string, or the string under `message`.
pub open spec fn error_words(error: JsonTree) -> Option<Seq<char>> {
    match error {
        JsonTree::String(words) => Some(words),
        _ => match member(error, "message"@) {
            Some(message) => string_of(message),
            None => None,
        },
    }
}

/// The error message in a response body: that of the value under `error`.
pub open spec fn error_message(body: JsonTree) -> Option<Seq<char>> {
    match member(body, "error"@) {
        Some(error) => error_words(error),
        None => None,
    }
}

fn words_of(error: &Json) -> (r: Option<String>)
    ensures
        option_view(r) == error_words(error@),
{
    match error.as_str() {
        Some(words) => Some(words.to_owned()),
        None => match error.get("message") {
            Some(message) => match message.as_str() {
                Some(words) => Some(words.to_owned()),
                None => None,
            },
            None => None,
        },
    }
}

/// Reads an API-level error message out of a response body, in either of the
/// shapes that endpoints send: `{"error": "..."}` and
/// `{"error": {"message": "..."}}`.
pub fn extract_error_message(value: &Json) -> (r: Option<String>)
    ensures
        option_view(r) == error_message(value@),
{
    match value.get("error") {
        Some(error) => words_of(error),
        None => None,
    }
}

/// The token accounting of a response, where it reports one.
pub open spec fn response_usage(body: JsonTree) -> Option<Usage> {
    match member(body, "usage"@) {
        Some(usage) => usage_of(usage),
        None => None,
    }
}

/// Reads the token accounting of a response, where it reports one.
pub fn raw_usage(value: &Json) -> (r: Option<Usage>)
    ensures
        r == response_usage(value@),
{
    match value.get("usage") {
        Some(usage) => Usage::decode(usage),
        None => None,
    }
}

/// The answers of a response, before they are typed.
pub open spec fn raw_answers(body: JsonTree) -> Seq<(Seq<char>, JsonTree)> {
    match field(body, 0, "answers"@) {
        Some(JsonTree::Object(members)) => with_entries(Seq::empty(), members),
        _ => Seq::empty(),
    }
}

/// The confidences that a response reports out of band.
pub open spec fn outside_confidences(body: JsonTree) -> Seq<(Seq<char>, u64)> {
    match optional_field(body, 1, "providerMetadata"@) {
        None => Seq::empty(),
        Some(metadata) => match optional_field(metadata, 0, "typesafe"@) {
            None => Seq::empty(),
            Some(typesafe) => reals_of(field(typesafe, 0, "confidence"@)).unwrap_or(Seq::empty()),
        },
    }
}

/// Whether an answer may take a confidence from outside: a choice or a score
/// that carries none.
pub open spec fn lacks_confidence(members: Seq<(Seq<char>, JsonTree)>) -> bool {
    &&& (lookup(members, "type"@) == Some(JsonTree::String("choice"@)) || lookup(members, "type"@)
        == Some(JsonTree::String("score"@)))
    &&& (lookup(members, "confidence"@) is None || lookup(members, "confidence"@)->0 is Null)
}

/// An answer with the confidence that was reported for it out of band, where
/// it lacks its own.
pub open spec fn relocated(
    answer: JsonTree,
    name: Seq<char>,
    confidences: Seq<(Seq<char>, u64)>,
) -> JsonTree {
    match answer {
        JsonTree::Object(members) => match lookup(confidences, name) {
            Some(bits) => if lacks_confidence(members) {
                JsonTree::Object(with_member(members, "confidence"@, real_tree(bits)))
            } else {
                answer
            },
            None => answer,
        },
        _ => answer,
    }
}

/// The typed form of one answer.
pub open spec fn typed_answer(
    answer: JsonTree,
    name: Seq<char>,
    confidences: Seq<(Seq<char>, u64)>,
) -> Result<AnswerView, ErrorView> {
    let whole = relocated(answer, name, confidences);
    match answer_of(whole) {
        Ok(typed) => Ok(typed),
        Err(source) => Err(
            ErrorView::Decode { source, body: truncated(json_text(whole)) },
        ),
    }
}

/// The typed forms of all answers, or the error of the first that has none.
pub open spec fn typed_answers(
    answers: Seq<(Seq<char>, JsonTree)>,
    confidences: Seq<(Seq<char>, u64)>,
) -> Result<Seq<(Seq<char>, AnswerView)>, ErrorView>
    decreases answers.len(),
{
    if answers.len() == 0 {
        Ok(Seq::empty())
    } else {
        match typed_answers(answers.drop_last(), confidences) {
            Ok(front) => match typed_answer(answers.last().1, answers.last().0, confidences) {
                Ok(typed) => Ok(front.push((answers.last().0, typed))),
                Err(e) => Err(e),
            },
            Err(e) => Err(e),
        }
    }
}

/// The error message of a response that can be read.
pub open spec fn reported_error(body: JsonTree) -> Option<Seq<char>> {
    match optional_field(body, 2, "error"@) {
        Some(error) => error_words(error),
        None => None,
    }
}

/// The answers that a response gives, or why it gives none.
pub open spec fn response_answers(body: JsonTree) -> Result<
    Seq<(Seq<char>, AnswerView)>,
    ErrorView,
> {
    match record_fault(body, Shape::Response) {
        Some(source) => Err(ErrorView::Decode { source, body: truncated(json_text(body)) }),
        None => match reported_error(body) {
            Some(words) => Err(ErrorView::Api(words)),
            None => typed_answers(raw_answers(body), outside_confidences(body)),
        },
    }
}

/// The outcome that a response gives, or why it gives none.
pub open spec fn response_outcome(body: JsonTree, resolved_model: Option<Seq<char>>) -> Decided {
    match response_answers(body) {
        Ok(answers) => Ok(outcome_of(answers, response_usage(body), resolved_model)),
        Err(e) => Err(e),
    }
}

/// A confidence that an answer carries itself is never replaced.
pub proof fn law_inline_confidence_is_kept(
    members: Seq<(Seq<char>, JsonTree)>,
    name: Seq<char>,
    confidences: Seq<(Seq<char>, u64)>,
)
    requires
        lookup(members, "confidence"@) is Some,
        !(lookup(members, "confidence"@)->0 is Null),
    ensures
        relocated(JsonTree::Object(members), name, confidences) == JsonTree::Object(members),
{
}

/// A confidence from outside reaches only the answer of its own name, and
/// only its confidence.
pub proof fn law_only_the_confidence_is_moved_in(
    members: Seq<(Seq<char>, JsonTree)>,
    name: Seq<char>,
    confidences: Seq<(Seq<char>, u64)>,
    key: Seq<char>,
)
    ensures
        key != "confidence"@ ==> member(
            relocated(JsonTree::Object(members), name, confidences),
            key,
        ) == lookup(members, key),
        lookup(confidences, name) is None ==> relocated(
            JsonTree::Object(members),
            name,
            confidences,
        ) == JsonTree::Object(members),
        lacks_confidence(members) && lookup(confidences, name) is Some ==> member(
            relocated(JsonTree::Object(members), name, confidences),
            "confidence"@,
        ) == Some(real_tree(lookup(confidences, name)->0)),
{
    if lookup(confidences, name) is Some {
        let value = real_tree(lookup(confidences, name)->0);
        json::law_member_is_read_back(members, "confidence"@, value, key);
        json::law_member_is_read_back(members, "confidence"@, value, "confidence"@);
    }
}

/// Every answer of a response is typed under its own name, from its own value
/// and the confidences from outside alone.
pub proof fn law_answers_are_typed_one_by_one(
    answers: Seq<(Seq<char>, JsonTree)>,
    confidences: Seq<(Seq<char>, u64)>,
)
    ensures
        typed_answers(answers, confidences) matches Ok(typed) ==> typed.len() == answers.len()
            && forall|i: int|
            0 <= i < typed.len() ==> (#[trigger] typed[i]).0 == answers[i].0 && typed_answer(
                answers[i].1,
                answers[i].0,
                confidences,
            ) == Ok::<AnswerView, ErrorView>(typed[i].1),
    decreases answers.len(),
{
    if answers.len() > 0 {
        law_answers_are_typed_one_by_one(answers.drop_last(), confidences);
    }
}

proof fn lemma_first_untyped(
    answers: Seq<(Seq<char>, JsonTree)>,
    confidences: Seq<(Seq<char>, u64)>,
    i: int,
)
    requires
        0 <= i < answers.len(),
        typed_answers(answers.take(i), confidences) is Ok,
        typed_answer(answers[i].1, answers[i].0, confidences) is Err,
    ensures
        typed_answers(answers, confidences) == Err::<Seq<(Seq<char>, AnswerView)>, ErrorView>(
            typed_answer(answers[i].1, answers[i].0, confidences)->Err_0,
        ),
    decreases answers.len(),
{
    if i < answers.len() - 1 {
        let front = answers.drop_last();
        assert(front.take(i) =~= answers.take(i));
        lemma_first_untyped(front, confidences, i);
    }
}

fn named_values(object: &Object) -> (r: NameMap<Json>)
    ensures
        r@ == with_entries(Seq::empty(), object@),
{
    let mut out: NameMap<Json> = NameMap::new();
    let mut i: usize = 0;
    while i < object.len()
        invariant
            i <= object@.len(),
            out@ == with_entries(Seq::empty(), object@.take(i as int)),
        decreases object@.len() - i,
    {
        proof {
            let next = object@.take(i + 1);
            assert(next.drop_last() =~= object@.take(i as int));
        }
        out.insert(object.key(i).to_owned(), object.value(i).clone());
        i += 1;
    }
    assert(object@.take(i as int) =~= object@);
    out
}

fn confidences_of(body: &Json) -> (r: NameMap<Real>)
    ensures
        r@ == outside_confidences(body@),
{
    let metadata = match fields::get_optional(body, 1, "providerMetadata") {
        Some(metadata) => metadata,
        None => {
            return NameMap::new();
        },
    };
    let typesafe = match fields::get_optional(metadata, 0, "typesafe") {
        Some(typesafe) => typesafe,
        None => {
            return NameMap::new();
        },
    };
    match question::reals(fields::get_field(typesafe, 0, "confidence")) {
        Some(confidences) => confidences,
        None => NameMap::new(),
    }
}

fn needs_confidence(object: &Object) -> (r: bool)
    ensures
        r == lacks_confidence(object@),
{
    let relocatable = match object.get("type") {
        Some(tag) => match tag.as_str() {
            Some(tag) => text::same(tag, "choice") || text::same(tag, "score"),
            None => false,
        },
        None => false,
    };
    let has_confidence = match object.get("confidence") {
        Some(c) => !c.is_null(),
        None => false,
    };
    relocatable && !has_confidence
}

fn relocate(answer: &Json, name: &str, confidences: &NameMap<Real>) -> (r: Json)
    ensures
        r@ == relocated(answer@, name@, confidences@),
{
    broadcast use Json::lemma_tree;

    match answer {
        Json::Object(object) => match confidences.get(name) {
            Some(confidence) => if needs_confidence(object) {
                let mut object = object.clone();
                object.put("confidence", Json::of_real(confidence));
                Json::Object(object)
            } else {
                answer.clone()
            },
            None => answer.clone(),
        },
        _ => answer.clone(),
    }
}

fn type_answers(answers: &NameMap<Json>, confidences: &NameMap<Real>) -> (r: Result<
    NameMap<Answer>,
    Error,
>)
    ensures
        result_view(r) == typed_answers(answers@, confidences@),
{
    let ghost all = answers@;
    let mut out: NameMap<Answer> = NameMap::new();
    let mut i: usize = 0;
    while i < answers.len()
        invariant
            i <= answers@.len(),
            all == answers@,
            out@.len() == i,
            forall|j: int| 0 <= j < i ==> (#[trigger] out@[j]).0 == all[j].0,
            typed_answers(all.take(i as int), confidences@) == Ok::<
                Seq<(Seq<char>, AnswerView)>,
                ErrorView,
            >(out@),
        decreases answers@.len() - i,
    {
        let name = answers.name(i);
        let whole = relocate(answers.value(i), name, confidences);
        proof {
            let next = all.take(i + 1);
            assert(next.drop_last() =~= all.take(i as int));
        }
        match Answer::decode(&whole) {
            Ok(answer) => {
                proof {
                    lemma_entry_at_end(out@, name@, answer@);
                }
                out.insert(name.to_owned(), answer);
            },
            Err(source) => {
                proof {
                    lemma_first_untyped(all, confidences@, i as int);
                }
                return Err(
                    Error::Decode { source, body: error::truncate(json::render(&whole).as_str()) },
                );
            },
        }
        i += 1;
    }
    assert(all.take(i as int) =~= all);
    Ok(out)
}

/// The error of a value that has not the shape it should have.
pub(crate) fn undecodable(source: String, value: &Json) -> (r: Error)
    ensures
        r@ == (ErrorView::Decode { source: source@, body: truncated(json_text(value@)) }),
{
    Error::Decode { source, body: error::truncate(json::render(value).as_str()) }
}

/// Reads the answers of a response body.
pub fn into_answers(value: &Json) -> (r: Result<NameMap<Answer>, Error>)
    ensures
        result_view(r) == response_answers(value@),
{
    if let Some(source) = shape::fault(value, Shape::Response) {
        return Err(undecodable(source, value));
    }
    if let Some(err) = fields::get_optional(value, 2, "error") {
        if let Some(words) = words_of(err) {
            return Err(Error::Api(words));
        }
    }
    let answers = match fields::get_field(value, 0, "answers") {
        Some(answers) => match answers.as_object() {
            Some(object) => named_values(object),
            None => NameMap::new(),
        },
        None => NameMap::new(),
    };
    let confidences = confidences_of(value);
    type_answers(&answers, &confidences)
}

/// Reads a full response body, the same way for every client that delivers
/// one.
pub fn decode_response(value: &Json, resolved_model: Option<String>) -> (r: Result<Outcome, Error>)
    ensures
        result_view(r) == response_outcome(value@, option_view(resolved_model)),
{
    match into_answers(value) {
        Ok(answers) => Ok(Outcome::new(answers, raw_usage(value), resolved_model)),
        Err(e) => Err(e),
    }
}

/// The JSON value of a body's text, or the error of a body that is none.
pub open spec fn parsed_body(text: Seq<char>) -> Result<JsonTree, ErrorView> {
    match json_read(text) {
        Ok(tree) => Ok(tree),
        Err(source) => Err(ErrorView::Decode { source, body: truncated(text) }),
    }
}

/// Reads the text of a body as JSON.
pub fn parse_body(text: &str) -> (r: Result<Json, Error>)
    ensures
        result_view(r) == parsed_body(text@),
{
    match json::parse(text) {
        Ok(value) => Ok(value),
        Err(source) => Err(Error::Decode { source, body: error::truncate(text) }),
    }
}

/// The JSON value of an accepted reply, by the text of its body or why that
/// could not be read.
pub open spec fn reply_tree(body: Result<Seq<char>, Seq<char>>) -> Result<JsonTree, ErrorView> {
    match body {
        Ok(text) => parsed_body(text),
        Err(message) => Err(ErrorView::Transport(message)),
    }
}

/// Reads the body of an accepted reply as JSON.
pub fn read_reply(body: &Result<String, String>) -> (r: Result<Json, Error>)
    ensures
        result_view(r) == reply_tree(result_view(*body)),
{
    match body {
        Ok(text) => parse_body(text.as_str()),
        Err(message) => Err(Error::Transport(message.clone())),
    }
}

/// An endpoint reports an error as a string under `error`, or as one under
/// `message` in an object there; anything else there is no message.
pub proof fn law_error_is_reported_in_either_shape(
    members: Seq<(Seq<char>, JsonTree)>,
    words: Seq<char>,
)
    ensures
        error_message(JsonTree::Object(members)) == Some(words) <==> {
            ||| lookup(members, "error"@) == Some(JsonTree::String(words))
            ||| (lookup(members, "error"@) matches Some(JsonTree::Object(inner)) && lookup(
                inner,
                "message"@,
            ) == Some(JsonTree::String(words)))
        },
{
}

/// Anything but an object reports no error and no tokens; an object reports the
/// tokens that stand under `usage`.
pub proof fn law_tokens_are_reported_under_usage(body: JsonTree)
    ensures
        !(body is Object) ==> error_message(body) is None && response_usage(body) is None,
        body matches JsonTree::Object(members) ==> match lookup(members, "usage"@) {
            Some(usage) => response_usage(body) == usage_of(usage),
            None => response_usage(body) is None,
        },
{
}

/// A choice or a score without a confidence of its own takes the one from
/// outside that has its name; every other answer, a yes/no answer among them,
/// is left as it is.
pub proof fn law_confidence_from_outside_fills_the_gap(
    members: Seq<(Seq<char>, JsonTree)>,
    name: Seq<char>,
    confidences: Seq<(Seq<char>, u64)>,
    bits: u64,
    key: Seq<char>,
)
    requires
        lookup(confidences, name) == Some(bits),
    ensures
        ({
            let tag = lookup(members, "type"@);
            let own = lookup(members, "confidence"@);
            let whole = relocated(JsonTree::Object(members), name, confidences);
            if (tag == Some(JsonTree::String("choice"@)) || tag == Some(
                JsonTree::String("score"@),
            )) && (own is None || own == Some(JsonTree::Null)) {
                &&& whole matches JsonTree::Object(filled) && {
                    &&& lookup(filled, "confidence"@) == Some(real_tree(bits))
                    &&& key != "confidence"@ ==> lookup(filled, key) == lookup(members, key)
                    &&& distinct_keys(members) ==> distinct_keys(filled)
                }
            } else {
                whole == JsonTree::Object(members)
            }
        }),
{
    law_member_is_read_back(members, "confidence"@, real_tree(bits), key);
    law_member_is_read_back(members, "confidence"@, real_tree(bits), "confidence"@);
    if distinct_keys(members) {
        law_member_keeps_its_place(members, "confidence"@, real_tree(bits));
    }
}

/// A choice that came without a confidence has, once it is typed, the one that
/// was reported for it out of band, and a score likewise.
pub proof fn law_relocated_confidence_is_the_answers_own(
    members: Seq<(Seq<char>, JsonTree)>,
    name: Seq<char>,
    confidences: Seq<(Seq<char>, u64)>,
    bits: u64,
)
    requires
        distinct_keys(members),
        lookup(confidences, name) == Some(bits),
        is_finite_bits(bits),
        lookup(members, "confidence"@) is None || lookup(members, "confidence"@) == Some(
            JsonTree::Null,
        ),
        absent_or_numbers(lookup(members, "probabilities"@)),
    ensures
        lookup(members, "type"@) == Some(JsonTree::String("choice"@)) ==> (lookup(
            members,
            "choice"@,
        ) matches Some(JsonTree::String(chosen)) ==> {
            &&& typed_answer(JsonTree::Object(members), name, confidences) matches Ok(
                AnswerView::Choice { choice, confidence, .. },
            )
            &&& choice == chosen
            &&& confidence == bits
        }),
        lookup(members, "type"@) == Some(JsonTree::String("score"@)) ==> (lookup(
            members,
            "score"@,
        ) matches Some(payload) ==> {
            &&& typed_answer(JsonTree::Object(members), name, confidences) matches Ok(
                AnswerView::Score { score, confidence, .. },
            )
            &&& score == payload
            &&& confidence == Some(bits)
        }),
{
    let tag = lookup(members, "type"@);
    if tag == Some(JsonTree::String("choice"@)) || tag == Some(JsonTree::String("score"@)) {
        let filled = relocated(JsonTree::Object(members), name, confidences)->Object_0;
        lemma_field_words();
        law_confidence_from_outside_fills_the_gap(members, name, confidences, bits, "type"@);
        law_confidence_from_outside_fills_the_gap(members, name, confidences, bits, "choice"@);
        law_confidence_from_outside_fills_the_gap(members, name, confidences, bits, "score"@);
        law_confidence_from_outside_fills_the_gap(
            members,
            name,
            confidences,
            bits,
            "probabilities"@,
        );
        if tag == Some(JsonTree::String("choice"@)) {
            law_choice_is_read_from_its_members(filled);
        } else {
            law_score_is_read_from_its_members(filled);
        }
    }
}

proof fn lemma_field_words()
    ensures
        "type"@ != "confidence"@,
        "choice"@ != "confidence"@,
        "score"@ != "confidence"@,
        "probabilities"@ != "confidence"@,
        "choice"@ != "score"@,
{
    reveal_strlit("type");
    reveal_strlit("choice");
    reveal_strlit("score");
    reveal_strlit("probabilities");
    reveal_strlit("confidence");
    assert("type"@.len() == 4 && "choice"@.len() == 6 && "score"@.len() == 5
        && "probabilities"@.len() == 13 && "confidence"@.len() == 10);
}

/// An answer that no confidence from outside concerns is typed as it stands,
/// and one that is none is reported with its own text.
pub proof fn law_answer_is_typed_as_it_stands(
    answer: JsonTree,
    name: Seq<char>,
    confidences: Seq<(Seq<char>, u64)>,
)
    requires
        lookup(confidences, name) is None,
    ensures
        answer_of(answer) matches Ok(typed) ==> typed_answer(answer, name, confidences) == Ok::<
            AnswerView,
            ErrorView,
        >(typed),
        answer_of(answer) matches Err(source) ==> typed_answer(answer, name, confidences) == Err::<
            AnswerView,
            ErrorView,
        >(ErrorView::Decode { source, body: truncated(json_text(answer)) }),
{
}

/// The answers of a response can be typed exactly where each of them can.
pub proof fn law_every_answer_has_to_be_one(
    answers: Seq<(Seq<char>, JsonTree)>,
    confidences: Seq<(Seq<char>, u64)>,
)
    ensures
        typed_answers(answers, confidences) is Ok <==> forall|i: int|
            0 <= i < answers.len() ==> typed_answer(
                (#[trigger] answers[i]).1,
                answers[i].0,
                confidences,
            ) is Ok,
    decreases answers.len(),
{
    if answers.len() > 0 {
        let front = answers.drop_last();
        law_every_answer_has_to_be_one(front, confidences);
        if typed_answers(answers, confidences) is Ok {
            assert forall|i: int| 0 <= i < answers.len() implies typed_answer(
                (#[trigger] answers[i]).1,
                answers[i].0,
                confidences,
            ) is Ok by {
                if i < front.len() {
                    assert(front[i] == answers[i]);
                }
            }
        }
        if forall|i: int|
            0 <= i < answers.len() ==> typed_answer(
                (#[trigger] answers[i]).1,
                answers[i].0,
                confidences,
            ) is Ok {
            assert forall|i: int| 0 <= i < front.len() implies typed_answer(
                (#[trigger] front[i]).1,
                front[i].0,
                confidences,
            ) is Ok by {
                assert(front[i] == answers[i]);
            }
            assert(typed_answer(
                answers[answers.len() - 1].1,
                answers[answers.len() - 1].0,
                confidences,
            ) is Ok);
        }
    }
}

proof fn lemma_typed_by_name(
    answers: Seq<(Seq<char>, JsonTree)>,
    confidences: Seq<(Seq<char>, u64)>,
    name: Seq<char>,
)
    requires
        typed_answers(answers, confidences) is Ok,
    ensures
        match lookup(answers, name) {
            None => lookup(typed_answers(answers, confidences)->Ok_0, name) is None,
            Some(answer) => {
                &&& lookup(typed_answers(answers, confidences)->Ok_0, name) is Some
                &&& typed_answer(answer, name, confidences) == Ok::<AnswerView, ErrorView>(
                    lookup(typed_answers(answers, confidences)->Ok_0, name)->0,
                )
            },
        },
{
    law_answers_are_typed_one_by_one(answers, confidences);
    let typed = typed_answers(answers, confidences)->Ok_0;
    lemma_found_entry(answers, name);
    let i = find_entry(answers, name);
    assert forall|j: int| 0 <= j < i implies (#[trigger] typed[j]).0 != name by {
        assert(answers[j].0 != name);
    }
    lemma_find_entry(typed, name, i);
}

proof fn lemma_raw_by_name(
    members: Seq<(Seq<char>, JsonTree)>,
    raw: Seq<(Seq<char>, JsonTree)>,
    name: Seq<char>,
)
    requires
        lookup(members, "answers"@) == Some(JsonTree::Object(raw)),
        distinct_keys(raw),
    ensures
        lookup(raw_answers(JsonTree::Object(members)), name) == lookup(raw, name),
{
    law_entries_are_read_back(Seq::<(Seq<char>, JsonTree)>::empty(), raw, name);
    lemma_found_entry(raw, name);
    let i = find_entry(raw, name);
    if i < raw.len() {
        assert forall|j: int| i < j < raw.len() implies (#[trigger] raw[j]).0 != name by {
            assert(raw[i].0 != raw[j].0);
        }
    }
}

/// A response that is accepted answers exactly the questions that it has an
/// answer under `answers` for, each with that answer, and hands on its tokens
/// and the model that answered; it says nothing of the time it took.
pub proof fn law_every_reported_answer_is_given(
    members: Seq<(Seq<char>, JsonTree)>,
    raw: Seq<(Seq<char>, JsonTree)>,
    resolved_model: Option<Seq<char>>,
    name: Seq<char>,
)
    requires
        lookup(members, "answers"@) == Some(JsonTree::Object(raw)),
        distinct_keys(raw),
        response_outcome(JsonTree::Object(members), resolved_model) is Ok,
    ensures
        ({
            let body = JsonTree::Object(members);
            let outcome = response_outcome(body, resolved_model)->Ok_0;
            &&& lookup(outcome.answers, name) is Some <==> lookup(raw, name) is Some
            &&& lookup(raw, name) matches Some(answer) ==> {
                &&& typed_answer(answer, name, outside_confidences(body)) == Ok::<
                    AnswerView,
                    ErrorView,
                >(lookup(outcome.answers, name)->0)
                &&& lookup(outside_confidences(body), name) is None ==> answer_of(answer) == Ok::<
                    AnswerView,
                    Seq<char>,
                >(lookup(outcome.answers, name)->0)
            }
            &&& outcome.usage == response_usage(body)
            &&& outcome.resolved_model == resolved_model
            &&& outcome.elapsed is None
            &&& outcome.retries is None
        }),
{
    let body = JsonTree::Object(members);
    lemma_typed_by_name(raw_answers(body), outside_confidences(body), name);
    lemma_raw_by_name(members, raw, name);
    if lookup(raw, name) is Some && lookup(outside_confidences(body), name) is None {
        law_answer_is_typed_as_it_stands(
            lookup(raw, name)->0,
            name,
            outside_confidences(body),
        );
    }
}

/// A response of answers alone is accepted exactly where each of its answers is
/// one.
pub proof fn law_plain_response_is_accepted(
    members: Seq<(Seq<char>, JsonTree)>,
    raw: Seq<(Seq<char>, JsonTree)>,
    resolved_model: Option<Seq<char>>,
)
    requires
        distinct_keys(members),
        distinct_keys(raw),
        lookup(members, "answers"@) == Some(JsonTree::Object(raw)),
        lookup(members, "providerMetadata"@) is None || lookup(members, "providerMetadata"@)
            == Some(JsonTree::Null),
        lookup(members, "error"@) is None || lookup(members, "error"@) == Some(JsonTree::Null),
    ensures
        response_outcome(JsonTree::Object(members), resolved_model) is Ok <==> forall|i: int|
            0 <= i < raw.len() ==> answer_of((#[trigger] raw[i]).1) is Ok,
{
    let body = JsonTree::Object(members);
    let answers = raw_answers(body);
    let confidences = outside_confidences(body);
    assert(confidences.len() == 0);
    lemma_object_fits(members, Shape::Response);
    law_every_answer_has_to_be_one(answers, confidences);
    if typed_answers(answers, confidences) is Ok {
        assert forall|i: int| 0 <= i < raw.len() implies answer_of((#[trigger] raw[i]).1) is Ok by {
            law_member_is_found_by_its_key(raw, i);
            lemma_raw_by_name(members, raw, raw[i].0);
            lemma_typed_by_name(answers, confidences, raw[i].0);
            law_answer_is_typed_as_it_stands(raw[i].1, raw[i].0, confidences);
        }
    }
    if forall|i: int| 0 <= i < raw.len() ==> answer_of((#[trigger] raw[i]).1) is Ok {
        lemma_entries_distinct(raw);
        assert forall|i: int| 0 <= i < answers.len() implies typed_answer(
            (#[trigger] answers[i]).1,
            answers[i].0,
            confidences,
        ) is Ok by {
            let name = answers[i].0;
            law_member_is_found_by_its_key(answers, i);
            lemma_raw_by_name(members, raw, name);
            lemma_found_entry(raw, name);
            assert(answer_of(raw[find_entry(raw, name)].1) is Ok);
            law_answer_is_typed_as_it_stands(answers[i].1, name, confidences);
        }
    }
}

proof fn lemma_entries_distinct(more: Seq<(Seq<char>, JsonTree)>)
    ensures
        ascending(with_entries(Seq::<(Seq<char>, JsonTree)>::empty(), more)),
        distinct_keys(with_entries(Seq::<(Seq<char>, JsonTree)>::empty(), more)),
    decreases more.len(),
{
    let empty = Seq::<(Seq<char>, JsonTree)>::empty();
    let all = with_entries(empty, more);
    if more.len() > 0 {
        lemma_entries_distinct(more.drop_last());
        law_entry_keeps_order(
            with_entries(empty, more.drop_last()),
            more.last().0,
            more.last().1,
        );
    }
    assert forall|i: int, j: int| 0 <= i < j < all.len() implies all[i].0 != all[j].0 by {
        lemma_text_order_total(all[i].0, all[j].0);
    }
}

/// A response that reports an error fails with its words, whatever it answers
/// beside.
pub proof fn law_reported_error_fails_the_call(
    members: Seq<(Seq<char>, JsonTree)>,
    resolved_model: Option<Seq<char>>,
    words: Seq<char>,
)
    requires
        distinct_keys(members),
        lookup(members, "answers"@) is None || lookup(members, "answers"@)->0 is Object,
        lookup(members, "providerMetadata"@) is None,
        error_message(JsonTree::Object(members)) == Some(words),
    ensures
        response_outcome(JsonTree::Object(members), resolved_model) == Err::<
            OutcomeView,
            ErrorView,
        >(ErrorView::Api(words)),
{
    lemma_object_fits(members, Shape::Response);
}

/// The confidences out of band are the numbers under
/// `providerMetadata.typesafe.confidence`, by the names of their questions;
/// without one of these there are none.
pub proof fn law_confidences_are_reported_out_of_band(
    members: Seq<(Seq<char>, JsonTree)>,
    metadata: Seq<(Seq<char>, JsonTree)>,
    typesafe: Seq<(Seq<char>, JsonTree)>,
    numbers: Seq<(Seq<char>, JsonTree)>,
    name: Seq<char>,
)
    requires
        distinct_keys(numbers),
        forall|i: int| 0 <= i < numbers.len() ==> (#[trigger] numbers[i]).1 is Number,
    ensures
        lookup(members, "providerMetadata"@) == Some(JsonTree::Object(metadata)) && lookup(
            metadata,
            "typesafe"@,
        ) == Some(JsonTree::Object(typesafe)) && lookup(typesafe, "confidence"@) == Some(
            JsonTree::Object(numbers),
        ) ==> lookup(outside_confidences(JsonTree::Object(members)), name) == match lookup(
            numbers,
            name,
        ) {
            Some(number) => real_of(number),
            None => None,
        },
        lookup(members, "providerMetadata"@) is None ==> outside_confidences(
            JsonTree::Object(members),
        ).len() == 0,
        lookup(members, "providerMetadata"@) == Some(JsonTree::Object(metadata)) && lookup(
            metadata,
            "typesafe"@,
        ) is None ==> outside_confidences(JsonTree::Object(members)).len() == 0,
{
    law_posterior_is_read_by_name(numbers, name);
}

/// A body is read as the JSON that it is; one that is none is reported with its
/// own text, and one that never came with the words of the failure.
pub proof fn law_body_is_read_as_json(text: Seq<char>, message: Seq<char>)
    ensures
        json_read(text) matches Ok(tree) ==> reply_tree(Ok(text)) == Ok::<JsonTree, ErrorView>(
            tree,
        ) && parsed_body(text) == Ok::<JsonTree, ErrorView>(tree),
        json_read(text) matches Err(source) ==> {
            let error = ErrorView::Decode { source, body: truncated(text) };
            &&& reply_tree(Ok(text)) == Err::<JsonTree, ErrorView>(error)
            &&& parsed_body(text) == Err::<JsonTree, ErrorView>(error)
        },
        reply_tree(Err(message)) == Err::<JsonTree, ErrorView>(ErrorView::Transport(message)),
{
}

/// A response in an array is read as the one in an object with the same parts.
pub proof fn law_response_may_be_an_array(
    answers: JsonTree,
    metadata: JsonTree,
    error: JsonTree,
    resolved_model: Option<Seq<char>>,
)
    ensures
        ({
            let listed = JsonTree::Array(seq![answers, metadata, error]);
            let named = JsonTree::Object(
                seq![("answers"@, answers), ("providerMetadata"@, metadata), ("error"@, error)],
            );
            &&& response_outcome(listed, resolved_model) is Ok == response_outcome(
                named,
                resolved_model,
            ) is Ok
            &&& response_outcome(listed, resolved_model) is Ok ==> response_outcome(
                listed,
                resolved_model,
            ) == response_outcome(named, resolved_model)
        }),
{
    let items = seq![answers, metadata, error];
    let members = seq![("answers"@, answers), ("providerMetadata"@, metadata), ("error"@, error)];
    let shape = Shape::Response;
    reveal_strlit("answers");
    reveal_strlit("providerMetadata");
    reveal_strlit("error");
    reveal_strlit("usage");
    assert("answers"@.len() == 7 && "providerMetadata"@.len() == 16 && "error"@.len() == 5);
    assert("usage"@[0] == 'u' && "error"@[0] == 'e' && "usage"@.len() == 5);
    reveal_with_fuel(absent_fault, 4);
    lemma_find_entry(members, "answers"@, 0);
    lemma_find_entry(members, "providerMetadata"@, 1);
    lemma_find_entry(members, "error"@, 2);
    lemma_find_entry(members, "usage"@, 3);
    lemma_field_found(shape, 0);
    lemma_field_found(shape, 1);
    lemma_field_found(shape, 2);
    assert(items_fault(items, shape, 3) is None);
    assert(members_fault(members, shape, 3) is None);
    assert(items_fault(items, shape, 2) == members_fault(members, shape, 2));
    assert(items_fault(items, shape, 1) == members_fault(members, shape, 1));
    assert(items_fault(items, shape, 0) == members_fault(members, shape, 0));
    assert(absent_fault(members, shape, 0) is None);
}

/// A response of the wrong shape is refused in the words of its fault, with its
/// own text.
pub proof fn law_faulty_response_is_refused_in_its_words(
    body: JsonTree,
    resolved_model: Option<Seq<char>>,
)
    ensures
        record_fault(body, Shape::Response) matches Some(source) ==> response_outcome(
            body,
            resolved_model,
        ) == Err::<OutcomeView, ErrorView>(
            ErrorView::Decode { source, body: truncated(json_text(body)) },
        ),
{
}

/// Among the answers of a response the first that is none, by the order of the
/// names, is the one that fails the call.
pub proof fn law_first_untyped_answer_fails_the_call(
    answers: Seq<(Seq<char>, JsonTree)>,
    confidences: Seq<(Seq<char>, u64)>,
    i: int,
)
    requires
        0 <= i < answers.len(),
        forall|j: int|
            0 <= j < i ==> typed_answer((#[trigger] answers[j]).1, answers[j].0, confidences) is Ok,
    ensures
        typed_answer(answers[i].1, answers[i].0, confidences) matches Err(e) ==> typed_answers(
            answers,
            confidences,
        ) == Err::<Seq<(Seq<char>, AnswerView)>, ErrorView>(e),
{
    let early = answers.take(i);
    assert forall|j: int| 0 <= j < early.len() implies typed_answer(
        (#[trigger] early[j]).1,
        early[j].0,
        confidences,
    ) is Ok by {
        assert(early[j] == answers[j]);
    }
    law_every_answer_has_to_be_one(early, confidences);
    if typed_answer(answers[i].1, answers[i].0, confidences) is Err {
        lemma_first_untyped(answers, confidences, i);
    }
}

} // verus!
