//! Strict-schema fallback for bounded prediction.
//!
//! The fallback receives the same numerical bounds or finite record set as
//! the primary predictor. It may fill the schema, but it cannot widen the
//! domain. It returns no calibrated distribution; empty probability arrays
//! make that absence explicit.
use crate::complete::{message, message_members};
use crate::gpc1::{metadata_of, records_array, records_tree};
use crate::http::{HttpClient, Reply, ReplyView};
use crate::json::{
    self, entry_trees, first_item, json_read, json_text, member, members_eq, object, real_of,
    string_of, tree_eq, trees, Json, JsonTree, Object,
};
use crate::names::{lookup, option_view, result_view};
use crate::numeric::{
    allows, bounded_error_text, estimate_views, joint_outcome_check, joint_request_check,
    law_accepted_fields_are_sound, law_estimates_are_accepted_field_by_field, numeric_outcome_check, numeric_request_check, object_views, validate_joint_outcome,
    validate_joint_request, validate_numeric_outcome, validate_numeric_request, BoundedError,
    BoundedErrorView, BoundedPredictor, EstimateView, FieldView, JointOutcome, JointOutcomeView,
    JointRequest, JointRequestView, NumericEstimate, NumericOutcome, NumericOutcomeView,
    NumericRequest, NumericRequestView,
};
use crate::error::ErrorView;
use crate::number::{is_finite_bits, real_bits, real_le, NumberKind};
use crate::response::{read_reply, reply_tree};
use crate::schema::{
    format_of, joint_schema, numeric_properties, numeric_schema, prompt, prompt_text,
    records_schema, response_format, strict_schema,
};
use crate::text::{self, quoted_text};
use vstd::prelude::*;

verus! {

broadcast use vstd::string::group_string_axioms;

/// A general model behind the gateway, held to a strict schema.
#[derive(Debug)]
pub struct JsonSchemaPredictor {
    http: HttpClient,
}

impl View for JsonSchemaPredictor {
    type V = HttpClient;

    closed spec fn view(&self) -> HttpClient {
        self.http
    }
}

/// What the model is told of its task.
pub const SYSTEM_PROMPT: &'static str =
    "Return only a value satisfying the supplied strict JSON schema. Do not invent fields or values outside its bounds.";

/// The body of a call.
pub open spec fn schema_body(model: Seq<char>, prompt: Seq<char>, schema: JsonTree) -> JsonTree {
    JsonTree::Object(
        seq![
            ("model"@, JsonTree::String(model)),
            (
                "messages"@,
                JsonTree::Array(
                    seq![
                        JsonTree::Object(message_members("system"@, SYSTEM_PROMPT@)),
                        JsonTree::Object(message_members("user"@, prompt)),
                    ],
                ),
            ),
            ("response_format"@, response_format(schema)),
            ("temperature"@, JsonTree::Number(NumberKind::PosInt(0))),
            ("stream"@, JsonTree::Bool(false)),
        ],
    )
}

/// The prompt of a joint request: the instruction, the records to choose
/// from, then the observation.
pub open spec fn joint_prompt_text(request: JointRequestView) -> Seq<char> {
    request.instruction + "\nChoose exactly one of these complete records:\n"@ + json_text(
        records_tree(request.allowed_records),
    ) + ("\n\nObservation:\n"@ + json_text(request.observation))
}

/// The body of a numeric call, or why the request cannot be put.
pub open spec fn numeric_fallback_body(model: Seq<char>, request: NumericRequestView) -> Result<
    JsonTree,
    BoundedErrorView,
> {
    match numeric_request_check(request) {
        Err(e) => Err(e),
        Ok(()) => Ok(
            schema_body(
                model,
                prompt_text(request.instruction, request.observation),
                strict_schema(numeric_properties(request.fields)),
            ),
        ),
    }
}

/// The body of a joint call, or why the request cannot be put.
pub open spec fn joint_fallback_body(model: Seq<char>, request: JointRequestView) -> Result<
    JsonTree,
    BoundedErrorView,
> {
    match joint_request_check(request) {
        Err(e) => Err(e),
        Ok(()) => match records_schema(request.allowed_records) {
            Err(e) => Err(e),
            Ok(schema) => Ok(schema_body(model, joint_prompt_text(request), schema)),
        },
    }
}

/// The content of a response: `choices[0].message.content`, where it is a
/// string.
pub open spec fn message_content(tree: JsonTree) -> Option<Seq<char>> {
    match member(tree, "choices"@) {
        Some(choices) => match first_item(choices) {
            Some(choice) => match member(choice, "message"@) {
                Some(message) => match member(message, "content"@) {
                    Some(content) => string_of(content),
                    None => None,
                },
                None => None,
            },
            None => None,
        },
        None => None,
    }
}

/// The object that a response holds as its content, or what is wrong with it.
pub open spec fn content_object(tree: JsonTree) -> Result<
    Seq<(Seq<char>, JsonTree)>,
    BoundedErrorView,
> {
    match message_content(tree) {
        None => Err(BoundedErrorView::InvalidResponse("fallback returned no message content"@)),
        Some(content) => match json_read(content) {
            Err(words) => Err(
                BoundedErrorView::InvalidResponse("fallback content was not JSON: "@ + words),
            ),
            Ok(JsonTree::Object(members)) => Ok(members),
            Ok(_) => Err(
                BoundedErrorView::InvalidResponse("fallback content was not a JSON object"@),
            ),
        },
    }
}

/// The number that an object gives for a field.
pub open spec fn value_of(values: Seq<(Seq<char>, JsonTree)>, key: Seq<char>) -> Option<u64> {
    match lookup(values, key) {
        Some(tree) => real_of(tree),
        None => None,
    }
}

/// The estimates that an object gives, one per field and without a
/// distribution, or the first field that it gives no number for.
pub open spec fn plain_estimates(
    fields: Seq<FieldView>,
    values: Seq<(Seq<char>, JsonTree)>,
) -> Result<Seq<EstimateView>, BoundedErrorView>
    decreases fields.len(),
{
    if fields.len() == 0 {
        Ok(Seq::empty())
    } else {
        match plain_estimates(fields.drop_last(), values) {
            Err(e) => Err(e),
            Ok(front) => match value_of(values, fields.last().key) {
                None => Err(
                    BoundedErrorView::InvalidResponse(
                        "fallback omitted numeric field "@ + quoted_text(fields.last().key),
                    ),
                ),
                Some(value) => Ok(
                    front.push(
                        EstimateView {
                            key: fields.last().key,
                            map_value: value,
                            expected_value: value,
                            probabilities: Seq::empty(),
                            normalized_grid: Seq::empty(),
                        },
                    ),
                ),
            },
        }
    }
}

/// What a numeric call gives, by the request and the accepted response.
pub open spec fn numeric_fallback(request: NumericRequestView, reply: ReplyView) -> Result<
    NumericOutcomeView,
    BoundedErrorView,
> {
    match reply_tree(reply.body) {
        Err(e) => Err(BoundedErrorView::Transport(e)),
        Ok(tree) => match content_object(tree) {
            Err(e) => Err(e),
            Ok(values) => match plain_estimates(request.fields, values) {
                Err(e) => Err(e),
                Ok(estimates) => match numeric_outcome_check(request.fields, estimates) {
                    Err(e) => Err(e),
                    Ok(()) => Ok(
                        NumericOutcomeView {
                            estimates,
                            resolved_model: reply.resolved_model,
                            elapsed_ms: Some((reply.elapsed / 1_000_000) as u128),
                            retries: Some(reply.retries),
                            provider_metadata: member(tree, "providerMetadata"@),
                        },
                    ),
                },
            },
        },
    }
}

/// The place of the first record that equals a value.
pub open spec fn record_place(
    records: Seq<Seq<(Seq<char>, JsonTree)>>,
    value: Seq<(Seq<char>, JsonTree)>,
) -> Option<int>
    decreases records.len(),
{
    if records.len() == 0 {
        None
    } else if members_eq(records[0], value) {
        Some(0)
    } else {
        match record_place(records.drop_first(), value) {
            Some(i) => Some(i + 1),
            None => None,
        }
    }
}

/// What a joint call gives, by the request and the accepted response.
pub open spec fn joint_fallback(request: JointRequestView, reply: ReplyView) -> Result<
    JointOutcomeView,
    BoundedErrorView,
> {
    match reply_tree(reply.body) {
        Err(e) => Err(BoundedErrorView::Transport(e)),
        Ok(tree) => match content_object(tree) {
            Err(e) => Err(e),
            Ok(value) => match record_place(request.allowed_records, value) {
                None => Err(
                    BoundedErrorView::InvalidResponse(
                        "fallback returned a record outside the finite allowed set"@,
                    ),
                ),
                Some(place) => Ok(
                    JointOutcomeView {
                        selected_index: place as usize,
                        value,
                        probabilities: Seq::empty(),
                        log_scores: Seq::empty(),
                        resolved_model: reply.resolved_model,
                        elapsed_ms: Some((reply.elapsed / 1_000_000) as u128),
                        retries: Some(reply.retries),
                        provider_metadata: member(tree, "providerMetadata"@),
                    },
                ),
            },
        },
    }
}

proof fn lemma_record_place(
    records: Seq<Seq<(Seq<char>, JsonTree)>>,
    value: Seq<(Seq<char>, JsonTree)>,
    i: int,
)
    requires
        0 <= i <= records.len(),
        forall|j: int| 0 <= j < i ==> !members_eq(#[trigger] records[j], value),
        i < records.len() ==> members_eq(records[i], value),
    ensures
        record_place(records, value) == if i < records.len() {
            Some(i)
        } else {
            None
        },
    decreases records.len(),
{
    if i > 0 {
        let rest = records.drop_first();
        lemma_record_place(rest, value, i - 1);
    }
}

/// A fallback never widens the domain: what it gives keeps to the request's
/// fields or is one of its records, and it claims no distribution.
pub proof fn law_fallback_stays_within_the_domain(
    numeric: NumericRequestView,
    joint: JointRequestView,
    reply: ReplyView,
    i: int,
)
    ensures
        numeric_fallback(numeric, reply) matches Ok(outcome) ==> {
            &&& numeric_outcome_check(numeric.fields, outcome.estimates) is Ok
            &&& 0 <= i < outcome.estimates.len() ==> outcome.estimates[i].probabilities.len() == 0
        },
        joint_fallback(joint, reply) matches Ok(outcome) ==> joint.allowed_records.len()
            <= usize::MAX ==> {
            &&& joint_outcome_check(
                joint.allowed_records,
                outcome.selected_index,
                outcome.value,
                outcome.probabilities,
            ) is Ok
            &&& outcome.probabilities.len() == 0
        },
{
    if let Ok(outcome) = numeric_fallback(numeric, reply) {
        let tree = reply_tree(reply.body)->Ok_0;
        lemma_plain_estimates(numeric.fields, content_object(tree)->Ok_0);
    }
    if let Ok(outcome) = joint_fallback(joint, reply) {
        let tree = reply_tree(reply.body)->Ok_0;
        lemma_found_record(joint.allowed_records, content_object(tree)->Ok_0);
    }
}

proof fn lemma_plain_estimates(fields: Seq<FieldView>, values: Seq<(Seq<char>, JsonTree)>)
    ensures
        plain_estimates(fields, values) matches Ok(list) ==> list.len() == fields.len() && forall|
            i: int,
        |
            0 <= i < list.len() ==> (#[trigger] list[i]).probabilities.len() == 0,
    decreases fields.len(),
{
    if fields.len() > 0 {
        lemma_plain_estimates(fields.drop_last(), values);
    }
}

proof fn lemma_found_record(
    records: Seq<Seq<(Seq<char>, JsonTree)>>,
    value: Seq<(Seq<char>, JsonTree)>,
)
    ensures
        record_place(records, value) matches Some(i) ==> 0 <= i < records.len() && members_eq(
            records[i],
            value,
        ),
    decreases records.len(),
{
    if records.len() > 0 {
        lemma_found_record(records.drop_first(), value);
    }
}

fn content_text(value: &Json) -> (r: Option<&str>)
    ensures
        r is Some == (message_content(value@) is Some),
        r matches Some(s) ==> message_content(value@) == Some(s@),
{
    match value.get("choices") {
        Some(choices) => match choices.first() {
            Some(choice) => match choice.get("message") {
                Some(message) => match message.get("content") {
                    Some(content) => content.as_str(),
                    None => None,
                },
                None => None,
            },
            None => None,
        },
        None => None,
    }
}

fn content_of(value: &Json) -> (r: Result<Object, BoundedError>)
    ensures
        result_view(r) == content_object(value@),
{
    broadcast use Json::lemma_tree;

    let content = match content_text(value) {
        Some(content) => content,
        None => {
            return Err(
                BoundedError::InvalidResponse("fallback returned no message content".to_owned()),
            );
        },
    };
    match json::parse(content) {
        Ok(Json::Object(object)) => Ok(object),
        Ok(_) => Err(
            BoundedError::InvalidResponse("fallback content was not a JSON object".to_owned()),
        ),
        Err(words) => Err(
            BoundedError::InvalidResponse(
                text::join2("fallback content was not JSON: ", words.as_str()),
            ),
        ),
    }
}

proof fn lemma_first_omitted(
    fields: Seq<FieldView>,
    values: Seq<(Seq<char>, JsonTree)>,
    i: int,
)
    requires
        0 <= i < fields.len(),
        plain_estimates(fields.take(i), values) is Ok,
        value_of(values, fields[i].key) is None,
    ensures
        plain_estimates(fields, values) == Err::<Seq<EstimateView>, BoundedErrorView>(
            BoundedErrorView::InvalidResponse(
                "fallback omitted numeric field "@ + quoted_text(fields[i].key),
            ),
        ),
    decreases fields.len(),
{
    if i < fields.len() - 1 {
        let front = fields.drop_last();
        assert(front.take(i) =~= fields.take(i));
        lemma_first_omitted(front, values, i);
    }
}

fn estimates(request: &NumericRequest, values: &Object) -> (r: Result<
    Vec<NumericEstimate>,
    BoundedError,
>)
    ensures
        match r {
            Ok(list) => plain_estimates(request@.fields, values@) == Ok::<
                Seq<EstimateView>,
                BoundedErrorView,
            >(estimate_views(list@)),
            Err(e) => plain_estimates(request@.fields, values@) == Err::<
                Seq<EstimateView>,
                BoundedErrorView,
            >(e@),
        },
{
    let ghost all = request@.fields;
    let mut out: Vec<NumericEstimate> = Vec::new();
    let mut i: usize = 0;
    assert(estimate_views(out@) =~= Seq::<EstimateView>::empty());
    while i < request.fields.len()
        invariant
            i <= request.fields@.len(),
            all == request@.fields,
            plain_estimates(all.take(i as int), values@) == Ok::<
                Seq<EstimateView>,
                BoundedErrorView,
            >(estimate_views(out@)),
        decreases request.fields@.len() - i,
    {
        let key = &request.fields[i].key;
        proof {
            let next = all.take(i + 1);
            assert(next.drop_last() =~= all.take(i as int));
        }
        let number = match values.get(key.as_str()) {
            Some(value) => value.as_real(),
            None => None,
        };
        match number {
            Some(value) => {
                let ghost before = estimate_views(out@);
                let estimate = NumericEstimate {
                    key: key.clone(),
                    map_value: value.clone(),
                    expected_value: value,
                    probabilities: Vec::new(),
                    normalized_grid: Vec::new(),
                };
                assert(estimate@.probabilities =~= Seq::<u64>::empty());
                out.push(estimate);
                assert(estimate_views(out@) =~= before.push(estimate@));
            },
            None => {
                proof {
                    lemma_first_omitted(all, values@, i as int);
                }
                return Err(
                    BoundedError::InvalidResponse(
                        text::join2(
                            "fallback omitted numeric field ",
                            text::quoted(key.as_str()).as_str(),
                        ),
                    ),
                );
            },
        }
        i += 1;
    }
    assert(all.take(i as int) =~= all);
    Ok(out)
}

fn place_of(records: &Vec<Object>, value: &Object) -> (r: Option<usize>)
    ensures
        match r {
            Some(i) => record_place(object_views(records@), value@) == Some(i as int) && i
                < records@.len() && members_eq(object_views(records@)[i as int], value@),
            None => record_place(object_views(records@), value@) is None,
        },
{
    let ghost all = object_views(records@);
    let mut i: usize = 0;
    while i < records.len()
        invariant
            i <= records@.len(),
            all == object_views(records@),
            forall|j: int| 0 <= j < i ==> !members_eq(#[trigger] all[j], value@),
        decreases records@.len() - i,
    {
        if records[i].equals(value) {
            proof {
                lemma_record_place(all, value@, i as int);
            }
            return Some(i);
        }
        i += 1;
    }
    proof {
        lemma_record_place(all, value@, i as int);
    }
    None
}

impl JsonSchemaPredictor {
    /// A predictor behind a configured client.
    pub fn new(http: HttpClient) -> (r: Self)
        ensures
            r@ == http,
    {
        JsonSchemaPredictor { http }
    }

    /// The client behind it.
    pub fn http(&self) -> (r: &HttpClient)
        ensures
            *r == self@,
    {
        &self.http
    }

    fn request(&self, prompt: String, schema: Json) -> (r: Json)
        ensures
            r@ == schema_body(self@@.model, prompt@, schema@),
    {
        broadcast use Json::lemma_tree;

        let ghost body = schema_body(self@@.model, prompt@, schema@);
        proof {
            reveal_strlit("model");
            reveal_strlit("messages");
            reveal_strlit("response_format");
            reveal_strlit("temperature");
            reveal_strlit("stream");
            assert("model"@.len() == 5 && "messages"@.len() == 8 && "response_format"@.len() == 15);
            assert("temperature"@.len() == 11 && "stream"@.len() == 6);
        }
        let mut messages: Vec<Json> = Vec::new();
        messages.push(message("system", SYSTEM_PROMPT));
        messages.push(message("user", prompt.as_str()));
        assert(trees(messages@) =~= body->Object_0[1].1->Array_0);
        let entries = vec![
            ("model", Json::text(self.http.model())),
            ("messages", Json::Array(messages)),
            ("response_format", format_of(schema)),
            ("temperature", Json::unsigned(0)),
            ("stream", Json::Bool(false)),
        ];
        assert(entry_trees(entries@) =~= body->Object_0);
        object(entries)
    }

    /// The body of a call that fills in every field of a request; an error
    /// where the request cannot be put.
    pub fn numeric_body(&self, request: &NumericRequest) -> (r: Result<Json, BoundedError>)
        ensures
            result_view(r) == numeric_fallback_body(self@@.model, request@),
    {
        match validate_numeric_request(request) {
            Ok(()) => {},
            Err(e) => {
                return Err(e);
            },
        }
        let schema = numeric_schema(request);
        Ok(self.request(prompt(request.instruction.as_str(), &request.observation), schema))
    }

    /// Reads the response to such a call.
    pub fn numeric_outcome(&self, request: &NumericRequest, reply: Reply) -> (r: Result<
        NumericOutcome,
        BoundedError,
    >)
        ensures
            result_view(r) == numeric_fallback(request@, reply@),
    {
        let raw = match read_reply(&reply.body) {
            Ok(raw) => raw,
            Err(e) => {
                return Err(BoundedError::Transport(e));
            },
        };
        let values = match content_of(&raw) {
            Ok(values) => values,
            Err(e) => {
                return Err(e);
            },
        };
        let estimates = match estimates(request, &values) {
            Ok(estimates) => estimates,
            Err(e) => {
                return Err(e);
            },
        };
        let outcome = NumericOutcome {
            estimates,
            resolved_model: reply.resolved_model,
            elapsed_ms: Some(reply.elapsed.as_millis()),
            retries: Some(reply.retries),
            provider_metadata: metadata_of(&raw),
        };
        match validate_numeric_outcome(request, &outcome) {
            Ok(()) => Ok(outcome),
            Err(e) => Err(e),
        }
    }

    /// The body of a call that chooses one of the allowed records; an error
    /// where the request cannot be put.
    pub fn joint_body(&self, request: &JointRequest) -> (r: Result<Json, BoundedError>)
        ensures
            result_view(r) == joint_fallback_body(self@@.model, request@),
    {
        match validate_joint_request(request) {
            Ok(()) => {},
            Err(e) => {
                return Err(e);
            },
        }
        let schema = match joint_schema(&request.allowed_records) {
            Ok(schema) => schema,
            Err(e) => {
                return Err(e);
            },
        };
        let records = json::render(&records_array(&request.allowed_records));
        let head = text::join3(
            request.instruction.as_str(),
            "\nChoose exactly one of these complete records:\n",
            records.as_str(),
        );
        let tail = text::join2("\n\nObservation:\n", json::render(&request.observation).as_str());
        Ok(self.request(text::join2(head.as_str(), tail.as_str()), schema))
    }

    /// Reads the response to such a call: what it gives is the first allowed
    /// record that equals it.
    pub fn joint_outcome(&self, request: &JointRequest, reply: Reply) -> (r: Result<
        JointOutcome,
        BoundedError,
    >)
        ensures
            result_view(r) == joint_fallback(request@, reply@),
    {
        let raw = match read_reply(&reply.body) {
            Ok(raw) => raw,
            Err(e) => {
                return Err(BoundedError::Transport(e));
            },
        };
        let value = match content_of(&raw) {
            Ok(value) => value,
            Err(e) => {
                return Err(e);
            },
        };
        let selected_index: usize = match place_of(&request.allowed_records, &value) {
            Some(i) => i,
            None => {
                return Err(
                    BoundedError::InvalidResponse(
                        "fallback returned a record outside the finite allowed set".to_owned(),
                    ),
                );
            },
        };
        let outcome = JointOutcome {
            selected_index,
            value,
            probabilities: Vec::new(),
            log_scores: Vec::new(),
            resolved_model: reply.resolved_model,
            elapsed_ms: Some(reply.elapsed.as_millis()),
            retries: Some(reply.retries),
            provider_metadata: metadata_of(&raw),
        };
        assert(outcome@.probabilities =~= Seq::<u64>::empty());
        match validate_joint_outcome(request, &outcome) {
            Ok(()) => Ok(outcome),
            Err(e) => Err(e),
        }
    }
}

/// A primary bounded predictor with a fallback for the same schema.
#[derive(Debug)]
pub struct WithFallback<P, F> {
    /// Asked first.
    pub primary: P,
    /// Asked where the primary fails.
    pub fallback: F,
}

impl<P, F> WithFallback<P, F> {
    /// A predictor with a fallback.
    pub fn new(primary: P, fallback: F) -> (r: Self)
        ensures
            r == (WithFallback { primary, fallback }),
    {
        WithFallback { primary, fallback }
    }
}

/// The metadata of an outcome that a fallback gave: that it did, why, and what
/// the provider said beside.
pub open spec fn fallback_metadata(
    previous: Option<JsonTree>,
    error: BoundedErrorView,
) -> JsonTree {
    JsonTree::Object(
        seq![
            (
                "ooda"@,
                JsonTree::Object(
                    seq![
                        ("fallback_used"@, JsonTree::Bool(true)),
                        ("primary_error"@, JsonTree::String(bounded_error_text(error))),
                        ("calibrated_distribution"@, JsonTree::Bool(false)),
                    ],
                ),
            ),
            ("provider"@, previous.unwrap_or(JsonTree::Null)),
        ],
    )
}

/// Records in an outcome's metadata that a fallback gave it, and why.
pub fn record_fallback(metadata: &mut Option<Json>, error: &BoundedError)
    ensures
        option_view(*final(metadata)) == Some(
            fallback_metadata(option_view(*old(metadata)), error@),
        ),
{
    broadcast use Json::lemma_tree;

    let ghost whole = fallback_metadata(option_view(*metadata), error@);
    proof {
        reveal_strlit("fallback_used");
        reveal_strlit("primary_error");
        reveal_strlit("calibrated_distribution");
        reveal_strlit("ooda");
        reveal_strlit("provider");
        assert("fallback_used"@[0] == 'f' && "primary_error"@[0] == 'p');
        assert("ooda"@.len() == 4 && "provider"@.len() == 8);
    }
    let provider = match metadata.take() {
        Some(previous) => previous,
        None => Json::Null,
    };
    let inner = vec![
        ("fallback_used", Json::Bool(true)),
        ("primary_error", Json::text(error.message().as_str())),
        ("calibrated_distribution", Json::Bool(false)),
    ];
    assert(entry_trees(inner@) =~= whole->Object_0[0].1->Object_0);
    let outer = vec![("ooda", object(inner)), ("provider", provider)];
    assert(entry_trees(outer@) =~= whole->Object_0);
    *metadata = Some(object(outer));
}

/// What a predictor with a fallback gives: what the primary gave, where that
/// is an outcome; else what the fallback gave, marked where it is an outcome.
pub open spec fn numeric_with_fallback(
    primary: Result<NumericOutcomeView, BoundedErrorView>,
    fallback: Result<NumericOutcomeView, BoundedErrorView>,
) -> Result<NumericOutcomeView, BoundedErrorView> {
    match (primary, fallback) {
        (Ok(outcome), _) => Ok(outcome),
        (Err(error), Ok(outcome)) => Ok(
            NumericOutcomeView {
                provider_metadata: Some(fallback_metadata(outcome.provider_metadata, error)),
                ..outcome
            },
        ),
        (Err(_), Err(e)) => Err(e),
    }
}

/// The same for joint outcomes.
pub open spec fn joint_with_fallback(
    primary: Result<JointOutcomeView, BoundedErrorView>,
    fallback: Result<JointOutcomeView, BoundedErrorView>,
) -> Result<JointOutcomeView, BoundedErrorView> {
    match (primary, fallback) {
        (Ok(outcome), _) => Ok(outcome),
        (Err(error), Ok(outcome)) => Ok(
            JointOutcomeView {
                provider_metadata: Some(fallback_metadata(outcome.provider_metadata, error)),
                ..outcome
            },
        ),
        (Err(_), Err(e)) => Err(e),
    }
}

/// Marks the numeric outcome that a fallback gave after an error.
pub fn marked_numeric(
    error: &BoundedError,
    fallback: Result<NumericOutcome, BoundedError>,
) -> (r: Result<NumericOutcome, BoundedError>)
    ensures
        result_view(r) == numeric_with_fallback(Err(error@), result_view(fallback)),
{
    match fallback {
        Ok(outcome) => {
            let mut outcome = outcome;
            let mut metadata = outcome.provider_metadata.take();
            record_fallback(&mut metadata, error);
            outcome.provider_metadata = metadata;
            Ok(outcome)
        },
        Err(e) => Err(e),
    }
}

/// Marks the joint outcome that a fallback gave after an error.
pub fn marked_joint(error: &BoundedError, fallback: Result<JointOutcome, BoundedError>) -> (r:
    Result<JointOutcome, BoundedError>)
    ensures
        result_view(r) == joint_with_fallback(Err(error@), result_view(fallback)),
{
    match fallback {
        Ok(outcome) => {
            let mut outcome = outcome;
            let mut metadata = outcome.provider_metadata.take();
            record_fallback(&mut metadata, error);
            outcome.provider_metadata = metadata;
            Ok(outcome)
        },
        Err(e) => Err(e),
    }
}

impl<P: BoundedPredictor, F: BoundedPredictor> BoundedPredictor for WithFallback<P, F> {
    fn estimate_numeric(&self, request: &NumericRequest) -> (r: Result<
        NumericOutcome,
        BoundedError,
    >)
        ensures
            exists|first: Result<NumericOutcome, BoundedError>|
                {
                    &&& #[trigger] call_ensures(
                        P::estimate_numeric,
                        (&self.primary, request),
                        first,
                    )
                    &&& first is Ok ==> r == first
                    &&& first is Err ==> exists|second: Result<NumericOutcome, BoundedError>|
                        #[trigger] call_ensures(
                            F::estimate_numeric,
                            (&self.fallback, request),
                            second,
                        ) && result_view(r) == numeric_with_fallback(
                            result_view(first),
                            result_view(second),
                        )
                },
    {
        let first = self.primary.estimate_numeric(request);
        match first {
            Ok(outcome) => Ok(outcome),
            Err(error) => {
                let second = self.fallback.estimate_numeric(request);
                marked_numeric(&error, second)
            },
        }
    }

    fn decide_joint(&self, request: &JointRequest) -> (r: Result<JointOutcome, BoundedError>)
        ensures
            exists|first: Result<JointOutcome, BoundedError>|
                {
                    &&& #[trigger] call_ensures(P::decide_joint, (&self.primary, request), first)
                    &&& first is Ok ==> r == first
                    &&& first is Err ==> exists|second: Result<JointOutcome, BoundedError>|
                        #[trigger] call_ensures(
                            F::decide_joint,
                            (&self.fallback, request),
                            second,
                        ) && result_view(r) == joint_with_fallback(
                            result_view(first),
                            result_view(second),
                        )
                },
    {
        let first = self.primary.decide_joint(request);
        match first {
            Ok(outcome) => Ok(outcome),
            Err(error) => {
                let second = self.fallback.decide_joint(request);
                marked_joint(&error, second)
            },
        }
    }
}

proof fn lemma_estimates_by_key(fields: Seq<FieldView>, values: Seq<(Seq<char>, JsonTree)>)
    ensures
        plain_estimates(fields, values) is Ok <==> forall|i: int|
            0 <= i < fields.len() ==> (lookup(values, (#[trigger] fields[i]).key) matches Some(
                JsonTree::Number(_),
            )),
        plain_estimates(fields, values) matches Ok(list) ==> list.len() == fields.len() && forall|
            i: int,
        |
            #![trigger list[i]]
            0 <= i < list.len() ==> {
                &&& list[i].key == fields[i].key
                &&& lookup(values, fields[i].key) matches Some(JsonTree::Number(kind)) && list[i].map_value
                    == real_bits(kind) && list[i].expected_value == real_bits(kind)
                &&& list[i].probabilities.len() == 0
                &&& list[i].normalized_grid.len() == 0
            },
        plain_estimates(fields, values) matches Err(e) ==> e is InvalidResponse,
    decreases fields.len(),
{
    if fields.len() > 0 {
        let front = fields.drop_last();
        let last = fields.len() - 1;
        lemma_estimates_by_key(front, values);
        assert forall|i: int| 0 <= i < front.len() implies (#[trigger] front[i]) == fields[i] by {}
        if plain_estimates(fields, values) is Ok {
            assert forall|i: int| 0 <= i < fields.len() implies (lookup(
                values,
                (#[trigger] fields[i]).key,
            ) matches Some(JsonTree::Number(_))) by {
                if i < last {
                    assert(front[i] == fields[i]);
                }
            }
        }
        if forall|i: int|
            0 <= i < fields.len() ==> (lookup(values, (#[trigger] fields[i]).key) matches Some(
                JsonTree::Number(_),
            )) {
            assert forall|i: int| 0 <= i < front.len() implies (lookup(
                values,
                (#[trigger] front[i]).key,
            ) matches Some(JsonTree::Number(_))) by {
                assert(front[i] == fields[i]);
            }
            assert(lookup(values, fields[last].key) matches Some(JsonTree::Number(_)));
        }
    }
}

/// An outcome that is given fills in every field of the request with the number
/// that the content of the response has under that field's own key, as the most
/// probable value and as the mean, without a distribution. The model, the time
/// and the retries are those of the response.
pub proof fn law_fallback_fills_in_every_field(
    request: NumericRequestView,
    reply: ReplyView,
    tree: JsonTree,
    content: Seq<char>,
    values: Seq<(Seq<char>, JsonTree)>,
)
    requires
        reply_tree(reply.body) == Ok::<JsonTree, ErrorView>(tree),
        message_content(tree) == Some(content),
        json_read(content) == Ok::<JsonTree, Seq<char>>(JsonTree::Object(values)),
    ensures
        numeric_fallback(request, reply) matches Ok(outcome) ==> {
            &&& outcome.estimates.len() == request.fields.len()
            &&& forall|i: int|
                #![trigger outcome.estimates[i]]
                0 <= i < request.fields.len() ==> {
                    &&& outcome.estimates[i].key == request.fields[i].key
                    &&& lookup(values, request.fields[i].key) matches Some(JsonTree::Number(kind))
                        && outcome.estimates[i].map_value == real_bits(kind)
                        && outcome.estimates[i].expected_value == real_bits(kind)
                    &&& outcome.estimates[i].probabilities.len() == 0
                    &&& outcome.estimates[i].normalized_grid.len() == 0
                }
            &&& outcome.resolved_model == reply.resolved_model
            &&& outcome.elapsed_ms == Some((reply.elapsed / 1_000_000) as u128)
            &&& outcome.retries == Some(reply.retries)
            &&& outcome.provider_metadata == member(tree, "providerMetadata"@)
        },
{
    lemma_estimates_by_key(request.fields, values);
}

/// A content that has a number for every field, each within the bounds of its
/// field, gives an outcome; one that lacks a number for some field, or has one
/// outside the bounds, gives none.
pub proof fn law_fallback_succeeds_where_every_field_is_filled_in(
    request: NumericRequestView,
    reply: ReplyView,
    tree: JsonTree,
    content: Seq<char>,
    values: Seq<(Seq<char>, JsonTree)>,
)
    requires
        numeric_request_check(request) is Ok,
        reply_tree(reply.body) == Ok::<JsonTree, ErrorView>(tree),
        message_content(tree) == Some(content),
        json_read(content) == Ok::<JsonTree, Seq<char>>(JsonTree::Object(values)),
    ensures
        numeric_fallback(request, reply) is Ok <==> forall|i: int|
            0 <= i < request.fields.len() ==> (lookup(
                values,
                (#[trigger] request.fields[i]).key,
            ) matches Some(JsonTree::Number(kind)) && is_finite_bits(real_bits(kind)) && real_le(
                request.fields[i].minimum,
                real_bits(kind),
            ) && real_le(real_bits(kind), request.fields[i].maximum)),
{
    let fields = request.fields;
    lemma_estimates_by_key(fields, values);
    assert forall|i: int, j: int| 0 <= i < j < fields.len() implies (#[trigger] fields[i]).key
        != (#[trigger] fields[j]).key by {
        law_accepted_fields_are_sound(request, i, j);
    }
    if let Ok(estimates) = plain_estimates(fields, values) {
        law_estimates_are_accepted_field_by_field(fields, estimates);
        if numeric_outcome_check(fields, estimates) is Ok {
            assert forall|i: int| 0 <= i < fields.len() implies (lookup(
                values,
                (#[trigger] fields[i]).key,
            ) matches Some(JsonTree::Number(kind)) && is_finite_bits(real_bits(kind)) && real_le(
                fields[i].minimum,
                real_bits(kind),
            ) && real_le(real_bits(kind), fields[i].maximum)) by {
                let k = choose|k: int|
                    0 <= k < fields.len() && allows(#[trigger] fields[k], estimates[i]);
                assert(estimates[i].key == fields[i].key);
                if k < i {
                    assert(fields[k].key != fields[i].key);
                } else if i < k {
                    assert(fields[i].key != fields[k].key);
                }
            }
        }
        if forall|i: int|
            0 <= i < fields.len() ==> (lookup(values, (#[trigger] fields[i]).key) matches Some(
                JsonTree::Number(kind),
            ) && is_finite_bits(real_bits(kind)) && real_le(fields[i].minimum, real_bits(kind))
                && real_le(real_bits(kind), fields[i].maximum)) {
            assert forall|i: int| #![trigger estimates[i]] 0 <= i < estimates.len() implies exists|
                k: int,
            | 0 <= k < fields.len() && allows(#[trigger] fields[k], estimates[i]) by {
                assert(allows(fields[i], estimates[i]));
            }
            assert forall|i: int, j: int| 0 <= i < j < estimates.len() implies (
            #[trigger] estimates[i]).key != (#[trigger] estimates[j]).key by {
                assert(fields[i].key != fields[j].key);
            }
        }
    }
}

/// A joint outcome that is given is the content of the response, at the place of
/// the first allowed record that equals it; a content that equals none is
/// refused.
pub proof fn law_fallback_gives_the_first_equal_record(
    request: JointRequestView,
    reply: ReplyView,
    tree: JsonTree,
    content: Seq<char>,
    values: Seq<(Seq<char>, JsonTree)>,
    i: int,
)
    requires
        request.allowed_records.len() <= usize::MAX,
        reply_tree(reply.body) == Ok::<JsonTree, ErrorView>(tree),
        message_content(tree) == Some(content),
        json_read(content) == Ok::<JsonTree, Seq<char>>(JsonTree::Object(values)),
        0 <= i <= request.allowed_records.len(),
        forall|j: int|
            0 <= j < i ==> !tree_eq(
                JsonTree::Object(#[trigger] request.allowed_records[j]),
                JsonTree::Object(values),
            ),
    ensures
        i < request.allowed_records.len() && tree_eq(
            JsonTree::Object(request.allowed_records[i]),
            JsonTree::Object(values),
        ) ==> (joint_fallback(request, reply) matches Ok(outcome) && {
            &&& outcome.selected_index == i
            &&& outcome.value == values
            &&& outcome.probabilities.len() == 0
            &&& outcome.log_scores.len() == 0
            &&& outcome.resolved_model == reply.resolved_model
            &&& outcome.elapsed_ms == Some((reply.elapsed / 1_000_000) as u128)
            &&& outcome.retries == Some(reply.retries)
            &&& outcome.provider_metadata == member(tree, "providerMetadata"@)
        }),
        i == request.allowed_records.len() ==> joint_fallback(request, reply) == Err::<
            JointOutcomeView,
            BoundedErrorView,
        >(
            BoundedErrorView::InvalidResponse(
                "fallback returned a record outside the finite allowed set"@,
            ),
        ),
{
    let records = request.allowed_records;
    assert forall|j: int| 0 <= j < i implies !members_eq(#[trigger] records[j], values) by {
        assert(!tree_eq(JsonTree::Object(records[j]), JsonTree::Object(values)));
    }
    if i == records.len() || members_eq(records[i], values) {
        lemma_record_place(records, values, i);
    }
}

/// The content of a response is the string at `choices[0].message.content`.
pub proof fn law_content_is_that_of_the_first_choice(
    top: Seq<(Seq<char>, JsonTree)>,
    choices: Seq<JsonTree>,
    choice: Seq<(Seq<char>, JsonTree)>,
    message: Seq<(Seq<char>, JsonTree)>,
    content: Seq<char>,
)
    requires
        lookup(top, "choices"@) == Some(JsonTree::Array(choices)),
    ensures
        choices.len() > 0 && choices[0] == JsonTree::Object(choice) && lookup(choice, "message"@)
            == Some(JsonTree::Object(message)) && lookup(message, "content"@) == Some(
            JsonTree::String(content),
        ) ==> message_content(JsonTree::Object(top)) == Some(content),
        choices.len() == 0 ==> message_content(JsonTree::Object(top)) is None,
{
}

/// A response whose content is missing, is no JSON or is no object gives
/// nothing, and says which; one that failed keeps its error.
pub proof fn law_fallback_without_an_object_gives_nothing(
    numeric: NumericRequestView,
    joint: JointRequestView,
    reply: ReplyView,
)
    ensures
        ({
            let refused = |words: Seq<char>|
                {
                    &&& numeric_fallback(numeric, reply) == Err::<
                        NumericOutcomeView,
                        BoundedErrorView,
                    >(BoundedErrorView::InvalidResponse(words))
                    &&& joint_fallback(joint, reply) == Err::<JointOutcomeView, BoundedErrorView>(
                        BoundedErrorView::InvalidResponse(words),
                    )
                };
            &&& reply_tree(reply.body) matches Err(e) ==> {
                &&& numeric_fallback(numeric, reply) == Err::<
                    NumericOutcomeView,
                    BoundedErrorView,
                >(BoundedErrorView::Transport(e))
                &&& joint_fallback(joint, reply) == Err::<JointOutcomeView, BoundedErrorView>(
                    BoundedErrorView::Transport(e),
                )
            }
            &&& reply_tree(reply.body) matches Ok(tree) ==> match message_content(tree) {
                None => refused("fallback returned no message content"@),
                Some(content) => match json_read(content) {
                    Err(words) => refused("fallback content was not JSON: "@ + words),
                    Ok(JsonTree::Object(_)) => true,
                    Ok(_) => refused("fallback content was not a JSON object"@),
                },
            }
        }),
{
}

/// What the primary gives is handed on as it is. Only where it fails does the
/// fallback count: its outcome is handed on with the failure beside what its
/// provider said, its own failure as it is.
pub proof fn law_fallback_counts_only_where_the_primary_fails(
    primary: Result<NumericOutcomeView, BoundedErrorView>,
    fallback: Result<NumericOutcomeView, BoundedErrorView>,
)
    ensures
        primary is Ok ==> numeric_with_fallback(primary, fallback) == primary,
        primary is Err && fallback is Err ==> numeric_with_fallback(primary, fallback) == fallback,
        primary matches Err(error) ==> (fallback matches Ok(given) ==> {
            &&& numeric_with_fallback(primary, fallback) matches Ok(outcome)
            &&& outcome.estimates == given.estimates
            &&& outcome.resolved_model == given.resolved_model
            &&& outcome.elapsed_ms == given.elapsed_ms
            &&& outcome.retries == given.retries
            &&& outcome.provider_metadata == Some(
                fallback_metadata(given.provider_metadata, error),
            )
        }),
{
}

/// Of joint outcomes the same holds.
pub proof fn law_joint_fallback_counts_only_where_the_primary_fails(
    primary: Result<JointOutcomeView, BoundedErrorView>,
    fallback: Result<JointOutcomeView, BoundedErrorView>,
)
    ensures
        primary is Ok ==> joint_with_fallback(primary, fallback) == primary,
        primary is Err && fallback is Err ==> joint_with_fallback(primary, fallback) == fallback,
        primary matches Err(error) ==> (fallback matches Ok(given) ==> {
            &&& joint_with_fallback(primary, fallback) matches Ok(outcome)
            &&& outcome.selected_index == given.selected_index
            &&& outcome.value == given.value
            &&& outcome.probabilities == given.probabilities
            &&& outcome.log_scores == given.log_scores
            &&& outcome.resolved_model == given.resolved_model
            &&& outcome.elapsed_ms == given.elapsed_ms
            &&& outcome.retries == given.retries
            &&& outcome.provider_metadata == Some(
                fallback_metadata(given.provider_metadata, error),
            )
        }),
{
}

/// An outcome of a fallback says that it is one, why the primary failed and that
/// its distribution is not calibrated, beside what the provider said.
pub proof fn law_fallback_is_marked(previous: Option<JsonTree>, error: BoundedErrorView)
    ensures
        fallback_metadata(previous, error) matches JsonTree::Object(members) && {
            &&& members.len() == 2
            &&& members[0].0 == "ooda"@
            &&& members[0].1 matches JsonTree::Object(marks) && {
                &&& marks.len() == 3
                &&& marks[0] == ("fallback_used"@, JsonTree::Bool(true))
                &&& marks[1] == ("primary_error"@, JsonTree::String(bounded_error_text(error)))
                &&& marks[2] == ("calibrated_distribution"@, JsonTree::Bool(false))
            }
            &&& members[1].0 == "provider"@
            &&& previous matches Some(said) ==> members[1].1 == said
            &&& previous is None ==> members[1].1 is Null
        },
{
}

/// A fallback is asked exactly where the request can be put: for the model, with
/// the task and then the request as its messages, under the strict schema of the
/// same bounds or records, without chance and without a stream.
pub proof fn law_fallback_body_asks_for_the_same_domain(
    model: Seq<char>,
    numeric: NumericRequestView,
    joint: JointRequestView,
)
    ensures
        numeric_fallback_body(model, numeric) is Ok <==> numeric_request_check(numeric) is Ok,
        numeric_request_check(numeric) matches Err(e) ==> numeric_fallback_body(model, numeric)
            == Err::<JsonTree, BoundedErrorView>(e),
        numeric_fallback_body(model, numeric) matches Ok(body) ==> asks(
            body,
            model,
            numeric.instruction + "\n\nObservation:\n"@ + json_text(numeric.observation),
            strict_schema(numeric_properties(numeric.fields)),
        ),
        joint_fallback_body(model, joint) is Ok <==> joint_request_check(joint) is Ok
            && records_schema(joint.allowed_records) is Ok,
        joint_request_check(joint) matches Err(e) ==> joint_fallback_body(model, joint) == Err::<
            JsonTree,
            BoundedErrorView,
        >(e),
        joint_fallback_body(model, joint) matches Ok(body) ==> asks(
            body,
            model,
            joint.instruction + "\nChoose exactly one of these complete records:\n"@ + json_text(
                JsonTree::Array(
                    Seq::new(
                        joint.allowed_records.len(),
                        |i: int| JsonTree::Object(joint.allowed_records[i]),
                    ),
                ),
            ) + "\n\nObservation:\n"@ + json_text(joint.observation),
            records_schema(joint.allowed_records)->Ok_0,
        ),
{
    assert(records_tree(joint.allowed_records)->Array_0 =~= Seq::new(
        joint.allowed_records.len(),
        |i: int| JsonTree::Object(joint.allowed_records[i]),
    ));
    assert(joint_prompt_text(joint) =~= joint.instruction
        + "\nChoose exactly one of these complete records:\n"@ + json_text(
        records_tree(joint.allowed_records),
    ) + "\n\nObservation:\n"@ + json_text(joint.observation));
}

/// Whether a body asks a model to answer a prompt under a schema.
pub open spec fn asks(
    body: JsonTree,
    model: Seq<char>,
    prompt: Seq<char>,
    schema: JsonTree,
) -> bool {
    body matches JsonTree::Object(members) && {
        &&& members.len() == 5
        &&& members[0] == ("model"@, JsonTree::String(model))
        &&& members[1].0 == "messages"@
        &&& members[1].1 matches JsonTree::Array(messages) && {
            &&& messages.len() == 2
            &&& messages[0] matches JsonTree::Object(system) && {
                &&& system.len() == 2
                &&& system[0] == ("role"@, JsonTree::String("system"@))
                &&& system[1] == (
                    "content"@,
                    JsonTree::String(
                        "Return only a value satisfying the supplied strict JSON schema. Do not invent fields or values outside its bounds."@,
                    ),
                )
            }
            &&& messages[1] matches JsonTree::Object(user) && {
                &&& user.len() == 2
                &&& user[0] == ("role"@, JsonTree::String("user"@))
                &&& user[1] == ("content"@, JsonTree::String(prompt))
            }
        }
        &&& members[2] == ("response_format"@, response_format(schema))
        &&& members[3] == ("temperature"@, JsonTree::Number(NumberKind::PosInt(0)))
        &&& members[4] == ("stream"@, JsonTree::Bool(false))
    }
}

/// A content that lacks a number for some field is refused for the first such
/// field, by its key.
pub proof fn law_first_omitted_field_is_named(
    fields: Seq<FieldView>,
    values: Seq<(Seq<char>, JsonTree)>,
    i: int,
)
    requires
        0 <= i < fields.len(),
        forall|j: int|
            0 <= j < i ==> (lookup(values, (#[trigger] fields[j]).key) matches Some(
                JsonTree::Number(_),
            )),
        !(lookup(values, fields[i].key) matches Some(JsonTree::Number(_))),
    ensures
        plain_estimates(fields, values) == Err::<Seq<EstimateView>, BoundedErrorView>(
            BoundedErrorView::InvalidResponse(
                "fallback omitted numeric field "@ + quoted_text(fields[i].key),
            ),
        ),
{
    let earlier = fields.take(i);
    assert forall|j: int| 0 <= j < earlier.len() implies (lookup(
        values,
        (#[trigger] earlier[j]).key,
    ) matches Some(JsonTree::Number(_))) by {
        assert(earlier[j] == fields[j]);
    }
    lemma_estimates_by_key(earlier, values);
    lemma_first_omitted(fields, values, i);
}

} // verus!
