//! Bounded predictions from GPC-1, which answers with a distribution over the
//! supplied domain.
//!
//! [`Gpc1Client`] says what to post to the chat route for a request and reads
//! what came back; posting is the caller's.
use crate::complete::message_members;
use crate::embed::{
    all_numbers, item_reals, law_numbers_are_read_item_by_item, read_reals, real_views,
};
use crate::http::{HttpClient, Reply, ReplyView};
use crate::json::{
    entry_trees, json_read, json_text, member, members_of, object, real_of, real_tree, tree_eq,
    trees, unsigned_of, Json, JsonTree, Object,
};
use crate::names::{lookup, option_view, result_view};
use crate::numeric::{
    estimate_views, field_views, joint_outcome_check, joint_request_check,
    law_joint_outcome_is_accepted_as_an_allowed_record, numeric_outcome_check,
    numeric_request_check, object_views, validate_joint_outcome, validate_joint_request,
    validate_numeric_outcome, validate_numeric_request, BoundedError, BoundedErrorView,
    EstimateView, FieldView, JointOutcome, JointOutcomeView, JointRequest, JointRequestView,
    NumericEstimate, NumericField, NumericOutcome, NumericOutcomeView, NumericRequest,
    NumericRequestView,
};
use crate::number::{real_bits, NumberKind, Real};
use crate::response::{error_message, extract_error_message, read_reply, reply_tree};
use crate::schema::{
    format_of, joint_schema, numeric_properties, numeric_schema, prompt, prompt_text,
    records_schema, response_format, strict_schema,
};
use crate::scripted::strings;
use crate::text;
use vstd::prelude::*;

verus! {

broadcast use vstd::string::group_string_axioms;

/// GPC-1 behind the same authenticated gateway as [`HttpClient`].
///
/// Configure the wrapped client with the GPC-1 model slug that the gateway
/// exposes.
#[derive(Debug)]
pub struct Gpc1Client {
    http: HttpClient,
}

impl View for Gpc1Client {
    type V = HttpClient;

    closed spec fn view(&self) -> HttpClient {
        self.http
    }
}

/// A field of a numeric request as it stands on the wire: what it has no
/// value for is left out.
pub open spec fn field_members(field: FieldView) -> Seq<(Seq<char>, JsonTree)> {
    let always = seq![
        ("key"@, JsonTree::String(field.key)),
        ("description"@, JsonTree::String(field.description)),
        ("minimum"@, real_tree(field.minimum)),
        ("maximum"@, real_tree(field.maximum)),
        ("unit"@, JsonTree::String(field.unit)),
    ];
    let reference = match field.reference {
        Some(reference) => seq![("reference"@, JsonTree::String(reference))],
        None => Seq::empty(),
    };
    let aliases = if field.aliases.len() > 0 {
        seq![
            (
                "aliases"@,
                JsonTree::Array(field.aliases.map_values(|a: Seq<char>| JsonTree::String(a))),
            ),
        ]
    } else {
        Seq::empty()
    };
    always + reference + aliases
}

/// The fields of a numeric request as they stand on the wire.
pub open spec fn fields_tree(fields: Seq<FieldView>) -> JsonTree {
    JsonTree::Array(fields.map_values(|f: FieldView| JsonTree::Object(field_members(f))))
}

/// The options that ask for a distribution over each field's range.
pub open spec fn numeric_options(fields: Seq<FieldView>) -> JsonTree {
    JsonTree::Object(
        seq![
            ("mode"@, JsonTree::String("numeric101"@)),
            ("numeric_fields"@, fields_tree(fields)),
        ],
    )
}

/// The array of some records.
pub open spec fn records_tree(records: Seq<Seq<(Seq<char>, JsonTree)>>) -> JsonTree {
    JsonTree::Array(records.map_values(|r: Seq<(Seq<char>, JsonTree)>| JsonTree::Object(r)))
}

/// The options that ask for one of some records.
pub open spec fn joint_options(records: Seq<Seq<(Seq<char>, JsonTree)>>) -> JsonTree {
    JsonTree::Object(
        seq![
            ("mode"@, JsonTree::String("finite_joint"@)),
            ("allowed_records"@, records_tree(records)),
        ],
    )
}

/// The body of a call.
pub open spec fn gpc1_body(
    model: Seq<char>,
    prompt: Seq<char>,
    schema: JsonTree,
    options: JsonTree,
) -> JsonTree {
    JsonTree::Object(
        seq![
            ("model"@, JsonTree::String(model)),
            (
                "messages"@,
                JsonTree::Array(seq![JsonTree::Object(message_members("user"@, prompt))]),
            ),
            ("response_format"@, response_format(schema)),
            ("gpc1"@, options),
            ("stream"@, JsonTree::Bool(false)),
        ],
    )
}

/// The body of a numeric call, or why the request cannot be put.
pub open spec fn numeric_body(model: Seq<char>, request: NumericRequestView) -> Result<
    JsonTree,
    BoundedErrorView,
> {
    match numeric_request_check(request) {
        Err(e) => Err(e),
        Ok(()) => Ok(
            gpc1_body(
                model,
                prompt_text(request.instruction, request.observation),
                strict_schema(numeric_properties(request.fields)),
                numeric_options(request.fields),
            ),
        ),
    }
}

/// The body of a joint call, or why the request cannot be put.
pub open spec fn joint_body(model: Seq<char>, request: JointRequestView) -> Result<
    JsonTree,
    BoundedErrorView,
> {
    match joint_request_check(request) {
        Err(e) => Err(e),
        Ok(()) => match records_schema(request.allowed_records) {
            Err(e) => Err(e),
            Ok(schema) => Ok(
                gpc1_body(
                    model,
                    prompt_text(request.instruction, request.observation),
                    schema,
                    joint_options(request.allowed_records),
                ),
            ),
        },
    }
}

/// What goes on the wire is the same with any correlation or none.
pub proof fn law_bounded_correlation_is_never_transmitted(
    model: Seq<char>,
    numeric: NumericRequestView,
    joint: JointRequestView,
    correlation: Option<Seq<char>>,
)
    ensures
        numeric_body(model, numeric) == numeric_body(
            model,
            NumericRequestView { correlation, ..numeric },
        ),
        joint_body(model, joint) == joint_body(model, JointRequestView { correlation, ..joint }),
{
}

proof fn lemma_field_keys()
    ensures
        "key"@.len() == 3,
        "description"@.len() == 11,
        "minimum"@.len() == 7,
        "maximum"@.len() == 7,
        "unit"@.len() == 4,
        "reference"@.len() == 9,
        "aliases"@.len() == 7,
        "minimum"@[1] == 'i',
        "maximum"@[1] == 'a',
        "aliases"@[1] == 'l',
{
    reveal_strlit("key");
    reveal_strlit("description");
    reveal_strlit("minimum");
    reveal_strlit("maximum");
    reveal_strlit("unit");
    reveal_strlit("reference");
    reveal_strlit("aliases");
}

fn alias_array(aliases: &Vec<String>) -> (r: Json)
    ensures
        r@ == JsonTree::Array(
            strings(aliases@).map_values(|a: Seq<char>| JsonTree::String(a)),
        ),
{
    broadcast use Json::lemma_tree;

    let mut out: Vec<Json> = Vec::new();
    let mut i: usize = 0;
    while i < aliases.len()
        invariant
            i <= aliases@.len(),
            out@.len() == i,
            forall|j: int| 0 <= j < i ==> (#[trigger] out@[j])@ == JsonTree::String(aliases@[j]@),
        decreases aliases@.len() - i,
    {
        out.push(Json::text(aliases[i].as_str()));
        i += 1;
    }
    assert(trees(out@) =~= strings(aliases@).map_values(|a: Seq<char>| JsonTree::String(a)));
    Json::Array(out)
}

fn field_object(field: &NumericField) -> (r: Json)
    ensures
        r@ == JsonTree::Object(field_members(field@)),
{
    broadcast use Json::lemma_tree;

    proof {
        lemma_field_keys();
    }
    let mut out = Object::new();
    out.put_new("key", Json::text(field.key.as_str()));
    out.put_new("description", Json::text(field.description.as_str()));
    out.put_new("minimum", Json::of_real(&field.minimum));
    out.put_new("maximum", Json::of_real(&field.maximum));
    out.put_new("unit", Json::text(field.unit.as_str()));
    if let Some(reference) = &field.reference {
        out.put_new("reference", Json::text(reference.as_str()));
    }
    if field.aliases.len() > 0 {
        out.put_new("aliases", alias_array(&field.aliases));
    }
    assert(out@ =~= field_members(field@));
    Json::Object(out)
}

fn fields_array(fields: &Vec<NumericField>) -> (r: Json)
    ensures
        r@ == fields_tree(field_views(fields@)),
{
    broadcast use Json::lemma_tree;

    let mut out: Vec<Json> = Vec::new();
    let mut i: usize = 0;
    while i < fields.len()
        invariant
            i <= fields@.len(),
            out@.len() == i,
            forall|j: int|
                0 <= j < i ==> (#[trigger] out@[j])@ == JsonTree::Object(
                    field_members(fields@[j]@),
                ),
        decreases fields@.len() - i,
    {
        out.push(field_object(&fields[i]));
        i += 1;
    }
    assert(trees(out@) =~= fields_tree(field_views(fields@))->Array_0);
    Json::Array(out)
}

/// The array of some records.
pub(crate) fn records_array(records: &Vec<Object>) -> (r: Json)
    ensures
        r@ == records_tree(object_views(records@)),
{
    broadcast use Json::lemma_tree;

    let mut out: Vec<Json> = Vec::new();
    let mut i: usize = 0;
    while i < records.len()
        invariant
            i <= records@.len(),
            out@.len() == i,
            forall|j: int| 0 <= j < i ==> (#[trigger] out@[j])@ == JsonTree::Object(records@[j]@),
        decreases records@.len() - i,
    {
        let record = Json::Object(records[i].clone());
        proof {
            record.lemma_tree();
        }
        out.push(record);
        i += 1;
    }
    assert(trees(out@) =~= records_tree(object_views(records@))->Array_0);
    Json::Array(out)
}

fn numeric_mode(fields: &Vec<NumericField>) -> (r: Json)
    ensures
        r@ == numeric_options(field_views(fields@)),
{
    proof {
        reveal_strlit("mode");
        reveal_strlit("numeric_fields");
        assert("mode"@.len() == 4 && "numeric_fields"@.len() == 14);
    }
    let entries = vec![
        ("mode", Json::text("numeric101")),
        ("numeric_fields", fields_array(fields)),
    ];
    assert(entry_trees(entries@) =~= numeric_options(field_views(fields@))->Object_0);
    object(entries)
}

fn joint_mode(records: &Vec<Object>) -> (r: Json)
    ensures
        r@ == joint_options(object_views(records@)),
{
    proof {
        reveal_strlit("mode");
        reveal_strlit("allowed_records");
        assert("mode"@.len() == 4 && "allowed_records"@.len() == 15);
    }
    let entries = vec![
        ("mode", Json::text("finite_joint")),
        ("allowed_records", records_array(records)),
    ];
    assert(entry_trees(entries@) =~= joint_options(object_views(records@))->Object_0);
    object(entries)
}

/// The numbers in an array under a key, or what is wrong with them.
pub open spec fn numbers_in(members: Seq<(Seq<char>, JsonTree)>, key: Seq<char>) -> Result<
    Seq<u64>,
    BoundedErrorView,
> {
    match lookup(members, key) {
        Some(JsonTree::Array(items)) => if all_numbers(items) {
            Ok(item_reals(items))
        } else {
            Err(BoundedErrorView::InvalidResponse(key + " contains a non-number"@))
        },
        _ => Err(BoundedErrorView::InvalidResponse("missing "@ + key)),
    }
}

/// The numbers in an array under a key that may be absent.
pub open spec fn optional_numbers_in(members: Seq<(Seq<char>, JsonTree)>, key: Seq<char>) -> Result<
    Seq<u64>,
    BoundedErrorView,
> {
    if lookup(members, key) is None {
        Ok(Seq::empty())
    } else {
        numbers_in(members, key)
    }
}

/// The number under a key, or what is said where there is none.
pub open spec fn number_in(value: JsonTree, key: Seq<char>) -> Result<u64, BoundedErrorView> {
    match member(value, key) {
        Some(tree) => match real_of(tree) {
            Some(bits) => Ok(bits),
            None => Err(
                BoundedErrorView::InvalidResponse("numeric field is missing "@ + key),
            ),
        },
        None => Err(BoundedErrorView::InvalidResponse("numeric field is missing "@ + key)),
    }
}

/// The estimate that a response gives for one field, or what is wrong with
/// it.
pub open spec fn estimate_of(key: Seq<char>, value: JsonTree) -> Result<
    EstimateView,
    BoundedErrorView,
> {
    match number_in(value, "map_value"@) {
        Err(e) => Err(e),
        Ok(map_value) => match number_in(value, "expected_value"@) {
            Err(e) => Err(e),
            Ok(expected_value) => {
                let members = members_of(value)->0;
                match numbers_in(members, "probabilities"@) {
                    Err(e) => Err(e),
                    Ok(probabilities) => match optional_numbers_in(
                        members,
                        "normalized_grid"@,
                    ) {
                        Err(e) => Err(e),
                        Ok(normalized_grid) => Ok(
                            EstimateView {
                                key,
                                map_value,
                                expected_value,
                                probabilities,
                                normalized_grid,
                            },
                        ),
                    },
                }
            },
        },
    }
}

/// The estimates that a response gives, or what is wrong with the first that
/// is none.
pub open spec fn estimates_of(members: Seq<(Seq<char>, JsonTree)>) -> Result<
    Seq<EstimateView>,
    BoundedErrorView,
>
    decreases members.len(),
{
    if members.len() == 0 {
        Ok(Seq::empty())
    } else {
        match estimates_of(members.drop_last()) {
            Err(e) => Err(e),
            Ok(front) => match estimate_of(members.last().0, members.last().1) {
                Err(e) => Err(e),
                Ok(estimate) => Ok(front.push(estimate)),
            },
        }
    }
}

/// The value of a response, or why the call failed: it could not be read, or
/// it reports an error.
pub open spec fn call_result(reply: ReplyView) -> Result<JsonTree, BoundedErrorView> {
    match reply_tree(reply.body) {
        Err(e) => Err(BoundedErrorView::Transport(e)),
        Ok(tree) => match error_message(tree) {
            Some(message) => Err(BoundedErrorView::InvalidResponse(message)),
            None => Ok(tree),
        },
    }
}

/// The members of `gpc1.fields` in a response.
pub open spec fn response_fields(tree: JsonTree) -> Option<Seq<(Seq<char>, JsonTree)>> {
    match member(tree, "gpc1"@) {
        Some(gpc1) => match member(gpc1, "fields"@) {
            Some(fields) => members_of(fields),
            None => None,
        },
        None => None,
    }
}

/// What a numeric call gives, by the request and the accepted response:
/// estimates that keep to the request's fields, or why there are none.
pub open spec fn numeric_result(request: NumericRequestView, reply: ReplyView) -> Result<
    NumericOutcomeView,
    BoundedErrorView,
> {
    match call_result(reply) {
        Err(e) => Err(e),
        Ok(tree) => match response_fields(tree) {
            None => Err(BoundedErrorView::InvalidResponse("missing gpc1.fields"@)),
            Some(fields) => match estimates_of(fields) {
                Err(e) => Err(e),
                Ok(estimates) => match numeric_outcome_check(request.fields, estimates) {
                    Err(e) => Err(e),
                    Ok(()) => Ok(
                        NumericOutcomeView {
                            estimates,
                            resolved_model: reply.resolved_model,
                            elapsed_ms: Some((reply.elapsed / 1_000_000) as u128),
                            retries: Some(reply.retries),
                            provider_metadata: member(tree, "providerMetadata"@),
                        },
                    ),
                },
            },
        },
    }
}

/// The parts of a joint response, or what is wrong with them: the index, the
/// record, the probabilities and the scores.
pub open spec fn joint_parts(members: Seq<(Seq<char>, JsonTree)>) -> Result<
    (usize, Seq<(Seq<char>, JsonTree)>, Seq<u64>, Seq<u64>),
    BoundedErrorView,
> {
    let index = match lookup(members, "selected_index"@) {
        Some(tree) => unsigned_of(tree),
        None => None,
    };
    let value = match lookup(members, "value"@) {
        Some(tree) => members_of(tree),
        None => None,
    };
    if index is None || index->0 > usize::MAX {
        Err(BoundedErrorView::InvalidResponse("missing selected_index"@))
    } else if value is None {
        Err(BoundedErrorView::InvalidResponse("missing selected value"@))
    } else {
        match numbers_in(members, "probabilities"@) {
            Err(e) => Err(e),
            Ok(probabilities) => match optional_numbers_in(members, "log_scores"@) {
                Err(e) => Err(e),
                Ok(log_scores) => Ok((index->0 as usize, value->0, probabilities, log_scores)),
            },
        }
    }
}

/// What a joint call gives, by the request and the accepted response: the
/// allowed record at the index that was selected, or why there is none.
pub open spec fn joint_result(request: JointRequestView, reply: ReplyView) -> Result<
    JointOutcomeView,
    BoundedErrorView,
> {
    match call_result(reply) {
        Err(e) => Err(e),
        Ok(tree) => match member(tree, "gpc1"@) {
            Some(JsonTree::Object(members)) => match joint_parts(members) {
                Err(e) => Err(e),
                Ok((selected_index, value, probabilities, log_scores)) =>
                    match joint_outcome_check(
                        request.allowed_records,
                        selected_index,
                        value,
                        probabilities,
                    ) {
                        Err(e) => Err(e),
                        Ok(()) => Ok(
                            JointOutcomeView {
                                selected_index,
                                value,
                                probabilities,
                                log_scores,
                                resolved_model: reply.resolved_model,
                                elapsed_ms: Some((reply.elapsed / 1_000_000) as u128),
                                retries: Some(reply.retries),
                                provider_metadata: member(tree, "providerMetadata"@),
                            },
                        ),
                    },
            },
            _ => Err(BoundedErrorView::InvalidResponse("missing gpc1 result"@)),
        },
    }
}

/// The view of a sequence of numbers that may not be there.
pub open spec fn reals_view(result: Result<Vec<Real>, BoundedError>) -> Result<
    Seq<u64>,
    BoundedErrorView,
> {
    match result {
        Ok(v) => Ok(real_views(v@)),
        Err(e) => Err(e@),
    }
}

fn number(value: &Json, key: &str) -> (r: Result<Real, BoundedError>)
    ensures
        result_view(r) == number_in(value@, key@),
{
    if let Some(tree) = value.get(key) {
        if let Some(x) = tree.as_real() {
            return Ok(x);
        }
    }
    Err(BoundedError::InvalidResponse(text::join2("numeric field is missing ", key)))
}

fn numbers_map(object: &Object, key: &str) -> (r: Result<Vec<Real>, BoundedError>)
    ensures
        reals_view(r) == numbers_in(object@, key@),
{
    match object.get(key) {
        Some(value) => match value.as_array() {
            Some(_) => match read_reals(value) {
                Some(numbers) => Ok(numbers),
                None => Err(
                    BoundedError::InvalidResponse(text::join2(key, " contains a non-number")),
                ),
            },
            None => Err(BoundedError::InvalidResponse(text::join2("missing ", key))),
        },
        None => Err(BoundedError::InvalidResponse(text::join2("missing ", key))),
    }
}

fn optional_numbers_map(object: &Object, key: &str) -> (r: Result<Vec<Real>, BoundedError>)
    ensures
        reals_view(r) == optional_numbers_in(object@, key@),
{
    match object.get(key) {
        None => {
            let none: Vec<Real> = Vec::new();
            assert(real_views(none@) =~= Seq::<u64>::empty());
            Ok(none)
        },
        Some(_) => numbers_map(object, key),
    }
}

fn estimate(key: &str, value: &Json) -> (r: Result<NumericEstimate, BoundedError>)
    ensures
        result_view(r) == estimate_of(key@, value@),
{
    let map_value = match number(value, "map_value") {
        Ok(x) => x,
        Err(e) => {
            return Err(e);
        },
    };
    let expected_value = match number(value, "expected_value") {
        Ok(x) => x,
        Err(e) => {
            return Err(e);
        },
    };
    let object = match value.as_object() {
        Some(object) => object,
        None => {
            return Err(
                BoundedError::InvalidResponse("numeric field result is not an object".to_owned()),
            );
        },
    };
    let probabilities = match numbers_map(object, "probabilities") {
        Ok(numbers) => numbers,
        Err(e) => {
            return Err(e);
        },
    };
    let normalized_grid = match optional_numbers_map(object, "normalized_grid") {
        Ok(numbers) => numbers,
        Err(e) => {
            return Err(e);
        },
    };
    Ok(
        NumericEstimate {
            key: key.to_owned(),
            map_value,
            expected_value,
            probabilities,
            normalized_grid,
        },
    )
}

proof fn lemma_first_bad_estimate(members: Seq<(Seq<char>, JsonTree)>, i: int)
    requires
        0 <= i < members.len(),
        estimates_of(members.take(i)) is Ok,
        estimate_of(members[i].0, members[i].1) is Err,
    ensures
        estimates_of(members) == Err::<Seq<EstimateView>, BoundedErrorView>(
            estimate_of(members[i].0, members[i].1)->Err_0,
        ),
    decreases members.len(),
{
    if i < members.len() - 1 {
        let front = members.drop_last();
        assert(front.take(i) =~= members.take(i));
        lemma_first_bad_estimate(front, i);
    }
}

fn estimates(fields: &Object) -> (r: Result<Vec<NumericEstimate>, BoundedError>)
    ensures
        match r {
            Ok(list) => estimates_of(fields@) == Ok::<Seq<EstimateView>, BoundedErrorView>(
                estimate_views(list@),
            ),
            Err(e) => estimates_of(fields@) == Err::<Seq<EstimateView>, BoundedErrorView>(e@),
        },
{
    let ghost all = fields@;
    let mut out: Vec<NumericEstimate> = Vec::new();
    let mut i: usize = 0;
    assert(estimate_views(out@) =~= Seq::<EstimateView>::empty());
    while i < fields.len()
        invariant
            i <= fields@.len(),
            all == fields@,
            estimates_of(all.take(i as int)) == Ok::<Seq<EstimateView>, BoundedErrorView>(
                estimate_views(out@),
            ),
        decreases fields@.len() - i,
    {
        proof {
            let next = all.take(i + 1);
            assert(next.drop_last() =~= all.take(i as int));
        }
        match estimate(fields.key(i), fields.value(i)) {
            Ok(one) => {
                let ghost before = estimate_views(out@);
                out.push(one);
                assert(estimate_views(out@) =~= before.push(one@));
            },
            Err(e) => {
                proof {
                    lemma_first_bad_estimate(all, i as int);
                }
                return Err(e);
            },
        }
        i += 1;
    }
    assert(all.take(i as int) =~= all);
    Ok(out)
}

/// Reads the response to a call.
fn called(reply: &Reply) -> (r: Result<Json, BoundedError>)
    ensures
        result_view(r) == call_result(reply@),
{
    match read_reply(&reply.body) {
        Ok(value) => match extract_error_message(&value) {
            Some(message) => Err(BoundedError::InvalidResponse(message)),
            None => Ok(value),
        },
        Err(e) => Err(BoundedError::Transport(e)),
    }
}

/// The provider's own metadata in a response.
pub(crate) fn metadata_of(value: &Json) -> (r: Option<Json>)
    ensures
        option_view(r) == member(value@, "providerMetadata"@),
{
    match value.get("providerMetadata") {
        Some(metadata) => Some(metadata.clone()),
        None => None,
    }
}

impl Gpc1Client {
    /// GPC-1 behind a configured client.
    pub fn new(http: HttpClient) -> (r: Self)
        ensures
            r@ == http,
    {
        Gpc1Client { http }
    }

    /// The client behind it.
    pub fn http(&self) -> (r: &HttpClient)
        ensures
            *r == self@,
    {
        &self.http
    }

    fn request(&self, prompt: String, schema: Json, options: Json) -> (r: Json)
        ensures
            r@ == gpc1_body(self@@.model, prompt@, schema@, options@),
    {
        broadcast use Json::lemma_tree;

        let ghost body = gpc1_body(self@@.model, prompt@, schema@, options@);
        proof {
            reveal_strlit("model");
            reveal_strlit("messages");
            reveal_strlit("response_format");
            reveal_strlit("gpc1");
            reveal_strlit("stream");
            assert("model"@.len() == 5 && "messages"@.len() == 8 && "response_format"@.len() == 15);
            assert("gpc1"@.len() == 4 && "stream"@.len() == 6);
        }
        let mut messages: Vec<Json> = Vec::new();
        messages.push(crate::complete::message("user", prompt.as_str()));
        assert(trees(messages@) =~= body->Object_0[1].1->Array_0);
        let entries = vec![
            ("model", Json::text(self.http.model())),
            ("messages", Json::Array(messages)),
            ("response_format", format_of(schema)),
            ("gpc1", options),
            ("stream", Json::Bool(false)),
        ];
        assert(entry_trees(entries@) =~= body->Object_0);
        object(entries)
    }

    /// The body of a call that estimates every field of a request; an error
    /// where the request cannot be put.
    pub fn numeric_body(&self, request: &NumericRequest) -> (r: Result<Json, BoundedError>)
        ensures
            result_view(r) == numeric_body(self@@.model, request@),
    {
        match validate_numeric_request(request) {
            Ok(()) => {},
            Err(e) => {
                return Err(e);
            },
        }
        let schema = numeric_schema(request);
        let prompt = prompt(request.instruction.as_str(), &request.observation);
        Ok(self.request(prompt, schema, numeric_mode(&request.fields)))
    }

    /// Reads the response to such a call: every estimate keeps to the
    /// request's fields.
    pub fn numeric_outcome(&self, request: &NumericRequest, reply: Reply) -> (r: Result<
        NumericOutcome,
        BoundedError,
    >)
        ensures
            result_view(r) == numeric_result(request@, reply@),
    {
        let raw = match called(&reply) {
            Ok(raw) => raw,
            Err(e) => {
                return Err(e);
            },
        };
        let fields = match raw.get("gpc1") {
            Some(gpc1) => match gpc1.get("fields") {
                Some(fields) => fields.as_object(),
                None => None,
            },
            None => None,
        };
        let fields = match fields {
            Some(fields) => fields,
            None => {
                return Err(BoundedError::InvalidResponse("missing gpc1.fields".to_owned()));
            },
        };
        let estimates = match estimates(fields) {
            Ok(estimates) => estimates,
            Err(e) => {
                return Err(e);
            },
        };
        let outcome = NumericOutcome {
            estimates,
            resolved_model: reply.resolved_model,
            elapsed_ms: Some(reply.elapsed.as_millis()),
            retries: Some(reply.retries),
            provider_metadata: metadata_of(&raw),
        };
        match validate_numeric_outcome(request, &outcome) {
            Ok(()) => Ok(outcome),
            Err(e) => Err(e),
        }
    }

    /// The body of a call that selects one of the allowed records; an error
    /// where the request cannot be put.
    pub fn joint_body(&self, request: &JointRequest) -> (r: Result<Json, BoundedError>)
        ensures
            result_view(r) == joint_body(self@@.model, request@),
    {
        match validate_joint_request(request) {
            Ok(()) => {},
            Err(e) => {
                return Err(e);
            },
        }
        let schema = match joint_schema(&request.allowed_records) {
            Ok(schema) => schema,
            Err(e) => {
                return Err(e);
            },
        };
        let prompt = prompt(request.instruction.as_str(), &request.observation);
        Ok(self.request(prompt, schema, joint_mode(&request.allowed_records)))
    }

    /// Reads the response to such a call: what it gives is the allowed record
    /// at the index it selected.
    pub fn joint_outcome(&self, request: &JointRequest, reply: Reply) -> (r: Result<
        JointOutcome,
        BoundedError,
    >)
        ensures
            result_view(r) == joint_result(request@, reply@),
    {
        let raw = match called(&reply) {
            Ok(raw) => raw,
            Err(e) => {
                return Err(e);
            },
        };
        let gpc1 = match raw.get("gpc1") {
            Some(gpc1) => gpc1.as_object(),
            None => None,
        };
        let gpc1 = match gpc1 {
            Some(gpc1) => gpc1,
            None => {
                return Err(BoundedError::InvalidResponse("missing gpc1 result".to_owned()));
            },
        };
        let index: Option<u64> = match gpc1.get("selected_index") {
            Some(value) => value.as_unsigned(),
            None => None,
        };
        let selected_index: usize = match index {
            Some(n) => if n <= usize::MAX as u64 {
                n as usize
            } else {
                return Err(BoundedError::InvalidResponse("missing selected_index".to_owned()));
            },
            None => {
                return Err(BoundedError::InvalidResponse("missing selected_index".to_owned()));
            },
        };
        let value = match gpc1.get("value") {
            Some(value) => value.as_object(),
            None => None,
        };
        let value = match value {
            Some(value) => value.clone(),
            None => {
                return Err(BoundedError::InvalidResponse("missing selected value".to_owned()));
            },
        };
        let probabilities = match numbers_map(gpc1, "probabilities") {
            Ok(numbers) => numbers,
            Err(e) => {
                return Err(e);
            },
        };
        let log_scores = match optional_numbers_map(gpc1, "log_scores") {
            Ok(numbers) => numbers,
            Err(e) => {
                return Err(e);
            },
        };
        let outcome = JointOutcome {
            selected_index,
            value,
            probabilities,
            log_scores,
            resolved_model: reply.resolved_model,
            elapsed_ms: Some(reply.elapsed.as_millis()),
            retries: Some(reply.retries),
            provider_metadata: metadata_of(&raw),
        };
        match validate_joint_outcome(request, &outcome) {
            Ok(()) => Ok(outcome),
            Err(e) => Err(e),
        }
    }
}

/// Whatever a response holds, an outcome that is given keeps to the domain
/// that the request supplied.
pub proof fn law_gpc1_stays_within_the_domain(
    numeric: NumericRequestView,
    joint: JointRequestView,
    reply: ReplyView,
)
    ensures
        numeric_result(numeric, reply) matches Ok(outcome) ==> numeric_outcome_check(
            numeric.fields,
            outcome.estimates,
        ) is Ok,
        joint_result(joint, reply) matches Ok(outcome) ==> joint_outcome_check(
            joint.allowed_records,
            outcome.selected_index,
            outcome.value,
            outcome.probabilities,
        ) is Ok,
{
}

/// Whether some doubles are the numbers of an array, in its order.
pub open spec fn numbers_of(items: Seq<JsonTree>, numbers: Seq<u64>) -> bool {
    &&& items.len() == numbers.len()
    &&& forall|i: int|
        0 <= i < items.len() ==> (#[trigger] items[i]) is Number && numbers[i] == real_bits(
            items[i]->Number_0,
        )
}

/// Whether an estimate is the one that a member of `gpc1.fields` reports: its
/// key, and the numbers under `map_value`, `expected_value`, `probabilities` and
/// `normalized_grid`, of which the last may be absent.
pub open spec fn reports(
    key: Seq<char>,
    value: Seq<(Seq<char>, JsonTree)>,
    estimate: EstimateView,
) -> bool {
    &&& estimate.key == key
    &&& lookup(value, "map_value"@) matches Some(JsonTree::Number(kind)) && real_bits(kind)
        == estimate.map_value
    &&& lookup(value, "expected_value"@) matches Some(JsonTree::Number(kind)) && real_bits(kind)
        == estimate.expected_value
    &&& lookup(value, "probabilities"@) matches Some(JsonTree::Array(items)) && numbers_of(
        items,
        estimate.probabilities,
    )
    &&& match lookup(value, "normalized_grid"@) {
        Some(JsonTree::Array(items)) => numbers_of(items, estimate.normalized_grid),
        Some(_) => false,
        None => estimate.normalized_grid.len() == 0,
    }
}

proof fn lemma_numbers_of(items: Seq<JsonTree>)
    ensures
        all_numbers(items) ==> numbers_of(items, item_reals(items)),
        forall|numbers: Seq<u64>| #[trigger] numbers_of(items, numbers) ==> all_numbers(items) && numbers
            == item_reals(items),
{
    if all_numbers(items) {
        assert forall|i: int| 0 <= i < items.len() implies (#[trigger] items[i]) is Number
            && item_reals(items)[i] == real_bits(items[i]->Number_0) by {
            assert(real_of(items[i]) is Some);
        }
    }
    assert forall|numbers: Seq<u64>| #[trigger] numbers_of(items, numbers) implies all_numbers(items) && numbers
        == item_reals(items) by {
        assert forall|i: int| 0 <= i < items.len() implies real_of(#[trigger] items[i])
            is Some by {
            assert(items[i] is Number);
        }
        assert(numbers =~= item_reals(items));
    }
}

/// The estimate of a field holds the four things that the response reports of
/// it, each under its own name, and a field of which one is missing or is no
/// number has none.
pub proof fn law_estimate_is_the_reported_one(key: Seq<char>, value: JsonTree)
    ensures
        estimate_of(key, value) matches Ok(estimate) ==> value is Object && reports(
            key,
            value->Object_0,
            estimate,
        ),
        forall|estimate: EstimateView|
            value is Object && #[trigger] reports(key, value->Object_0, estimate) ==> estimate_of(
                key,
                value,
            ) == Ok::<EstimateView, BoundedErrorView>(estimate),
        estimate_of(key, value) matches Err(e) ==> e is InvalidResponse,
{
    if let JsonTree::Object(members) = value {
        if let Some(JsonTree::Array(items)) = lookup(members, "probabilities"@) {
            lemma_numbers_of(items);
        }
        if let Some(JsonTree::Array(items)) = lookup(members, "normalized_grid"@) {
            lemma_numbers_of(items);
        }
        assert forall|estimate: EstimateView|
            value is Object && #[trigger] reports(
                key,
                value->Object_0,
                estimate,
            ) implies estimate_of(key, value) == Ok::<EstimateView, BoundedErrorView>(estimate) by {
            if lookup(members, "normalized_grid"@) is None {
                assert(estimate.normalized_grid =~= Seq::empty());
            }
        }
    }
}

proof fn lemma_estimates_reported(members: Seq<(Seq<char>, JsonTree)>)
    ensures
        estimates_of(members) matches Ok(estimates) ==> {
            &&& estimates.len() == members.len()
            &&& forall|i: int|
                0 <= i < members.len() ==> (#[trigger] members[i]).1 is Object && reports(
                    members[i].0,
                    members[i].1->Object_0,
                    estimates[i],
                )
        },
        estimates_of(members) matches Err(e) ==> e is InvalidResponse,
    decreases members.len(),
{
    if members.len() > 0 {
        let front = members.drop_last();
        lemma_estimates_reported(front);
        law_estimate_is_the_reported_one(members.last().0, members.last().1);
        if let Ok(estimates) = estimates_of(members) {
            assert forall|i: int| 0 <= i < members.len() implies (#[trigger] members[i]).1 is Object
                && reports(members[i].0, members[i].1->Object_0, estimates[i]) by {
                if i < front.len() {
                    assert(front[i] == members[i]);
                }
            }
        }
    }
}

proof fn lemma_reported_estimates(
    members: Seq<(Seq<char>, JsonTree)>,
    estimates: Seq<EstimateView>,
)
    requires
        estimates.len() == members.len(),
        forall|i: int|
            0 <= i < members.len() ==> (#[trigger] members[i]).1 is Object && reports(
                members[i].0,
                members[i].1->Object_0,
                estimates[i],
            ),
    ensures
        estimates_of(members) == Ok::<Seq<EstimateView>, BoundedErrorView>(estimates),
    decreases members.len(),
{
    if members.len() > 0 {
        let front = members.drop_last();
        let last = members.len() - 1;
        assert forall|i: int| 0 <= i < front.len() implies (#[trigger] front[i]).1 is Object
            && reports(front[i].0, front[i].1->Object_0, estimates.drop_last()[i]) by {
            assert(front[i] == members[i]);
        }
        lemma_reported_estimates(front, estimates.drop_last());
        law_estimate_is_the_reported_one(members[last].0, members[last].1);
        assert(reports(members[last].0, members[last].1->Object_0, estimates[last]));
        assert(estimates.drop_last().push(estimates.last()) =~= estimates);
    } else {
        assert(estimates =~= Seq::empty());
    }
}

/// An outcome that is given has one estimate for each member of `gpc1.fields`
/// in the body of the response, in their order: the number under `map_value`
/// as the most probable value, the one under `expected_value` as the mean, and
/// the arrays under `probabilities` and `normalized_grid` as the distribution.
/// The model, the time and the retries are those of the response.
pub proof fn law_outcome_holds_the_reported_estimates(
    request: NumericRequestView,
    reply: ReplyView,
    text: Seq<char>,
    top: Seq<(Seq<char>, JsonTree)>,
    gpc1: Seq<(Seq<char>, JsonTree)>,
    fields: Seq<(Seq<char>, JsonTree)>,
)
    requires
        reply.body == Ok::<Seq<char>, Seq<char>>(text),
        json_read(text) == Ok::<JsonTree, Seq<char>>(JsonTree::Object(top)),
        lookup(top, "gpc1"@) == Some(JsonTree::Object(gpc1)),
        lookup(gpc1, "fields"@) == Some(JsonTree::Object(fields)),
    ensures
        numeric_result(request, reply) matches Ok(outcome) ==> {
            &&& outcome.estimates.len() == fields.len()
            &&& forall|i: int|
                #![trigger outcome.estimates[i]]
                0 <= i < fields.len() ==> {
                    let given = outcome.estimates[i];
                    &&& given.key == fields[i].0
                    &&& fields[i].1 matches JsonTree::Object(value) && {
                        &&& lookup(value, "map_value"@) matches Some(JsonTree::Number(kind))
                            && given.map_value == real_bits(kind)
                        &&& lookup(value, "expected_value"@) matches Some(JsonTree::Number(kind))
                            && given.expected_value == real_bits(kind)
                        &&& lookup(value, "probabilities"@) matches Some(JsonTree::Array(items))
                            && numbers_of(items, given.probabilities)
                        &&& lookup(value, "normalized_grid"@) matches Some(tree) ==> tree is Array
                            && numbers_of(tree->Array_0, given.normalized_grid)
                        &&& lookup(value, "normalized_grid"@) is None ==> given.normalized_grid.len()
                            == 0
                    }
                }
            &&& outcome.resolved_model == reply.resolved_model
            &&& outcome.elapsed_ms == Some((reply.elapsed / 1_000_000) as u128)
            &&& outcome.retries == Some(reply.retries)
            &&& outcome.provider_metadata == lookup(top, "providerMetadata"@)
        },
{
    if let Ok(outcome) = numeric_result(request, reply) {
        lemma_estimates_reported(fields);
        assert forall|i: int| #![trigger outcome.estimates[i]] 0 <= i < fields.len() implies reports(
            fields[i].0,
            fields[i].1->Object_0,
            outcome.estimates[i],
        ) && fields[i].1 is Object by {
            assert(fields[i].1 is Object);
        }
    }
}

/// A response that reports an estimate for each field, all of them within the
/// domain, gives an outcome with these estimates.
pub proof fn law_sound_response_gives_its_estimates(
    request: NumericRequestView,
    reply: ReplyView,
    text: Seq<char>,
    top: Seq<(Seq<char>, JsonTree)>,
    gpc1: Seq<(Seq<char>, JsonTree)>,
    fields: Seq<(Seq<char>, JsonTree)>,
    estimates: Seq<EstimateView>,
)
    requires
        reply.body == Ok::<Seq<char>, Seq<char>>(text),
        json_read(text) == Ok::<JsonTree, Seq<char>>(JsonTree::Object(top)),
        lookup(top, "error"@) is None,
        lookup(top, "gpc1"@) == Some(JsonTree::Object(gpc1)),
        lookup(gpc1, "fields"@) == Some(JsonTree::Object(fields)),
        estimates.len() == fields.len(),
        forall|i: int|
            0 <= i < fields.len() ==> (#[trigger] fields[i]).1 is Object && reports(
                fields[i].0,
                fields[i].1->Object_0,
                estimates[i],
            ),
        numeric_outcome_check(request.fields, estimates) is Ok,
    ensures
        numeric_result(request, reply) matches Ok(outcome) && outcome.estimates == estimates,
{
    lemma_reported_estimates(fields, estimates);
}

/// A response without estimates gives no outcome: one that failed keeps its
/// error, one that reports an error is answered with its words, and one that
/// lacks `gpc1.fields` or `gpc1` is refused.
pub proof fn law_response_without_a_result_is_refused(
    numeric: NumericRequestView,
    joint: JointRequestView,
    reply: ReplyView,
)
    ensures
        reply_tree(reply.body) matches Err(e) ==> {
            &&& numeric_result(numeric, reply) == Err::<NumericOutcomeView, BoundedErrorView>(
                BoundedErrorView::Transport(e),
            )
            &&& joint_result(joint, reply) == Err::<JointOutcomeView, BoundedErrorView>(
                BoundedErrorView::Transport(e),
            )
        },
        reply_tree(reply.body) matches Ok(tree) ==> {
            &&& error_message(tree) matches Some(words) ==> {
                &&& numeric_result(numeric, reply) == Err::<NumericOutcomeView, BoundedErrorView>(
                    BoundedErrorView::InvalidResponse(words),
                )
                &&& joint_result(joint, reply) == Err::<JointOutcomeView, BoundedErrorView>(
                    BoundedErrorView::InvalidResponse(words),
                )
            }
            &&& error_message(tree) is None && member(tree, "gpc1"@) is None ==> {
                &&& numeric_result(numeric, reply) == Err::<NumericOutcomeView, BoundedErrorView>(
                    BoundedErrorView::InvalidResponse("missing gpc1.fields"@),
                )
                &&& joint_result(joint, reply) == Err::<JointOutcomeView, BoundedErrorView>(
                    BoundedErrorView::InvalidResponse("missing gpc1 result"@),
                )
            }
        },
{
}

/// A joint outcome that is given holds what the response reports under `gpc1`:
/// the index under `selected_index`, the record under `value`, the numbers under
/// `probabilities` and, where there are any, under `log_scores`. The model, the
/// time and the retries are those of the response.
pub proof fn law_joint_outcome_is_the_reported_record(
    request: JointRequestView,
    reply: ReplyView,
    text: Seq<char>,
    top: Seq<(Seq<char>, JsonTree)>,
    gpc1: Seq<(Seq<char>, JsonTree)>,
)
    requires
        reply.body == Ok::<Seq<char>, Seq<char>>(text),
        json_read(text) == Ok::<JsonTree, Seq<char>>(JsonTree::Object(top)),
        lookup(top, "gpc1"@) == Some(JsonTree::Object(gpc1)),
    ensures
        joint_result(request, reply) matches Ok(outcome) ==> {
            &&& lookup(gpc1, "selected_index"@) == Some(
                JsonTree::Number(NumberKind::PosInt(outcome.selected_index as u64)),
            )
            &&& lookup(gpc1, "value"@) == Some(JsonTree::Object(outcome.value))
            &&& lookup(gpc1, "probabilities"@) matches Some(JsonTree::Array(items)) && numbers_of(
                items,
                outcome.probabilities,
            )
            &&& lookup(gpc1, "log_scores"@) matches Some(tree) ==> tree is Array && numbers_of(
                tree->Array_0,
                outcome.log_scores,
            )
            &&& lookup(gpc1, "log_scores"@) is None ==> outcome.log_scores.len() == 0
            &&& outcome.selected_index < request.allowed_records.len()
            &&& tree_eq(
                JsonTree::Object(request.allowed_records[outcome.selected_index as int]),
                JsonTree::Object(outcome.value),
            )
            &&& outcome.resolved_model == reply.resolved_model
            &&& outcome.elapsed_ms == Some((reply.elapsed / 1_000_000) as u128)
            &&& outcome.retries == Some(reply.retries)
            &&& outcome.provider_metadata == lookup(top, "providerMetadata"@)
        },
{
    if let Some(JsonTree::Array(items)) = lookup(gpc1, "probabilities"@) {
        lemma_numbers_of(items);
    }
    if let Some(JsonTree::Array(items)) = lookup(gpc1, "log_scores"@) {
        lemma_numbers_of(items);
    }
    if let Ok(outcome) = joint_result(request, reply) {
        law_joint_outcome_is_accepted_as_an_allowed_record(
            request.allowed_records,
            outcome.selected_index,
            outcome.value,
            outcome.probabilities,
        );
    }
}

/// A response that reports an allowed record at its index, with a distribution
/// that fits, gives an outcome.
pub proof fn law_reported_record_is_given(
    request: JointRequestView,
    reply: ReplyView,
    text: Seq<char>,
    top: Seq<(Seq<char>, JsonTree)>,
    gpc1: Seq<(Seq<char>, JsonTree)>,
    index: usize,
    value: Seq<(Seq<char>, JsonTree)>,
    items: Seq<JsonTree>,
    probabilities: Seq<u64>,
)
    requires
        reply.body == Ok::<Seq<char>, Seq<char>>(text),
        json_read(text) == Ok::<JsonTree, Seq<char>>(JsonTree::Object(top)),
        lookup(top, "error"@) is None,
        lookup(top, "gpc1"@) == Some(JsonTree::Object(gpc1)),
        lookup(gpc1, "selected_index"@) == Some(
            JsonTree::Number(NumberKind::PosInt(index as u64)),
        ),
        lookup(gpc1, "value"@) == Some(JsonTree::Object(value)),
        lookup(gpc1, "probabilities"@) == Some(JsonTree::Array(items)),
        numbers_of(items, probabilities),
        lookup(gpc1, "log_scores"@) is None,
        joint_outcome_check(request.allowed_records, index, value, probabilities) is Ok,
    ensures
        joint_result(request, reply) matches Ok(outcome) && outcome.selected_index == index
            && outcome.value == value && outcome.probabilities == probabilities,
{
    lemma_numbers_of(items);
}

/// A numeric call is put exactly where the request can be: for the model, with
/// the instruction and the observation as the only message, the strict schema
/// of the fields, and every field with its key, description, bounds and unit.
pub proof fn law_numeric_body_holds_every_field(model: Seq<char>, request: NumericRequestView)
    ensures
        numeric_body(model, request) is Ok <==> numeric_request_check(request) is Ok,
        numeric_request_check(request) matches Err(e) ==> numeric_body(model, request) == Err::<
            JsonTree,
            BoundedErrorView,
        >(e),
        numeric_body(model, request) matches Ok(body) ==> body matches JsonTree::Object(members)
            && {
            &&& members.len() == 5
            &&& members[0] == ("model"@, JsonTree::String(model))
            &&& members[1].0 == "messages"@
            &&& members[1].1 matches JsonTree::Array(messages) && {
                &&& messages.len() == 1
                &&& messages[0] matches JsonTree::Object(message) && {
                    &&& message.len() == 2
                    &&& message[0] == ("role"@, JsonTree::String("user"@))
                    &&& message[1] == (
                        "content"@,
                        JsonTree::String(
                            request.instruction + "\n\nObservation:\n"@ + json_text(
                                request.observation,
                            ),
                        ),
                    )
                }
            }
            &&& members[2] == (
                "response_format"@,
                response_format(strict_schema(numeric_properties(request.fields))),
            )
            &&& members[3].0 == "gpc1"@
            &&& members[3].1 matches JsonTree::Object(options) && {
                &&& options.len() == 2
                &&& options[0] == ("mode"@, JsonTree::String("numeric101"@))
                &&& options[1].0 == "numeric_fields"@
                &&& options[1].1 matches JsonTree::Array(fields) && {
                    &&& fields.len() == request.fields.len()
                    &&& forall|i: int|
                        0 <= i < fields.len() ==> #[trigger] fields[i] == JsonTree::Object(
                            field_members(request.fields[i]),
                        )
                }
            }
            &&& members[4] == ("stream"@, JsonTree::Bool(false))
        },
{
}

/// A field stands on the wire with its key, description, bounds and unit, then
/// its reference and its other names where it has any.
pub proof fn law_field_on_the_wire(field: FieldView)
    ensures
        ({
            let members = field_members(field);
            let at = if field.reference is Some {
                6int
            } else {
                5
            };
            &&& members[0] == ("key"@, JsonTree::String(field.key))
            &&& members[1] == ("description"@, JsonTree::String(field.description))
            &&& members[2] == ("minimum"@, real_tree(field.minimum))
            &&& members[3] == ("maximum"@, real_tree(field.maximum))
            &&& members[4] == ("unit"@, JsonTree::String(field.unit))
            &&& field.reference matches Some(reference) ==> members[5] == (
                "reference"@,
                JsonTree::String(reference),
            )
            &&& field.aliases.len() == 0 ==> members.len() == at
            &&& field.aliases.len() > 0 ==> {
                &&& members.len() == at + 1
                &&& members[at].0 == "aliases"@
                &&& members[at].1 matches JsonTree::Array(names) && names.len()
                    == field.aliases.len() && forall|i: int|
                    0 <= i < names.len() ==> #[trigger] names[i] == JsonTree::String(
                        field.aliases[i],
                    )
            }
        }),
{
}

/// A joint call is put exactly where the request can be and its records have a
/// schema: for the model, with the instruction and the observation, that schema
/// and every allowed record in its place.
pub proof fn law_joint_body_holds_every_record(model: Seq<char>, request: JointRequestView)
    ensures
        joint_body(model, request) is Ok <==> joint_request_check(request) is Ok && records_schema(
            request.allowed_records,
        ) is Ok,
        joint_request_check(request) matches Err(e) ==> joint_body(model, request) == Err::<
            JsonTree,
            BoundedErrorView,
        >(e),
        joint_body(model, request) matches Ok(body) ==> body matches JsonTree::Object(members) && {
            &&& members.len() == 5
            &&& members[0] == ("model"@, JsonTree::String(model))
            &&& members[1].0 == "messages"@
            &&& members[1].1 matches JsonTree::Array(messages) && {
                &&& messages.len() == 1
                &&& messages[0] matches JsonTree::Object(message) && {
                    &&& message.len() == 2
                    &&& message[0] == ("role"@, JsonTree::String("user"@))
                    &&& message[1] == (
                        "content"@,
                        JsonTree::String(
                            request.instruction + "\n\nObservation:\n"@ + json_text(
                                request.observation,
                            ),
                        ),
                    )
                }
            }
            &&& members[2] == (
                "response_format"@,
                response_format(records_schema(request.allowed_records)->Ok_0),
            )
            &&& members[3].0 == "gpc1"@
            &&& members[3].1 matches JsonTree::Object(options) && {
                &&& options.len() == 2
                &&& options[0] == ("mode"@, JsonTree::String("finite_joint"@))
                &&& options[1].0 == "allowed_records"@
                &&& options[1].1 matches JsonTree::Array(records) && {
                    &&& records.len() == request.allowed_records.len()
                    &&& forall|i: int|
                        0 <= i < records.len() ==> #[trigger] records[i] == JsonTree::Object(
                            request.allowed_records[i],
                        )
                }
            }
            &&& members[4] == ("stream"@, JsonTree::Bool(false))
        },
{
}

/// A field of a response that lacks something says what it lacks, and under what
/// name.
pub proof fn law_incomplete_estimate_says_what_it_lacks(
    key: Seq<char>,
    value: Seq<(Seq<char>, JsonTree)>,
)
    ensures
        ({
            let refused = |words: Seq<char>|
                estimate_of(key, JsonTree::Object(value)) == Err::<EstimateView, BoundedErrorView>(
                    BoundedErrorView::InvalidResponse(words),
                );
            let has_map = lookup(value, "map_value"@) matches Some(JsonTree::Number(_));
            let has_mean = lookup(value, "expected_value"@) matches Some(JsonTree::Number(_));
            &&& !has_map ==> refused("numeric field is missing "@ + "map_value"@)
            &&& has_map && !has_mean ==> refused("numeric field is missing "@ + "expected_value"@)
            &&& has_map && has_mean ==> match lookup(value, "probabilities"@) {
                Some(JsonTree::Array(items)) => (exists|i: int|
                    0 <= i < items.len() && !((#[trigger] items[i]) is Number)) ==> refused(
                    "probabilities"@ + " contains a non-number"@,
                ),
                _ => refused("missing "@ + "probabilities"@),
            }
        }),
{
    if let Some(JsonTree::Array(items)) = lookup(value, "probabilities"@) {
        if exists|i: int| 0 <= i < items.len() && !((#[trigger] items[i]) is Number) {
            let i = choose|i: int| 0 <= i < items.len() && !((#[trigger] items[i]) is Number);
            law_numbers_are_read_item_by_item(items, i);
        }
    }
}

/// A joint response that lacks its index or its record says so.
pub proof fn law_incomplete_record_says_what_it_lacks(gpc1: Seq<(Seq<char>, JsonTree)>)
    ensures
        !(lookup(gpc1, "selected_index"@) matches Some(JsonTree::Number(NumberKind::PosInt(_))))
            ==> joint_parts(gpc1) == Err::<
            (usize, Seq<(Seq<char>, JsonTree)>, Seq<u64>, Seq<u64>),
            BoundedErrorView,
        >(BoundedErrorView::InvalidResponse("missing selected_index"@)),
        (lookup(gpc1, "selected_index"@) matches Some(JsonTree::Number(NumberKind::PosInt(n))) && n
            <= usize::MAX) && !(lookup(gpc1, "value"@) matches Some(JsonTree::Object(_)))
            ==> joint_parts(gpc1) == Err::<
            (usize, Seq<(Seq<char>, JsonTree)>, Seq<u64>, Seq<u64>),
            BoundedErrorView,
        >(BoundedErrorView::InvalidResponse("missing selected value"@)),
{
}

} // verus!
