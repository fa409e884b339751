//! Bounded numerical and dependent-record decisions.
//!
//! These are the continuous and joint counterparts to a choice. The caller
//! owns the domain: units, finite bounds, reference frames, and the complete
//! allowed records. A model may score only that supplied support, and every
//! estimate is validated before anyone acts on it.
use crate::embed::real_views;
use crate::error::{error_text, Error, ErrorView};
use crate::json::{members_eq, tree_eq, Json, JsonTree, Object};
use crate::names::{
    duplicate_all, duplicate_option, law_entry_is_read_back, law_new_name_is_one_more_entry, lookup,
    option_view, with_entries, Duplicate, NameMap,
};
use crate::number::{is_finite_bits, real_le, real_lt, shown_text, Real};
use crate::scripted::strings;
use crate::text::{self, decimal_text, is_blank_text, quoted_text};
use vstd::prelude::*;

verus! {

/// One number to estimate.
#[derive(Debug, PartialEq)]
pub struct NumericField {
    /// Its name.
    pub key: String,
    /// What it is.
    pub description: String,
    /// The least value it may take.
    pub minimum: Real,
    /// The greatest value it may take.
    pub maximum: Real,
    /// Its unit.
    pub unit: String,
    /// What it is measured from.
    pub reference: Option<String>,
    /// Other names for it.
    pub aliases: Vec<String>,
}

/// A [`NumericField`], with plain values for its parts.
pub struct FieldView {
    /// Its name.
    pub key: Seq<char>,
    /// What it is.
    pub description: Seq<char>,
    /// The least value it may take.
    pub minimum: u64,
    /// The greatest value it may take.
    pub maximum: u64,
    /// Its unit.
    pub unit: Seq<char>,
    /// What it is measured from.
    pub reference: Option<Seq<char>>,
    /// Other names for it.
    pub aliases: Seq<Seq<char>>,
}

impl View for NumericField {
    type V = FieldView;

    open spec fn view(&self) -> FieldView {
        FieldView {
            key: self.key@,
            description: self.description@,
            minimum: self.minimum@,
            maximum: self.maximum@,
            unit: self.unit@,
            reference: option_view(self.reference),
            aliases: strings(self.aliases@),
        }
    }
}

/// A request for numbers within bounds.
#[derive(Debug, PartialEq)]
pub struct NumericRequest {
    /// The situation.
    pub observation: Json,
    /// What is wanted.
    pub instruction: String,
    /// The numbers to estimate.
    pub fields: Vec<NumericField>,
    /// The caller's own name for the call; it is never sent.
    pub correlation: Option<String>,
}

/// A [`NumericRequest`], with plain values for its parts.
pub struct NumericRequestView {
    /// The situation.
    pub observation: JsonTree,
    /// What is wanted.
    pub instruction: Seq<char>,
    /// The numbers to estimate.
    pub fields: Seq<FieldView>,
    /// The caller's own name for the call.
    pub correlation: Option<Seq<char>>,
}

/// The views of a sequence of fields.
pub open spec fn field_views(fields: Seq<NumericField>) -> Seq<FieldView> {
    fields.map_values(|f: NumericField| f@)
}

impl View for NumericRequest {
    type V = NumericRequestView;

    open spec fn view(&self) -> NumericRequestView {
        NumericRequestView {
            observation: self.observation@,
            instruction: self.instruction@,
            fields: field_views(self.fields@),
            correlation: option_view(self.correlation),
        }
    }
}

/// The estimate of one number.
#[derive(Debug, PartialEq)]
pub struct NumericEstimate {
    /// The name of the field.
    pub key: String,
    /// The most probable value.
    pub map_value: Real,
    /// The mean of the distribution.
    pub expected_value: Real,
    /// The distribution over the field's range, in 101 points; empty where
    /// there is none.
    pub probabilities: Vec<Real>,
    /// The points of the distribution, where the provider gives them.
    pub normalized_grid: Vec<Real>,
}

/// A [`NumericEstimate`], with plain values for its parts.
pub struct EstimateView {
    /// The name of the field.
    pub key: Seq<char>,
    /// The most probable value.
    pub map_value: u64,
    /// The mean.
    pub expected_value: u64,
    /// The distribution.
    pub probabilities: Seq<u64>,
    /// The points of the distribution.
    pub normalized_grid: Seq<u64>,
}

impl View for NumericEstimate {
    type V = EstimateView;

    open spec fn view(&self) -> EstimateView {
        EstimateView {
            key: self.key@,
            map_value: self.map_value@,
            expected_value: self.expected_value@,
            probabilities: real_views(self.probabilities@),
            normalized_grid: real_views(self.normalized_grid@),
        }
    }
}

/// The views of a sequence of estimates.
pub open spec fn estimate_views(estimates: Seq<NumericEstimate>) -> Seq<EstimateView> {
    estimates.map_values(|e: NumericEstimate| e@)
}

/// The numbers that a request for them gave.
#[derive(Debug, PartialEq)]
pub struct NumericOutcome {
    /// One estimate per field.
    pub estimates: Vec<NumericEstimate>,
    /// The model that answered.
    pub resolved_model: Option<String>,
    /// How long the accepted attempt took.
    pub elapsed_ms: Option<u128>,
    /// How many attempts came before it.
    pub retries: Option<u32>,
    /// What the provider said beside.
    pub provider_metadata: Option<Json>,
}

/// A [`NumericOutcome`], with plain values for its parts.
pub struct NumericOutcomeView {
    /// One estimate per field.
    pub estimates: Seq<EstimateView>,
    /// The model that answered.
    pub resolved_model: Option<Seq<char>>,
    /// How long the accepted attempt took.
    pub elapsed_ms: Option<u128>,
    /// How many attempts came before it.
    pub retries: Option<u32>,
    /// What the provider said beside.
    pub provider_metadata: Option<JsonTree>,
}

impl View for NumericOutcome {
    type V = NumericOutcomeView;

    open spec fn view(&self) -> NumericOutcomeView {
        NumericOutcomeView {
            estimates: estimate_views(self.estimates@),
            resolved_model: option_view(self.resolved_model),
            elapsed_ms: self.elapsed_ms,
            retries: self.retries,
            provider_metadata: option_view(self.provider_metadata),
        }
    }
}

/// A request for one of some complete records.
#[derive(Debug, PartialEq)]
pub struct JointRequest {
    /// The situation.
    pub observation: Json,
    /// What is wanted.
    pub instruction: String,
    /// Complete, already-valid records. The model cannot combine fields from
    /// different rows or return a record not present here.
    pub allowed_records: Vec<Object>,
    /// The caller's own name for the call; it is never sent.
    pub correlation: Option<String>,
}

/// The members of a sequence of objects.
pub open spec fn object_views(objects: Seq<Object>) -> Seq<Seq<(Seq<char>, JsonTree)>> {
    objects.map_values(|o: Object| o@)
}

/// A [`JointRequest`], with plain values for its parts.
pub struct JointRequestView {
    /// The situation.
    pub observation: JsonTree,
    /// What is wanted.
    pub instruction: Seq<char>,
    /// The records to choose from.
    pub allowed_records: Seq<Seq<(Seq<char>, JsonTree)>>,
    /// The caller's own name for the call.
    pub correlation: Option<Seq<char>>,
}

impl View for JointRequest {
    type V = JointRequestView;

    open spec fn view(&self) -> JointRequestView {
        JointRequestView {
            observation: self.observation@,
            instruction: self.instruction@,
            allowed_records: object_views(self.allowed_records@),
            correlation: option_view(self.correlation),
        }
    }
}

/// The record that a joint request gave.
#[derive(Debug, PartialEq)]
pub struct JointOutcome {
    /// Its place among the allowed records.
    pub selected_index: usize,
    /// The record.
    pub value: Object,
    /// The distribution over the allowed records; empty where there is none.
    pub probabilities: Vec<Real>,
    /// The scores of the allowed records, where the provider gives them.
    pub log_scores: Vec<Real>,
    /// The model that answered.
    pub resolved_model: Option<String>,
    /// How long the accepted attempt took.
    pub elapsed_ms: Option<u128>,
    /// How many attempts came before it.
    pub retries: Option<u32>,
    /// What the provider said beside.
    pub provider_metadata: Option<Json>,
}

/// A [`JointOutcome`], with plain values for its parts.
pub struct JointOutcomeView {
    /// Its place among the allowed records.
    pub selected_index: usize,
    /// The record.
    pub value: Seq<(Seq<char>, JsonTree)>,
    /// The distribution.
    pub probabilities: Seq<u64>,
    /// The scores.
    pub log_scores: Seq<u64>,
    /// The model that answered.
    pub resolved_model: Option<Seq<char>>,
    /// How long the accepted attempt took.
    pub elapsed_ms: Option<u128>,
    /// How many attempts came before it.
    pub retries: Option<u32>,
    /// What the provider said beside.
    pub provider_metadata: Option<JsonTree>,
}

impl View for JointOutcome {
    type V = JointOutcomeView;

    open spec fn view(&self) -> JointOutcomeView {
        JointOutcomeView {
            selected_index: self.selected_index,
            value: self.value@,
            probabilities: real_views(self.probabilities@),
            log_scores: real_views(self.log_scores@),
            resolved_model: option_view(self.resolved_model),
            elapsed_ms: self.elapsed_ms,
            retries: self.retries,
            provider_metadata: option_view(self.provider_metadata),
        }
    }
}

impl Clone for NumericField {
    fn clone(&self) -> (r: Self)
        ensures
            r@ == self@,
    {
        let r = NumericField {
            key: self.key.clone(),
            description: self.description.clone(),
            minimum: self.minimum.clone(),
            maximum: self.maximum.clone(),
            unit: self.unit.clone(),
            reference: duplicate_option(&self.reference),
            aliases: duplicate_all(&self.aliases),
        };
        assert(r@.aliases =~= self@.aliases);
        r
    }
}

impl Duplicate for NumericField {
    fn duplicate(&self) -> (r: Self) {
        self.clone()
    }
}

impl Clone for NumericRequest {
    fn clone(&self) -> (r: Self)
        ensures
            r@ == self@,
    {
        let r = NumericRequest {
            observation: self.observation.clone(),
            instruction: self.instruction.clone(),
            fields: duplicate_all(&self.fields),
            correlation: duplicate_option(&self.correlation),
        };
        assert(r@.fields =~= self@.fields);
        r
    }
}

impl Clone for NumericEstimate {
    fn clone(&self) -> (r: Self)
        ensures
            r@ == self@,
    {
        let r = NumericEstimate {
            key: self.key.clone(),
            map_value: self.map_value.clone(),
            expected_value: self.expected_value.clone(),
            probabilities: duplicate_all(&self.probabilities),
            normalized_grid: duplicate_all(&self.normalized_grid),
        };
        assert(r@.probabilities =~= self@.probabilities);
        assert(r@.normalized_grid =~= self@.normalized_grid);
        r
    }
}

impl Duplicate for NumericEstimate {
    fn duplicate(&self) -> (r: Self) {
        self.clone()
    }
}

impl Clone for NumericOutcome {
    fn clone(&self) -> (r: Self)
        ensures
            r@ == self@,
    {
        let r = NumericOutcome {
            estimates: duplicate_all(&self.estimates),
            resolved_model: duplicate_option(&self.resolved_model),
            elapsed_ms: self.elapsed_ms,
            retries: self.retries,
            provider_metadata: duplicate_option(&self.provider_metadata),
        };
        assert(r@.estimates =~= self@.estimates);
        r
    }
}

impl Clone for JointRequest {
    fn clone(&self) -> (r: Self)
        ensures
            r@ == self@,
    {
        let r = JointRequest {
            observation: self.observation.clone(),
            instruction: self.instruction.clone(),
            allowed_records: duplicate_all(&self.allowed_records),
            correlation: duplicate_option(&self.correlation),
        };
        assert(r@.allowed_records =~= self@.allowed_records);
        r
    }
}

impl Clone for JointOutcome {
    fn clone(&self) -> (r: Self)
        ensures
            r@ == self@,
    {
        let r = JointOutcome {
            selected_index: self.selected_index,
            value: self.value.clone(),
            probabilities: duplicate_all(&self.probabilities),
            log_scores: duplicate_all(&self.log_scores),
            resolved_model: duplicate_option(&self.resolved_model),
            elapsed_ms: self.elapsed_ms,
            retries: self.retries,
            provider_metadata: duplicate_option(&self.provider_metadata),
        };
        assert(r@.probabilities =~= self@.probabilities);
        assert(r@.log_scores =~= self@.log_scores);
        r
    }
}

/// Why a bounded decision gave nothing.
#[derive(Debug)]
pub enum BoundedError {
    /// The request was not one that can be put.
    InvalidRequest(String),
    /// The response left the domain that was supplied.
    InvalidResponse(String),
    /// The call failed.
    Transport(Error),
}

/// A [`BoundedError`], with texts as sequences of characters.
pub enum BoundedErrorView {
    /// See [`BoundedError::InvalidRequest`].
    InvalidRequest(Seq<char>),
    /// See [`BoundedError::InvalidResponse`].
    InvalidResponse(Seq<char>),
    /// See [`BoundedError::Transport`].
    Transport(ErrorView),
}

impl View for BoundedError {
    type V = BoundedErrorView;

    open spec fn view(&self) -> BoundedErrorView {
        match self {
            BoundedError::InvalidRequest(m) => BoundedErrorView::InvalidRequest(m@),
            BoundedError::InvalidResponse(m) => BoundedErrorView::InvalidResponse(m@),
            BoundedError::Transport(e) => BoundedErrorView::Transport(e@),
        }
    }
}

impl vstd::std_specs::convert::FromSpecImpl<Error> for BoundedError {
    open spec fn obeys_from_spec() -> bool {
        true
    }

    open spec fn from_spec(e: Error) -> BoundedError {
        BoundedError::Transport(e)
    }
}

impl From<Error> for BoundedError {
    fn from(e: Error) -> (r: BoundedError) {
        BoundedError::Transport(e)
    }
}

/// The message of a bounded error.
pub open spec fn bounded_error_text(error: BoundedErrorView) -> Seq<char> {
    match error {
        BoundedErrorView::InvalidRequest(m) => "invalid bounded decision request: "@ + m,
        BoundedErrorView::InvalidResponse(m) =>
            "bounded decision response violated its supplied domain: "@ + m,
        BoundedErrorView::Transport(e) => error_text(e),
    }
}

impl BoundedError {
    /// The message of the error.
    pub fn message(&self) -> (r: String)
        ensures
            r@ == bounded_error_text(self@),
    {
        match self {
            BoundedError::InvalidRequest(m) => text::join2(
                "invalid bounded decision request: ",
                m.as_str(),
            ),
            BoundedError::InvalidResponse(m) => text::join2(
                "bounded decision response violated its supplied domain: ",
                m.as_str(),
            ),
            BoundedError::Transport(e) => e.message(),
        }
    }
}

/// Anything that can make bounded numerical and joint decisions.
pub trait BoundedPredictor {
    /// Estimates every field of a request.
    fn estimate_numeric(&self, request: &NumericRequest) -> Result<NumericOutcome, BoundedError>;

    /// Selects one of the allowed records of a request.
    fn decide_joint(&self, request: &JointRequest) -> Result<JointOutcome, BoundedError>;
}

/// Whether some field has a key.
pub open spec fn has_key(fields: Seq<FieldView>, key: Seq<char>) -> bool {
    exists|i: int| 0 <= i < fields.len() && (#[trigger] fields[i]).key == key
}

/// What is wrong with a field, by the fields before it.
pub open spec fn field_fault(earlier: Seq<FieldView>, field: FieldView) -> Option<Seq<char>> {
    if is_blank_text(field.key) || is_blank_text(field.description) || is_blank_text(field.unit)
        || has_key(earlier, field.key) {
        Some("numeric fields need unique non-empty keys, descriptions, and units"@)
    } else if !is_finite_bits(field.minimum) || !is_finite_bits(field.maximum) || real_le(
        field.maximum,
        field.minimum,
    ) {
        Some("field "@ + quoted_text(field.key) + " needs finite ascending bounds"@)
    } else {
        None
    }
}

/// What is wrong with the first field that has a fault.
pub open spec fn fields_fault(fields: Seq<FieldView>) -> Option<Seq<char>>
    decreases fields.len(),
{
    if fields.len() == 0 {
        None
    } else {
        match fields_fault(fields.drop_last()) {
            Some(fault) => Some(fault),
            None => field_fault(fields.drop_last(), fields.last()),
        }
    }
}

/// Whether a numeric request can be put, or what is wrong with it.
pub open spec fn numeric_request_check(request: NumericRequestView) -> Result<
    (),
    BoundedErrorView,
> {
    if is_blank_text(request.instruction) || request.fields.len() == 0 {
        Err(
            BoundedErrorView::InvalidRequest(
                "numeric request needs an instruction and at least one field"@,
            ),
        )
    } else {
        match fields_fault(request.fields) {
            Some(fault) => Err(BoundedErrorView::InvalidRequest(fault)),
            None => Ok(()),
        }
    }
}

/// The view of a check's result.
pub open spec fn check_view(result: Result<(), BoundedError>) -> Result<(), BoundedErrorView> {
    match result {
        Ok(()) => Ok(()),
        Err(e) => Err(e@),
    }
}

proof fn lemma_first_faulty_field(fields: Seq<FieldView>, i: int)
    requires
        0 <= i < fields.len(),
        fields_fault(fields.take(i)) is None,
        field_fault(fields.take(i), fields[i]) is Some,
    ensures
        fields_fault(fields) == field_fault(fields.take(i), fields[i]),
    decreases fields.len(),
{
    if i < fields.len() - 1 {
        let front = fields.drop_last();
        assert(front.take(i) =~= fields.take(i));
        lemma_first_faulty_field(front, i);
    }
}

fn key_before(fields: &Vec<NumericField>, i: usize) -> (r: bool)
    requires
        i < fields@.len(),
    ensures
        r == has_key(field_views(fields@).take(i as int), fields@[i as int].key@),
{
    let ghost earlier = field_views(fields@).take(i as int);
    let mut j: usize = 0;
    while j < i
        invariant
            j <= i < fields@.len(),
            earlier == field_views(fields@).take(i as int),
            forall|k: int|
                0 <= k < j ==> (#[trigger] earlier[k]).key != fields@[i as int].key@,
        decreases i - j,
    {
        assert(earlier[j as int] == fields@[j as int]@);
        if text::same(fields[j].key.as_str(), fields[i].key.as_str()) {
            return true;
        }
        j += 1;
    }
    false
}

fn fault_of_field(fields: &Vec<NumericField>, i: usize) -> (r: Option<String>)
    requires
        i < fields@.len(),
    ensures
        option_view(r) == field_fault(
            field_views(fields@).take(i as int),
            fields@[i as int]@,
        ),
{
    let field = &fields[i];
    if text::is_blank(field.key.as_str()) || text::is_blank(field.description.as_str())
        || text::is_blank(field.unit.as_str()) || key_before(fields, i) {
        return Some(
            "numeric fields need unique non-empty keys, descriptions, and units".to_owned(),
        );
    }
    if !field.minimum.is_finite() || !field.maximum.is_finite() || field.maximum.at_most(
        &field.minimum,
    ) {
        return Some(
            text::join3(
                "field ",
                text::quoted(field.key.as_str()).as_str(),
                " needs finite ascending bounds",
            ),
        );
    }
    None
}

/// Checks that a numeric request can be put.
pub fn validate_numeric_request(request: &NumericRequest) -> (r: Result<(), BoundedError>)
    ensures
        check_view(r) == numeric_request_check(request@),
{
    if text::is_blank(request.instruction.as_str()) || request.fields.len() == 0 {
        return Err(
            BoundedError::InvalidRequest(
                "numeric request needs an instruction and at least one field".to_owned(),
            ),
        );
    }
    let ghost all = request@.fields;
    let mut i: usize = 0;
    while i < request.fields.len()
        invariant
            i <= request.fields@.len(),
            all == field_views(request.fields@),
            request@.fields == all,
            !is_blank_text(request@.instruction),
            fields_fault(all.take(i as int)) is None,
        decreases request.fields@.len() - i,
    {
        proof {
            let next = all.take(i + 1);
            assert(next.drop_last() =~= all.take(i as int));
        }
        if let Some(fault) = fault_of_field(&request.fields, i) {
            proof {
                lemma_first_faulty_field(all, i as int);
            }
            return Err(BoundedError::InvalidRequest(fault));
        }
        i += 1;
    }
    assert(all.take(i as int) =~= all);
    Ok(())
}

/// A request that can be put has an instruction and fields whose keys are
/// distinct and whose bounds are finite and ascend.
pub proof fn law_accepted_fields_are_sound(request: NumericRequestView, i: int, j: int)
    requires
        numeric_request_check(request) is Ok,
        0 <= i < request.fields.len(),
        0 <= j < request.fields.len(),
    ensures
        !is_blank_text(request.instruction),
        i != j ==> request.fields[i].key != request.fields[j].key,
        is_finite_bits(request.fields[i].minimum),
        is_finite_bits(request.fields[i].maximum),
        real_lt(request.fields[i].minimum, request.fields[i].maximum),
        !is_blank_text(request.fields[i].key),
        !is_blank_text(request.fields[i].description),
        !is_blank_text(request.fields[i].unit),
{
    lemma_no_fault(request.fields, i);
    lemma_no_fault(request.fields, j);
    if i < j {
        let earlier = request.fields.take(j);
        assert(earlier[i] == request.fields[i]);
    } else if j < i {
        let earlier = request.fields.take(i);
        assert(earlier[j] == request.fields[j]);
    }
}

proof fn lemma_no_fault(fields: Seq<FieldView>, i: int)
    requires
        fields_fault(fields) is None,
        0 <= i < fields.len(),
    ensures
        field_fault(fields.take(i), fields[i]) is None,
    decreases fields.len(),
{
    if i < fields.len() - 1 {
        let front = fields.drop_last();
        lemma_no_fault(front, i);
        assert(front.take(i) =~= fields.take(i));
    }
}

/// The fields of a request by their keys; of two with the same key, the
/// later one.
pub open spec fn offered(fields: Seq<FieldView>) -> Seq<(Seq<char>, FieldView)> {
    with_entries(Seq::empty(), fields.map_values(|f: FieldView| (f.key, f)))
}

/// What is offered under a key is the last field of the request that has the
/// key, and something is offered exactly where there is such a field.
pub proof fn law_offered_field_is_the_last_with_its_key(fields: Seq<FieldView>, key: Seq<char>)
    ensures
        lookup(offered(fields), key) is Some == has_key(fields, key),
        lookup(offered(fields), key) matches Some(field) ==> exists|i: int|
            0 <= i < fields.len() && #[trigger] fields[i] == field && field.key == key && forall|
                j: int,
            |
                i < j < fields.len() ==> (#[trigger] fields[j]).key != key,
    decreases fields.len(),
{
    let listed = |s: Seq<FieldView>| s.map_values(|f: FieldView| (f.key, f));
    if fields.len() > 0 {
        let front = fields.drop_last();
        let last = fields.last();
        law_offered_field_is_the_last_with_its_key(front, key);
        assert(listed(fields).drop_last() =~= listed(front));
        law_entry_is_read_back(offered(front), last.key, last, key);
        if last.key != key {
            if let Some(field) = lookup(offered(front), key) {
                let i = choose|i: int|
                    0 <= i < front.len() && #[trigger] front[i] == field && field.key == key
                        && forall|j: int|
                        i < j < front.len() ==> (#[trigger] front[j]).key != key;
                assert forall|j: int| i < j < fields.len() implies (#[trigger] fields[j]).key
                    != key by {
                    if j < front.len() {
                        assert(front[j] == fields[j]);
                    }
                }
            }
            if has_key(fields, key) {
                let i = choose|i: int| 0 <= i < fields.len() && (#[trigger] fields[i]).key == key;
                assert(front[i] == fields[i]);
            }
            if has_key(front, key) {
                let i = choose|i: int| 0 <= i < front.len() && (#[trigger] front[i]).key == key;
            }
        }
    }
}

/// Whether a value lies within the bounds of a field.
pub open spec fn within(value: u64, field: FieldView) -> bool {
    is_finite_bits(value) && real_le(field.minimum, value) && real_le(value, field.maximum)
}

/// What is said of a value that does not lie within the bounds of its field.
pub open spec fn outside_text(name: Seq<char>, value: u64, field: FieldView) -> Seq<char> {
    name + " value "@ + shown_text(value) + (" for "@ + quoted_text(field.key) + " is outside ["@)
        + (shown_text(field.minimum) + ", "@ + shown_text(field.maximum)) + ("] "@ + field.unit)
}

/// Whether every number is finite and not negative.
pub open spec fn non_negative(probabilities: Seq<u64>) -> bool {
    forall|i: int|
        0 <= i < probabilities.len() ==> is_finite_bits(#[trigger] probabilities[i]) && !real_lt(
            probabilities[i],
            0,
        )
}

/// Whether some estimate is of a field.
pub open spec fn has_estimate(estimates: Seq<EstimateView>, key: Seq<char>) -> bool {
    exists|i: int| 0 <= i < estimates.len() && (#[trigger] estimates[i]).key == key
}

/// What is wrong with an estimate, by the estimates before it and the fields
/// that were offered.
pub open spec fn estimate_fault(
    earlier: Seq<EstimateView>,
    estimate: EstimateView,
    fields: Seq<(Seq<char>, FieldView)>,
) -> Option<Seq<char>> {
    match lookup(fields, estimate.key) {
        None => Some("unoffered field "@ + quoted_text(estimate.key)),
        Some(field) => if has_estimate(earlier, estimate.key) {
            Some("repeated field "@ + quoted_text(estimate.key))
        } else if !within(estimate.map_value, field) {
            Some(outside_text("MAP"@, estimate.map_value, field))
        } else if !within(estimate.expected_value, field) {
            Some(outside_text("expected"@, estimate.expected_value, field))
        } else if (estimate.probabilities.len() != 0 && estimate.probabilities.len() != 101)
            || !non_negative(estimate.probabilities) {
            Some(
                "field "@ + quoted_text(field.key)
                    + " needs a non-negative 101-point distribution"@,
            )
        } else {
            None
        },
    }
}

/// What is wrong with the first estimate that has a fault.
pub open spec fn estimates_fault(
    estimates: Seq<EstimateView>,
    fields: Seq<(Seq<char>, FieldView)>,
) -> Option<Seq<char>>
    decreases estimates.len(),
{
    if estimates.len() == 0 {
        None
    } else {
        match estimates_fault(estimates.drop_last(), fields) {
            Some(fault) => Some(fault),
            None => estimate_fault(estimates.drop_last(), estimates.last(), fields),
        }
    }
}

/// Whether the estimates keep to the fields of a request, or what is wrong
/// with them.
pub open spec fn numeric_outcome_check(
    fields: Seq<FieldView>,
    estimates: Seq<EstimateView>,
) -> Result<(), BoundedErrorView> {
    if estimates.len() != offered(fields).len() {
        Err(
            BoundedErrorView::InvalidResponse(
                "received "@ + decimal_text(estimates.len()) + (" estimates for "@ + decimal_text(
                    offered(fields).len(),
                ) + " fields"@),
            ),
        )
    } else {
        match estimates_fault(estimates, offered(fields)) {
            Some(fault) => Err(BoundedErrorView::InvalidResponse(fault)),
            None => Ok(()),
        }
    }
}

proof fn lemma_first_faulty_estimate(
    estimates: Seq<EstimateView>,
    fields: Seq<(Seq<char>, FieldView)>,
    i: int,
)
    requires
        0 <= i < estimates.len(),
        estimates_fault(estimates.take(i), fields) is None,
        estimate_fault(estimates.take(i), estimates[i], fields) is Some,
    ensures
        estimates_fault(estimates, fields) == estimate_fault(
            estimates.take(i),
            estimates[i],
            fields,
        ),
    decreases estimates.len(),
{
    if i < estimates.len() - 1 {
        let front = estimates.drop_last();
        assert(front.take(i) =~= estimates.take(i));
        lemma_first_faulty_estimate(front, fields, i);
    }
}

proof fn lemma_no_faulty_estimate(
    estimates: Seq<EstimateView>,
    fields: Seq<(Seq<char>, FieldView)>,
    i: int,
)
    requires
        estimates_fault(estimates, fields) is None,
        0 <= i < estimates.len(),
    ensures
        estimate_fault(estimates.take(i), estimates[i], fields) is None,
    decreases estimates.len(),
{
    if i < estimates.len() - 1 {
        let front = estimates.drop_last();
        lemma_no_faulty_estimate(front, fields, i);
        assert(front.take(i) =~= estimates.take(i));
    }
}

fn estimate_before(estimates: &Vec<NumericEstimate>, i: usize) -> (r: bool)
    requires
        i < estimates@.len(),
    ensures
        r == has_estimate(
            estimate_views(estimates@).take(i as int),
            estimates@[i as int].key@,
        ),
{
    let ghost earlier = estimate_views(estimates@).take(i as int);
    let mut j: usize = 0;
    while j < i
        invariant
            j <= i < estimates@.len(),
            earlier == estimate_views(estimates@).take(i as int),
            forall|k: int|
                0 <= k < j ==> (#[trigger] earlier[k]).key != estimates@[i as int].key@,
        decreases i - j,
    {
        assert(earlier[j as int] == estimates@[j as int]@);
        if text::same(estimates[j].key.as_str(), estimates[i].key.as_str()) {
            return true;
        }
        j += 1;
    }
    false
}

/// Whether every number is finite and not negative.
pub(crate) fn all_non_negative(probabilities: &Vec<Real>) -> (r: bool)
    ensures
        r == non_negative(real_views(probabilities@)),
{
    let ghost all = real_views(probabilities@);
    let zero = Real::zero();
    let mut i: usize = 0;
    while i < probabilities.len()
        invariant
            i <= probabilities@.len(),
            zero@ == 0,
            all == real_views(probabilities@),
            forall|j: int|
                0 <= j < i ==> is_finite_bits(#[trigger] all[j]) && !real_lt(all[j], 0),
        decreases probabilities@.len() - i,
    {
        assert(all[i as int] == probabilities@[i as int]@);
        if !probabilities[i].is_finite() || probabilities[i].less_than(&zero) {
            return false;
        }
        i += 1;
    }
    true
}

fn is_within(value: &Real, field: &NumericField) -> (r: bool)
    ensures
        r == within(value@, field@),
{
    value.is_finite() && field.minimum.at_most(value) && value.at_most(&field.maximum)
}

fn outside(name: &str, value: &Real, field: &NumericField) -> (r: String)
    ensures
        r@ == outside_text(name@, value@, field@),
{
    let head = text::join3(name, " value ", value.text().as_str());
    let middle = text::join3(
        " for ",
        text::quoted(field.key.as_str()).as_str(),
        " is outside [",
    );
    let bounds = text::join3(field.minimum.text().as_str(), ", ", field.maximum.text().as_str());
    let tail = text::join2("] ", field.unit.as_str());
    text::join2(
        text::join3(head.as_str(), middle.as_str(), bounds.as_str()).as_str(),
        tail.as_str(),
    )
}

fn offered_fields<'a>(fields: &'a Vec<NumericField>) -> (r: NameMap<&'a NumericField>)
    ensures
        r@ == offered(field_views(fields@)),
{
    let ghost listed = field_views(fields@).map_values(|f: FieldView| (f.key, f));
    let mut out: NameMap<&'a NumericField> = NameMap::new();
    let mut i: usize = 0;
    while i < fields.len()
        invariant
            i <= fields@.len(),
            listed == field_views(fields@).map_values(|f: FieldView| (f.key, f)),
            out@ == with_entries(Seq::empty(), listed.take(i as int)),
        decreases fields@.len() - i,
    {
        proof {
            let next = listed.take(i + 1);
            assert(next.drop_last() =~= listed.take(i as int));
        }
        out.insert(fields[i].key.clone(), &fields[i]);
        i += 1;
    }
    assert(listed.take(i as int) =~= listed);
    out
}

fn fault_of_estimate(
    estimates: &Vec<NumericEstimate>,
    i: usize,
    fields: &NameMap<&NumericField>,
) -> (r: Option<String>)
    requires
        i < estimates@.len(),
    ensures
        option_view(r) == estimate_fault(
            estimate_views(estimates@).take(i as int),
            estimates@[i as int]@,
            fields@,
        ),
{
    let estimate = &estimates[i];
    let field = match fields.get(estimate.key.as_str()) {
        Some(field) => *field,
        None => {
            return Some(
                text::join2("unoffered field ", text::quoted(estimate.key.as_str()).as_str()),
            );
        },
    };
    if estimate_before(estimates, i) {
        return Some(
            text::join2("repeated field ", text::quoted(estimate.key.as_str()).as_str()),
        );
    }
    if !is_within(&estimate.map_value, field) {
        return Some(outside("MAP", &estimate.map_value, field));
    }
    if !is_within(&estimate.expected_value, field) {
        return Some(outside("expected", &estimate.expected_value, field));
    }
    if (estimate.probabilities.len() != 0 && estimate.probabilities.len() != 101)
        || !all_non_negative(&estimate.probabilities) {
        return Some(
            text::join3(
                "field ",
                text::quoted(field.key.as_str()).as_str(),
                " needs a non-negative 101-point distribution",
            ),
        );
    }
    None
}

/// Checks that the estimates of an outcome keep to the fields of the request:
/// one each, within its bounds.
pub fn validate_numeric_outcome(request: &NumericRequest, outcome: &NumericOutcome) -> (r: Result<
    (),
    BoundedError,
>)
    ensures
        check_view(r) == numeric_outcome_check(request@.fields, outcome@.estimates),
{
    let fields = offered_fields(&request.fields);
    if outcome.estimates.len() != fields.len() {
        return Err(
            BoundedError::InvalidResponse(
                text::join3(
                    "received ",
                    text::decimal(outcome.estimates.len() as u64).as_str(),
                    text::join3(
                        " estimates for ",
                        text::decimal(fields.len() as u64).as_str(),
                        " fields",
                    ).as_str(),
                ),
            ),
        );
    }
    let ghost all = estimate_views(outcome.estimates@);
    let mut i: usize = 0;
    while i < outcome.estimates.len()
        invariant
            i <= outcome.estimates@.len(),
            all == estimate_views(outcome.estimates@),
            all.len() == fields@.len(),
            fields@ == offered(request@.fields),
            estimates_fault(all.take(i as int), fields@) is None,
        decreases outcome.estimates@.len() - i,
    {
        proof {
            let next = all.take(i + 1);
            assert(next.drop_last() =~= all.take(i as int));
        }
        if let Some(fault) = fault_of_estimate(&outcome.estimates, i, &fields) {
            proof {
                lemma_first_faulty_estimate(all, fields@, i as int);
            }
            return Err(BoundedError::InvalidResponse(fault));
        }
        i += 1;
    }
    assert(all.take(i as int) =~= all);
    Ok(())
}

/// An estimate that is accepted is of a field that was offered, no other
/// estimate is of the same field, and both its values are finite and lie
/// within the field's bounds.
pub proof fn law_accepted_estimates_lie_within_bounds(
    fields: Seq<FieldView>,
    estimates: Seq<EstimateView>,
    i: int,
    j: int,
)
    requires
        numeric_outcome_check(fields, estimates) is Ok,
        0 <= i < estimates.len(),
        0 <= j < estimates.len(),
    ensures
        lookup(offered(fields), estimates[i].key) is Some,
        i != j ==> estimates[i].key != estimates[j].key,
        within(estimates[i].map_value, lookup(offered(fields), estimates[i].key)->0),
        within(estimates[i].expected_value, lookup(offered(fields), estimates[i].key)->0),
        estimates[i].probabilities.len() == 0 || estimates[i].probabilities.len() == 101,
        non_negative(estimates[i].probabilities),
        estimates.len() == offered(fields).len(),
{
    lemma_no_faulty_estimate(estimates, offered(fields), i);
    lemma_no_faulty_estimate(estimates, offered(fields), j);
    if i < j {
        assert(estimates.take(j)[i] == estimates[i]);
    } else if j < i {
        assert(estimates.take(i)[j] == estimates[j]);
    }
}

/// The keys of a record, in order.
pub open spec fn record_keys(record: Seq<(Seq<char>, JsonTree)>) -> Seq<Seq<char>> {
    record.map_values(|m: (Seq<char>, JsonTree)| m.0)
}

/// Whether all records have the keys of the first, in its order.
pub open spec fn same_keys(records: Seq<Seq<(Seq<char>, JsonTree)>>) -> bool {
    forall|i: int|
        0 <= i < records.len() ==> record_keys(#[trigger] records[i]) == record_keys(records[0])
}

/// Whether a joint request can be put, or what is wrong with it.
pub open spec fn joint_request_check(request: JointRequestView) -> Result<(), BoundedErrorView> {
    if is_blank_text(request.instruction) || request.allowed_records.len() < 2 {
        Err(
            BoundedErrorView::InvalidRequest(
                "joint request needs an instruction and at least two records"@,
            ),
        )
    } else if request.allowed_records[0].len() == 0 {
        Err(BoundedErrorView::InvalidRequest("joint records must not be empty"@))
    } else if !same_keys(request.allowed_records) {
        Err(BoundedErrorView::InvalidRequest("joint records must have identical fields"@))
    } else {
        Ok(())
    }
}

fn keys_match(a: &Object, b: &Object) -> (r: bool)
    ensures
        r == (record_keys(a@) == record_keys(b@)),
{
    if a.len() != b.len() {
        assert(record_keys(a@).len() != record_keys(b@).len());
        return false;
    }
    let mut i: usize = 0;
    while i < a.len()
        invariant
            i <= a@.len(),
            a@.len() == b@.len(),
            forall|j: int| 0 <= j < i ==> (#[trigger] a@[j]).0 == b@[j].0,
        decreases a@.len() - i,
    {
        if !text::same(a.key(i), b.key(i)) {
            assert(record_keys(a@)[i as int] != record_keys(b@)[i as int]);
            return false;
        }
        i += 1;
    }
    assert(record_keys(a@) =~= record_keys(b@));
    true
}

/// Checks that a joint request can be put.
pub fn validate_joint_request(request: &JointRequest) -> (r: Result<(), BoundedError>)
    ensures
        check_view(r) == joint_request_check(request@),
{
    if text::is_blank(request.instruction.as_str()) || request.allowed_records.len() < 2 {
        return Err(
            BoundedError::InvalidRequest(
                "joint request needs an instruction and at least two records".to_owned(),
            ),
        );
    }
    let records = &request.allowed_records;
    let ghost all = object_views(records@);
    if records[0].is_empty() {
        return Err(BoundedError::InvalidRequest("joint records must not be empty".to_owned()));
    }
    let mut i: usize = 0;
    while i < records.len()
        invariant
            i <= records@.len(),
            2 <= records@.len(),
            all == object_views(records@),
            request@.allowed_records == all,
            all[0] == records@[0]@,
            all[0].len() != 0,
            !is_blank_text(request@.instruction),
            forall|j: int|
                0 <= j < i ==> record_keys(#[trigger] all[j]) == record_keys(all[0]),
        decreases records@.len() - i,
    {
        assert(all[i as int] == records@[i as int]@);
        if !keys_match(&records[i], &records[0]) {
            return Err(
                BoundedError::InvalidRequest("joint records must have identical fields".to_owned()),
            );
        }
        i += 1;
    }
    Ok(())
}

/// Whether a joint outcome is one of the allowed records, or what is wrong
/// with it.
pub open spec fn joint_outcome_check(
    records: Seq<Seq<(Seq<char>, JsonTree)>>,
    selected_index: usize,
    value: Seq<(Seq<char>, JsonTree)>,
    probabilities: Seq<u64>,
) -> Result<(), BoundedErrorView> {
    if selected_index >= records.len() || !members_eq(records[selected_index as int], value) {
        Err(
            BoundedErrorView::InvalidResponse(
                "selected joint record was not the supplied row at selected_index"@,
            ),
        )
    } else if (probabilities.len() != 0 && probabilities.len() != records.len()) || !non_negative(
        probabilities,
    ) {
        Err(
            BoundedErrorView::InvalidResponse(
                "joint probabilities do not match the allowed record set"@,
            ),
        )
    } else {
        Ok(())
    }
}

/// Checks that a joint outcome is the allowed record at its index.
pub fn validate_joint_outcome(request: &JointRequest, outcome: &JointOutcome) -> (r: Result<
    (),
    BoundedError,
>)
    ensures
        check_view(r) == joint_outcome_check(
            request@.allowed_records,
            outcome@.selected_index,
            outcome@.value,
            outcome@.probabilities,
        ),
{
    let records = &request.allowed_records;
    let found = if outcome.selected_index < records.len() {
        records[outcome.selected_index].equals(&outcome.value)
    } else {
        false
    };
    if !found {
        return Err(
            BoundedError::InvalidResponse(
                "selected joint record was not the supplied row at selected_index".to_owned(),
            ),
        );
    }
    if (outcome.probabilities.len() != 0 && outcome.probabilities.len() != records.len())
        || !all_non_negative(&outcome.probabilities) {
        return Err(
            BoundedError::InvalidResponse(
                "joint probabilities do not match the allowed record set".to_owned(),
            ),
        );
    }
    Ok(())
}

/// A joint outcome that is accepted equals the allowed record at its index:
/// it is never made up of fields from different rows.
pub proof fn law_accepted_record_is_an_allowed_one(
    records: Seq<Seq<(Seq<char>, JsonTree)>>,
    selected_index: usize,
    value: Seq<(Seq<char>, JsonTree)>,
    probabilities: Seq<u64>,
)
    requires
        joint_outcome_check(records, selected_index, value, probabilities) is Ok,
    ensures
        selected_index < records.len(),
        members_eq(records[selected_index as int], value),
        value.len() == records[selected_index as int].len(),
        forall|i: int|
            0 <= i < value.len() ==> {
                let (key, tree) = #[trigger] records[selected_index as int][i];
                lookup(value, key) is Some && tree_eq(tree, lookup(value, key)->0)
            },
{
}

/// A numeric request can be put exactly where it has an instruction and a
/// field, and every field has a key of its own, a description, a unit, and
/// finite bounds of which the lower is below the upper.
pub proof fn law_sound_request_is_accepted(request: NumericRequestView)
    ensures
        numeric_request_check(request) is Ok <==> {
            &&& !is_blank_text(request.instruction)
            &&& request.fields.len() > 0
            &&& forall|i: int|
                0 <= i < request.fields.len() ==> {
                    &&& !is_blank_text((#[trigger] request.fields[i]).key)
                    &&& !is_blank_text(request.fields[i].description)
                    &&& !is_blank_text(request.fields[i].unit)
                    &&& is_finite_bits(request.fields[i].minimum)
                    &&& is_finite_bits(request.fields[i].maximum)
                    &&& real_lt(request.fields[i].minimum, request.fields[i].maximum)
                }
            &&& forall|i: int, j: int|
                0 <= i < j < request.fields.len() ==> (#[trigger] request.fields[i]).key
                    != (#[trigger] request.fields[j]).key
        },
        numeric_request_check(request) matches Err(e) ==> e is InvalidRequest,
{
    if numeric_request_check(request) is Ok {
        assert forall|i: int| 0 <= i < request.fields.len() implies {
            &&& !is_blank_text((#[trigger] request.fields[i]).key)
            &&& !is_blank_text(request.fields[i].description)
            &&& !is_blank_text(request.fields[i].unit)
            &&& is_finite_bits(request.fields[i].minimum)
            &&& is_finite_bits(request.fields[i].maximum)
            &&& real_lt(request.fields[i].minimum, request.fields[i].maximum)
        } by {
            law_accepted_fields_are_sound(request, i, i);
        }
        assert forall|i: int, j: int| 0 <= i < j < request.fields.len() implies (
        #[trigger] request.fields[i]).key != (#[trigger] request.fields[j]).key by {
            law_accepted_fields_are_sound(request, i, j);
        }
    }
    if {
        &&& forall|i: int|
            0 <= i < request.fields.len() ==> {
                &&& !is_blank_text((#[trigger] request.fields[i]).key)
                &&& !is_blank_text(request.fields[i].description)
                &&& !is_blank_text(request.fields[i].unit)
                &&& is_finite_bits(request.fields[i].minimum)
                &&& is_finite_bits(request.fields[i].maximum)
                &&& real_lt(request.fields[i].minimum, request.fields[i].maximum)
            }
        &&& forall|i: int, j: int|
            0 <= i < j < request.fields.len() ==> (#[trigger] request.fields[i]).key
                != (#[trigger] request.fields[j]).key
    } {
        lemma_sound_fields(request.fields, request.fields.len() as int);
        assert(request.fields.take(request.fields.len() as int) =~= request.fields);
    }
}

proof fn lemma_sound_fields(fields: Seq<FieldView>, n: int)
    requires
        0 <= n <= fields.len(),
        forall|i: int|
            0 <= i < fields.len() ==> {
                &&& !is_blank_text((#[trigger] fields[i]).key)
                &&& !is_blank_text(fields[i].description)
                &&& !is_blank_text(fields[i].unit)
                &&& is_finite_bits(fields[i].minimum)
                &&& is_finite_bits(fields[i].maximum)
                &&& real_lt(fields[i].minimum, fields[i].maximum)
            },
        forall|i: int, j: int|
            0 <= i < j < fields.len() ==> (#[trigger] fields[i]).key != (#[trigger] fields[j]).key,
    ensures
        fields_fault(fields.take(n)) is None,
    decreases n,
{
    if n > 0 {
        let front = fields.take(n - 1);
        lemma_sound_fields(fields, n - 1);
        assert(fields.take(n).drop_last() =~= front);
        assert(fields.take(n).last() == fields[n - 1]);
        assert(!has_key(front, fields[n - 1].key)) by {
            if has_key(front, fields[n - 1].key) {
                let i = choose|i: int|
                    0 <= i < front.len() && (#[trigger] front[i]).key == fields[n - 1].key;
                assert(front[i] == fields[i]);
            }
        }
    }
}

proof fn lemma_offered_all(fields: Seq<FieldView>)
    requires
        forall|i: int, j: int|
            0 <= i < j < fields.len() ==> (#[trigger] fields[i]).key != (#[trigger] fields[j]).key,
    ensures
        offered(fields).len() == fields.len(),
        forall|k: int|
            0 <= k < fields.len() ==> lookup(offered(fields), (#[trigger] fields[k]).key) == Some(
                fields[k],
            ),
    decreases fields.len(),
{
    if fields.len() > 0 {
        let front = fields.drop_last();
        let last = fields.last();
        assert forall|i: int, j: int| 0 <= i < j < front.len() implies (#[trigger] front[i]).key
            != (#[trigger] front[j]).key by {
            assert(fields[i].key != fields[j].key);
        }
        lemma_offered_all(front);
        let listed = |s: Seq<FieldView>| s.map_values(|f: FieldView| (f.key, f));
        assert(listed(fields).drop_last() =~= listed(front));
        law_offered_field_is_the_last_with_its_key(front, last.key);
        assert(!has_key(front, last.key)) by {
            if has_key(front, last.key) {
                let i = choose|i: int|
                    0 <= i < front.len() && (#[trigger] front[i]).key == last.key;
                assert(fields[i].key == fields[fields.len() - 1].key);
            }
        }
        law_new_name_is_one_more_entry(offered(front), last.key, last);
        assert forall|k: int| 0 <= k < fields.len() implies lookup(
            offered(fields),
            (#[trigger] fields[k]).key,
        ) == Some(fields[k]) by {
            law_entry_is_read_back(offered(front), last.key, last, fields[k].key);
            if k < front.len() {
                assert(front[k] == fields[k]);
                assert(fields[k].key != fields[fields.len() - 1].key);
            }
        }
    }
}

/// Whether an estimate is one that a field allows: it has the field's key, both
/// its values are finite and within the field's bounds, and its distribution is
/// left out or has 101 points, none of them negative.
pub open spec fn allows(field: FieldView, estimate: EstimateView) -> bool {
    &&& field.key == estimate.key
    &&& is_finite_bits(estimate.map_value)
    &&& real_le(field.minimum, estimate.map_value)
    &&& real_le(estimate.map_value, field.maximum)
    &&& is_finite_bits(estimate.expected_value)
    &&& real_le(field.minimum, estimate.expected_value)
    &&& real_le(estimate.expected_value, field.maximum)
    &&& estimate.probabilities.len() == 0 || estimate.probabilities.len() == 101
    &&& forall|p: int|
        0 <= p < estimate.probabilities.len() ==> is_finite_bits(
            #[trigger] estimate.probabilities[p],
        ) && real_le(0, estimate.probabilities[p])
}

/// Estimates of a request's fields are accepted exactly where there are as many
/// as fields, no two are of one field, and each is one that a field of the
/// request allows.
pub proof fn law_estimates_are_accepted_field_by_field(
    fields: Seq<FieldView>,
    estimates: Seq<EstimateView>,
)
    requires
        forall|i: int, j: int|
            0 <= i < j < fields.len() ==> (#[trigger] fields[i]).key != (#[trigger] fields[j]).key,
    ensures
        numeric_outcome_check(fields, estimates) is Ok <==> {
            &&& estimates.len() == fields.len()
            &&& forall|i: int, j: int|
                0 <= i < j < estimates.len() ==> (#[trigger] estimates[i]).key
                    != (#[trigger] estimates[j]).key
            &&& forall|i: int|
                #![trigger estimates[i]]
                0 <= i < estimates.len() ==> exists|k: int|
                    0 <= k < fields.len() && allows(#[trigger] fields[k], estimates[i])
        },
        numeric_outcome_check(fields, estimates) matches Err(e) ==> e is InvalidResponse,
{
    lemma_offered_all(fields);
    if numeric_outcome_check(fields, estimates) is Ok {
        assert forall|i: int, j: int| 0 <= i < j < estimates.len() implies (
        #[trigger] estimates[i]).key != (#[trigger] estimates[j]).key by {
            law_accepted_estimates_lie_within_bounds(fields, estimates, i, j);
        }
        assert forall|i: int| #![trigger estimates[i]] 0 <= i < estimates.len() implies exists|
            k: int,
        | 0 <= k < fields.len() && allows(#[trigger] fields[k], estimates[i]) by {
            law_accepted_estimates_lie_within_bounds(fields, estimates, i, i);
            law_offered_field_is_the_last_with_its_key(fields, estimates[i].key);
            let k = choose|k: int|
                0 <= k < fields.len() && (#[trigger] fields[k]).key == estimates[i].key;
            assert(lookup(offered(fields), fields[k].key) == Some(fields[k]));
            assert(allows(fields[k], estimates[i]));
        }
    }
    if {
        &&& estimates.len() == fields.len()
        &&& forall|i: int, j: int|
            0 <= i < j < estimates.len() ==> (#[trigger] estimates[i]).key
                != (#[trigger] estimates[j]).key
        &&& forall|i: int|
            #![trigger estimates[i]]
            0 <= i < estimates.len() ==> exists|k: int|
                0 <= k < fields.len() && allows(#[trigger] fields[k], estimates[i])
    } {
        lemma_allowed_estimates(fields, estimates, estimates.len() as int);
        assert(estimates.take(estimates.len() as int) =~= estimates);
    }
}

proof fn lemma_allowed_estimates(fields: Seq<FieldView>, estimates: Seq<EstimateView>, n: int)
    requires
        0 <= n <= estimates.len(),
        forall|k: int|
            0 <= k < fields.len() ==> lookup(offered(fields), (#[trigger] fields[k]).key) == Some(
                fields[k],
            ),
        forall|i: int, j: int|
            0 <= i < j < estimates.len() ==> (#[trigger] estimates[i]).key
                != (#[trigger] estimates[j]).key,
        forall|i: int|
            #![trigger estimates[i]]
            0 <= i < estimates.len() ==> exists|k: int|
                0 <= k < fields.len() && allows(#[trigger] fields[k], estimates[i]),
    ensures
        estimates_fault(estimates.take(n), offered(fields)) is None,
    decreases n,
{
    if n > 0 {
        let front = estimates.take(n - 1);
        let last = estimates[n - 1];
        lemma_allowed_estimates(fields, estimates, n - 1);
        assert(estimates.take(n).drop_last() =~= front);
        assert(estimates.take(n).last() == last);
        let k = choose|k: int| 0 <= k < fields.len() && allows(#[trigger] fields[k], last);
        assert(lookup(offered(fields), last.key) == Some(fields[k]));
        assert(!has_estimate(front, last.key)) by {
            if has_estimate(front, last.key) {
                let i = choose|i: int|
                    0 <= i < front.len() && (#[trigger] front[i]).key == last.key;
                assert(front[i] == estimates[i]);
            }
        }
        assert(non_negative(last.probabilities));
    }
}

/// A joint request can be put exactly where it has an instruction, at least two
/// records, and the keys of the first, of which there are some, stand in the
/// same order in all of them.
pub proof fn law_joint_request_needs_like_records(request: JointRequestView)
    ensures
        joint_request_check(request) is Ok <==> {
            &&& !is_blank_text(request.instruction)
            &&& request.allowed_records.len() >= 2
            &&& request.allowed_records[0].len() > 0
            &&& forall|i: int|
                0 <= i < request.allowed_records.len() ==> (#[trigger] request.allowed_records[i]).len()
                    == request.allowed_records[0].len()
            &&& forall|i: int, k: int|
                0 <= i < request.allowed_records.len() && 0 <= k < request.allowed_records[0].len()
                    ==> (#[trigger] request.allowed_records[i][k]).0
                    == request.allowed_records[0][k].0
        },
        joint_request_check(request) matches Err(e) ==> e is InvalidRequest,
{
    let records = request.allowed_records;
    if records.len() >= 2 {
        if same_keys(records) {
            assert forall|i: int| 0 <= i < records.len() implies (#[trigger] records[i]).len()
                == records[0].len() by {
                assert(record_keys(records[i]).len() == record_keys(records[0]).len());
            }
            assert forall|i: int, k: int|
                0 <= i < records.len() && 0 <= k < records[0].len() implies (
            #[trigger] records[i][k]).0 == records[0][k].0 by {
                assert(records[i].len() == records[0].len());
                assert(record_keys(records[i])[k] == record_keys(records[0])[k]);
            }
        }
        if {
            &&& forall|i: int|
                0 <= i < records.len() ==> (#[trigger] records[i]).len() == records[0].len()
            &&& forall|i: int, k: int|
                0 <= i < records.len() && 0 <= k < records[0].len() ==> (
                #[trigger] records[i][k]).0 == records[0][k].0
        } {
            assert forall|i: int| 0 <= i < records.len() implies record_keys(#[trigger] records[i])
                == record_keys(records[0]) by {
                assert(record_keys(records[i]) =~= record_keys(records[0]));
            }
        }
    }
}

/// A joint outcome is accepted exactly where it is the allowed record at its
/// index and its distribution is left out or has one point for each record,
/// none of them negative.
pub proof fn law_joint_outcome_is_accepted_as_an_allowed_record(
    records: Seq<Seq<(Seq<char>, JsonTree)>>,
    selected_index: usize,
    value: Seq<(Seq<char>, JsonTree)>,
    probabilities: Seq<u64>,
)
    ensures
        joint_outcome_check(records, selected_index, value, probabilities) is Ok <==> {
            &&& selected_index < records.len()
            &&& tree_eq(
                JsonTree::Object(records[selected_index as int]),
                JsonTree::Object(value),
            )
            &&& probabilities.len() == 0 || probabilities.len() == records.len()
            &&& forall|p: int|
                0 <= p < probabilities.len() ==> is_finite_bits(#[trigger] probabilities[p])
                    && real_le(0, probabilities[p])
        },
        joint_outcome_check(records, selected_index, value, probabilities) matches Err(e) ==> e
            is InvalidResponse,
{
    if non_negative(probabilities) {
        assert forall|p: int| 0 <= p < probabilities.len() implies is_finite_bits(
            #[trigger] probabilities[p],
        ) && real_le(0, probabilities[p]) by {}
    }
    if forall|p: int|
        0 <= p < probabilities.len() ==> is_finite_bits(#[trigger] probabilities[p]) && real_le(
            0,
            probabilities[p],
        ) {
        assert(non_negative(probabilities));
    }
}

/// The message of an error says whether the request or the response was at
/// fault, and is that of the call where the call failed.
pub proof fn law_bounded_error_says_what_was_at_fault(words: Seq<char>, error: ErrorView)
    ensures
        bounded_error_text(BoundedErrorView::InvalidRequest(words))
            == "invalid bounded decision request: "@ + words,
        bounded_error_text(BoundedErrorView::InvalidResponse(words))
            == "bounded decision response violated its supplied domain: "@ + words,
        bounded_error_text(BoundedErrorView::Transport(error)) == error_text(error),
{
}

/// What is said of a value outside its field's bounds names the value, the
/// field, both bounds and the unit.
pub proof fn law_value_outside_its_bounds_is_named(
    fields: Seq<FieldView>,
    estimate: EstimateView,
    field: FieldView,
)
    requires
        lookup(offered(fields), estimate.key) == Some(field),
    ensures
        ({
            let tail = " for "@ + quoted_text(field.key) + " is outside ["@ + shown_text(
                field.minimum,
            ) + ", "@ + shown_text(field.maximum) + "] "@ + field.unit;
            let fault = estimate_fault(Seq::empty(), estimate, offered(fields));
            let within_bounds = |value: u64|
                is_finite_bits(value) && real_le(field.minimum, value) && real_le(
                    value,
                    field.maximum,
                );
            &&& !within_bounds(estimate.map_value) ==> fault == Some(
                "MAP value "@ + shown_text(estimate.map_value) + tail,
            )
            &&& within_bounds(estimate.map_value) && !within_bounds(estimate.expected_value)
                ==> fault == Some("expected value "@ + shown_text(estimate.expected_value) + tail)
        }),
{
    reveal_strlit("MAP");
    reveal_strlit("expected");
    reveal_strlit(" value ");
    reveal_strlit("MAP value ");
    reveal_strlit("expected value ");
    let tail = " for "@ + quoted_text(field.key) + " is outside ["@ + shown_text(field.minimum)
        + ", "@ + shown_text(field.maximum) + "] "@ + field.unit;
    assert("MAP"@ + " value "@ =~= "MAP value "@);
    assert("expected"@ + " value "@ =~= "expected value "@);
    assert(outside_text("MAP"@, estimate.map_value, field) =~= "MAP value "@ + shown_text(
        estimate.map_value,
    ) + tail);
    assert(outside_text("expected"@, estimate.expected_value, field) =~= "expected value "@
        + shown_text(estimate.expected_value) + tail);
}

/// A request is refused for the first field at fault, and says whether it lacks
/// a key of its own, a description or a unit, or bounds that ascend.
pub proof fn law_first_faulty_field_is_named(request: NumericRequestView, i: int)
    ensures
        is_blank_text(request.instruction) || request.fields.len() == 0 ==> numeric_request_check(
            request,
        ) == Err::<(), BoundedErrorView>(
            BoundedErrorView::InvalidRequest(
                "numeric request needs an instruction and at least one field"@,
            ),
        ),
        !is_blank_text(request.instruction) && 0 <= i < request.fields.len() && numeric_request_check(
            NumericRequestView { fields: request.fields.take(i), ..request },
        ) is Ok ==> {
            let field = request.fields[i];
            let named = !is_blank_text(field.key) && !is_blank_text(field.description)
                && !is_blank_text(field.unit) && forall|j: int|
                0 <= j < i ==> (#[trigger] request.fields[j]).key != field.key;
            &&& !named ==> numeric_request_check(request) == Err::<(), BoundedErrorView>(
                BoundedErrorView::InvalidRequest(
                    "numeric fields need unique non-empty keys, descriptions, and units"@,
                ),
            )
            &&& named && !(is_finite_bits(field.minimum) && is_finite_bits(field.maximum)
                && real_lt(field.minimum, field.maximum)) ==> numeric_request_check(request)
                == Err::<(), BoundedErrorView>(
                BoundedErrorView::InvalidRequest(
                    "field "@ + quoted_text(field.key) + " needs finite ascending bounds"@,
                ),
            )
        },
{
    if !is_blank_text(request.instruction) && 0 <= i < request.fields.len() && numeric_request_check(
        NumericRequestView { fields: request.fields.take(i), ..request },
    ) is Ok {
        let earlier = request.fields.take(i);
        let field = request.fields[i];
        if has_key(earlier, field.key) {
            let j = choose|j: int| 0 <= j < earlier.len() && (#[trigger] earlier[j]).key
                == field.key;
            assert(request.fields[j].key == field.key);
        } else {
            assert forall|j: int| 0 <= j < i implies (#[trigger] request.fields[j]).key
                != field.key by {
                assert(earlier[j] == request.fields[j]);
            }
        }
        if field_fault(earlier, field) is Some {
            lemma_first_faulty_field(request.fields, i);
        }
    }
}

/// Estimates are refused for their number, else for the first at fault: one of a
/// field that was not offered, of a field that an earlier one is of, or with a
/// distribution that is none.
pub proof fn law_first_faulty_estimate_is_named(
    fields: Seq<FieldView>,
    estimates: Seq<EstimateView>,
    i: int,
)
    requires
        0 <= i < estimates.len(),
        estimates_fault(estimates.take(i), offered(fields)) is None,
    ensures
        estimates.len() != offered(fields).len() ==> numeric_outcome_check(fields, estimates)
            == Err::<(), BoundedErrorView>(
            BoundedErrorView::InvalidResponse(
                "received "@ + decimal_text(estimates.len()) + " estimates for "@ + decimal_text(
                    offered(fields).len(),
                ) + " fields"@,
            ),
        ),
        estimates.len() == offered(fields).len() ==> {
            let estimate = estimates[i];
            let refused = |words: Seq<char>|
                numeric_outcome_check(fields, estimates) == Err::<(), BoundedErrorView>(
                    BoundedErrorView::InvalidResponse(words),
                );
            &&& !has_key(fields, estimate.key) ==> refused(
                "unoffered field "@ + quoted_text(estimate.key),
            )
            &&& has_key(fields, estimate.key) && (exists|j: int|
                0 <= j < i && (#[trigger] estimates[j]).key == estimate.key) ==> refused(
                "repeated field "@ + quoted_text(estimate.key),
            )
            &&& lookup(offered(fields), estimate.key) matches Some(field) ==> (forall|j: int|
                0 <= j < i ==> (#[trigger] estimates[j]).key != estimate.key) && within(
                estimate.map_value,
                field,
            ) && within(estimate.expected_value, field) && ((estimate.probabilities.len() != 0
                && estimate.probabilities.len() != 101) || exists|p: int|
                0 <= p < estimate.probabilities.len() && (!is_finite_bits(
                    #[trigger] estimate.probabilities[p],
                ) || real_lt(estimate.probabilities[p], 0))) ==> refused(
                "field "@ + quoted_text(field.key)
                    + " needs a non-negative 101-point distribution"@,
            )
        },
{
    let earlier = estimates.take(i);
    let estimate = estimates[i];
    law_offered_field_is_the_last_with_its_key(fields, estimate.key);
    assert("received "@ + decimal_text(estimates.len()) + (" estimates for "@ + decimal_text(
        offered(fields).len(),
    ) + " fields"@) =~= "received "@ + decimal_text(estimates.len()) + " estimates for "@
        + decimal_text(offered(fields).len()) + " fields"@);
    if has_estimate(earlier, estimate.key) {
        let j = choose|j: int| 0 <= j < earlier.len() && (#[trigger] earlier[j]).key
            == estimate.key;
        assert(estimates[j].key == estimate.key);
    }
    if exists|j: int| 0 <= j < i && (#[trigger] estimates[j]).key == estimate.key {
        let j = choose|j: int| 0 <= j < i && (#[trigger] estimates[j]).key == estimate.key;
        assert(earlier[j].key == estimate.key);
    }
    if estimate_fault(earlier, estimate, offered(fields)) is Some {
        lemma_first_faulty_estimate(estimates, offered(fields), i);
    }
}

/// What a joint request or outcome is refused for, in its words.
pub proof fn law_joint_refusals_say_why(
    request: JointRequestView,
    selected_index: usize,
    value: Seq<(Seq<char>, JsonTree)>,
    probabilities: Seq<u64>,
)
    ensures
        ({
            let records = request.allowed_records;
            let put = joint_request_check(request);
            let given = joint_outcome_check(records, selected_index, value, probabilities);
            &&& is_blank_text(request.instruction) || records.len() < 2 ==> put == Err::<
                (),
                BoundedErrorView,
            >(
                BoundedErrorView::InvalidRequest(
                    "joint request needs an instruction and at least two records"@,
                ),
            )
            &&& !is_blank_text(request.instruction) && records.len() >= 2 && records[0].len() == 0
                ==> put == Err::<(), BoundedErrorView>(
                BoundedErrorView::InvalidRequest("joint records must not be empty"@),
            )
            &&& !is_blank_text(request.instruction) && records.len() >= 2 && records[0].len() > 0
                && put is Err ==> put == Err::<(), BoundedErrorView>(
                BoundedErrorView::InvalidRequest("joint records must have identical fields"@),
            )
            &&& selected_index >= records.len() || !tree_eq(
                JsonTree::Object(records[selected_index as int]),
                JsonTree::Object(value),
            ) ==> given == Err::<(), BoundedErrorView>(
                BoundedErrorView::InvalidResponse(
                    "selected joint record was not the supplied row at selected_index"@,
                ),
            )
            &&& selected_index < records.len() && tree_eq(
                JsonTree::Object(records[selected_index as int]),
                JsonTree::Object(value),
            ) && given is Err ==> given == Err::<(), BoundedErrorView>(
                BoundedErrorView::InvalidResponse(
                    "joint probabilities do not match the allowed record set"@,
                ),
            )
        }),
{
}

} // verus!
