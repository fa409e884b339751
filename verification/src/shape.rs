//! The records that responses and logs are made of, and what is wrong with a
//! JSON value that is none of them.
//!
//! An object holds the fields of a record by name, in any order and among
//! others; an array holds them by place. What is wrong is said in the words
//! that `serde` has for it, of the first fault that reading the value from the
//! front comes upon.
use crate::fields::{field, get_field};
use crate::json::{self, real_of, trees, value_tree, Json, JsonTree, Object};
use crate::names::{find_entry, lemma_found_entry, lookup, option_view};
use crate::number::{self, NumberKind};
use crate::text::{self, decimal_text};
use serde::de::{Error, Unexpected};
use vstd::prelude::*;

verus! {

broadcast use vstd::string::group_string_axioms;

/// A record.
#[derive(Clone, Copy, Debug, PartialEq, Eq, Structural)]
pub enum Shape {
    /// A decision response.
    Response,
    /// What a provider says beside the answers.
    Metadata,
    /// The confidences among that.
    Confidences,
    /// An answered choice; its tag comes before its fields.
    Choice,
    /// An answered score; its tag comes before its fields.
    Score,
    /// An answered yes/no question; its tag comes before its fields.
    Noul,
    /// An embeddings response.
    Embedding,
    /// One of its entries.
    Entry,
    /// A recorded decision.
    Record,
}

/// What a field of a record holds.
#[derive(Clone, Copy, Debug, PartialEq, Eq, Structural)]
pub enum FieldType {
    /// Anything.
    Any,
    /// A string.
    Text,
    /// A string or `null`.
    OptionalText,
    /// A number.
    Number,
    /// A number or `null`.
    OptionalNumber,
    /// An integer of zero or more.
    Count,
    /// The name of a kind of question.
    Kind,
    /// An object.
    Values,
    /// An object of numbers.
    Reals,
    /// An array of numbers.
    Singles,
    /// An array of entries of an embeddings response.
    Entries,
    /// A record or `null`.
    OptionalRecord(Shape),
}

/// What `serde` calls a record.
pub open spec fn shape_words(shape: Shape) -> Seq<char> {
    match shape {
        Shape::Response => "struct RawResponse"@,
        Shape::Metadata => "struct RawProviderMetadata"@,
        Shape::Confidences => "struct RawTypesafeMetadata"@,
        Shape::Choice => "struct variant Answer::Choice"@,
        Shape::Score => "struct variant Answer::Score"@,
        Shape::Noul => "struct variant Answer::Noul"@,
        Shape::Embedding => "struct RawEmbedding"@,
        Shape::Entry => "struct RawEmbeddingData"@,
        Shape::Record => "struct Record"@,
    }
}

/// How many fields a record has.
pub open spec fn field_count(shape: Shape) -> int {
    match shape {
        Shape::Response => 3,
        Shape::Metadata => 1,
        Shape::Confidences => 1,
        Shape::Choice => 3,
        Shape::Score => 3,
        Shape::Noul => 1,
        Shape::Embedding => 2,
        Shape::Entry => 1,
        Shape::Record => 5,
    }
}

/// The name of a field.
pub open spec fn field_name(shape: Shape, i: int) -> Seq<char> {
    match shape {
        Shape::Response => if i == 0 {
            "answers"@
        } else if i == 1 {
            "providerMetadata"@
        } else {
            "error"@
        },
        Shape::Metadata => "typesafe"@,
        Shape::Confidences => "confidence"@,
        Shape::Choice => if i == 0 {
            "choice"@
        } else if i == 1 {
            "probabilities"@
        } else {
            "confidence"@
        },
        Shape::Score => if i == 0 {
            "score"@
        } else if i == 1 {
            "probabilities"@
        } else {
            "confidence"@
        },
        Shape::Noul => "probability"@,
        Shape::Embedding => if i == 0 {
            "data"@
        } else {
            "model"@
        },
        Shape::Entry => "embedding"@,
        Shape::Record => if i == 0 {
            "key"@
        } else if i == 1 {
            "kind"@
        } else if i == 2 {
            "chosen"@
        } else if i == 3 {
            "confidence"@
        } else {
            "timestamp_unix"@
        },
    }
}

/// What a field holds.
pub open spec fn field_type(shape: Shape, i: int) -> FieldType {
    match shape {
        Shape::Response => if i == 0 {
            FieldType::Values
        } else if i == 1 {
            FieldType::OptionalRecord(Shape::Metadata)
        } else {
            FieldType::Any
        },
        Shape::Metadata => FieldType::OptionalRecord(Shape::Confidences),
        Shape::Confidences => FieldType::Reals,
        Shape::Choice => if i == 0 {
            FieldType::Text
        } else if i == 1 {
            FieldType::Reals
        } else {
            FieldType::Number
        },
        Shape::Score => if i == 0 {
            FieldType::Any
        } else if i == 1 {
            FieldType::Reals
        } else {
            FieldType::OptionalNumber
        },
        Shape::Noul => FieldType::Number,
        Shape::Embedding => if i == 0 {
            FieldType::Entries
        } else {
            FieldType::OptionalText
        },
        Shape::Entry => FieldType::Singles,
        Shape::Record => if i == 0 || i == 2 {
            FieldType::Text
        } else if i == 1 {
            FieldType::Kind
        } else if i == 3 {
            FieldType::Number
        } else {
            FieldType::Count
        },
    }
}

/// Whether a field has to be there.
pub open spec fn field_required(shape: Shape, i: int) -> bool {
    match shape {
        Shape::Choice => i == 0 || i == 2,
        Shape::Score => i == 0,
        Shape::Noul => true,
        Shape::Record => true,
        _ => false,
    }
}

/// How many items come before the fields of a record in an array: the tag of
/// an answer.
pub open spec fn field_offset(shape: Shape) -> int {
    match shape {
        Shape::Choice | Shape::Score | Shape::Noul => 1,
        _ => 0,
    }
}

/// How deep a record is: deeper than every record among its fields.
pub open spec fn shape_depth(shape: Shape) -> nat {
    match shape {
        Shape::Response => 3,
        Shape::Metadata => 2,
        Shape::Embedding => 2,
        _ => 1,
    }
}

/// How deep what a field holds is.
pub open spec fn type_depth(ty: FieldType) -> nat {
    match ty {
        FieldType::OptionalRecord(shape) => shape_depth(shape),
        FieldType::Entries => shape_depth(Shape::Entry),
        _ => 0,
    }
}

/// The place of the field with a name, from a place on.
pub open spec fn find_field(shape: Shape, name: Seq<char>, from: int) -> Option<int>
    decreases field_count(shape) - from,
{
    if from >= field_count(shape) {
        None
    } else if field_name(shape, from) == name {
        Some(from)
    } else {
        find_field(shape, name, from + 1)
    }
}

/// What `serde_json` says of a value of the wrong type.
pub uninterp spec fn invalid_type_text(tree: JsonTree, expected: Seq<char>) -> Seq<char>;

/// What `serde_json` says of a value of the right type that is out of range.
pub uninterp spec fn invalid_value_text(tree: JsonTree, expected: Seq<char>) -> Seq<char>;

/// What `serde` says of a field that is required and absent.
pub open spec fn missing_field(name: Seq<char>) -> Seq<char> {
    "missing field `"@ + name + "`"@
}

/// What `serde` says of an array of the wrong length.
pub open spec fn invalid_length_text(len: int, expected: Seq<char>) -> Seq<char> {
    "invalid length "@ + decimal_text(len as nat) + (", expected "@ + expected)
}

/// What `serde` says of a name that is none of three.
pub open spec fn unknown_variant_text(
    name: Seq<char>,
    a: Seq<char>,
    b: Seq<char>,
    c: Seq<char>,
) -> Seq<char> {
    "unknown variant `"@ + name + "`, expected one of `"@ + (a + "`, `"@ + b) + ("`, `"@ + c + "`"@)
}

/// What an array is expected to be that ends before a field.
pub open spec fn too_short_words(shape: Shape) -> Seq<char> {
    if field_count(shape) == 1 {
        shape_words(shape) + " with 1 element"@
    } else {
        shape_words(shape) + " with "@ + (decimal_text(field_count(shape) as nat) + " elements"@)
    }
}

/// What an array is expected to be that goes on after the last field.
pub open spec fn too_long_words(shape: Shape) -> Seq<char> {
    if field_offset(shape) == 0 {
        "fewer elements in array"@
    } else if field_count(shape) == 1 {
        "1 element in sequence"@
    } else {
        decimal_text(field_count(shape) as nat) + " elements in sequence"@
    }
}

/// The first value of an object, from a place on, that is no number.
pub open spec fn reals_fault(members: Seq<(Seq<char>, JsonTree)>, from: int) -> Option<Seq<char>>
    decreases members.len() - from,
{
    if from < 0 || from >= members.len() {
        None
    } else if real_of(members[from].1) is None {
        Some(invalid_type_text(members[from].1, "f64"@))
    } else {
        reals_fault(members, from + 1)
    }
}

/// The first item of an array, from a place on, that is no number.
pub open spec fn singles_fault(items: Seq<JsonTree>, from: int) -> Option<Seq<char>>
    decreases items.len() - from,
{
    if from < 0 || from >= items.len() {
        None
    } else if real_of(items[from]) is None {
        Some(invalid_type_text(items[from], "f32"@))
    } else {
        singles_fault(items, from + 1)
    }
}

/// What is wrong with a name that should be that of a kind of question.
pub open spec fn kind_name_fault(name: Seq<char>) -> Option<Seq<char>> {
    if name == "choice"@ || name == "score"@ || name == "noul"@ {
        None
    } else {
        Some(unknown_variant_text(name, "choice"@, "score"@, "noul"@))
    }
}

/// What is wrong with a value that should name a kind of question, as a
/// string or as the only key of an object whose value is `null`.
pub open spec fn kind_fault(tree: JsonTree) -> Option<Seq<char>> {
    match tree {
        JsonTree::String(name) => kind_name_fault(name),
        JsonTree::Object(members) => if members.len() != 1 {
            Some(invalid_value_text(tree, "map with a single key"@))
        } else {
            match kind_name_fault(members[0].0) {
                Some(fault) => Some(fault),
                None => if members[0].1 is Null {
                    None
                } else {
                    Some(invalid_type_text(members[0].1, "unit"@))
                },
            }
        },
        _ => Some(invalid_type_text(tree, "string or map"@)),
    }
}

/// What is wrong with a value that should be an integer of zero or more.
pub open spec fn count_fault(tree: JsonTree) -> Option<Seq<char>> {
    match tree {
        JsonTree::Number(NumberKind::PosInt(_)) => None,
        JsonTree::Number(NumberKind::NegInt(_)) => Some(invalid_value_text(tree, "u64"@)),
        _ => Some(invalid_type_text(tree, "u64"@)),
    }
}

/// What is wrong with the value of a field, if anything.
pub open spec fn value_fault(tree: JsonTree, ty: FieldType) -> Option<Seq<char>>
    decreases type_depth(ty), 4int, 0int,
{
    match ty {
        FieldType::Any => None,
        FieldType::Text => if tree is String {
            None
        } else {
            Some(invalid_type_text(tree, "a string"@))
        },
        FieldType::OptionalText => if tree is String || tree is Null {
            None
        } else {
            Some(invalid_type_text(tree, "a string"@))
        },
        FieldType::Number => if tree is Number {
            None
        } else {
            Some(invalid_type_text(tree, "f64"@))
        },
        FieldType::OptionalNumber => if tree is Number || tree is Null {
            None
        } else {
            Some(invalid_type_text(tree, "f64"@))
        },
        FieldType::Count => count_fault(tree),
        FieldType::Kind => kind_fault(tree),
        FieldType::Values => if tree is Object {
            None
        } else {
            Some(invalid_type_text(tree, "a map"@))
        },
        FieldType::Reals => match tree {
            JsonTree::Object(members) => reals_fault(members, 0),
            _ => Some(invalid_type_text(tree, "a map"@)),
        },
        FieldType::Singles => match tree {
            JsonTree::Array(items) => singles_fault(items, 0),
            _ => Some(invalid_type_text(tree, "a sequence"@)),
        },
        FieldType::Entries => match tree {
            JsonTree::Array(items) => entries_fault(items, 0),
            _ => Some(invalid_type_text(tree, "a sequence"@)),
        },
        FieldType::OptionalRecord(shape) => if tree is Null {
            None
        } else {
            record_fault(tree, shape)
        },
    }
}

/// What is wrong with the first item of an array, from a place on, that is no
/// entry of an embeddings response.
pub open spec fn entries_fault(items: Seq<JsonTree>, from: int) -> Option<Seq<char>>
    decreases shape_depth(Shape::Entry), 3int, items.len() - from,
{
    if from < 0 || from >= items.len() {
        None
    } else {
        match record_fault(items[from], Shape::Entry) {
            Some(fault) => Some(fault),
            None => entries_fault(items, from + 1),
        }
    }
}

/// What is wrong with the first member of an object, from a place on, that is
/// a field and does not hold what it should.
pub open spec fn members_fault(
    members: Seq<(Seq<char>, JsonTree)>,
    shape: Shape,
    from: int,
) -> Option<Seq<char>>
    decreases shape_depth(shape), 1int, members.len() - from,
{
    if from < 0 || from >= members.len() {
        None
    } else {
        let fault = match find_field(shape, members[from].0, 0) {
            Some(i) => value_fault(members[from].1, field_type(shape, i)),
            None => None,
        };
        match fault {
            Some(fault) => Some(fault),
            None => members_fault(members, shape, from + 1),
        }
    }
}

/// The first field, from a place on, that an object has to have and has not.
pub open spec fn absent_fault(
    members: Seq<(Seq<char>, JsonTree)>,
    shape: Shape,
    from: int,
) -> Option<Seq<char>>
    decreases field_count(shape) - from,
{
    if from >= field_count(shape) {
        None
    } else if field_required(shape, from) && lookup(members, field_name(shape, from)) is None {
        Some(missing_field(field_name(shape, from)))
    } else {
        absent_fault(members, shape, from + 1)
    }
}

/// What is wrong with an array, from the place of a field on.
pub open spec fn items_fault(items: Seq<JsonTree>, shape: Shape, from: int) -> Option<Seq<char>>
    decreases shape_depth(shape), 1int, field_count(shape) - from,
{
    let at = from + field_offset(shape);
    if from < 0 {
        None
    } else if from >= field_count(shape) {
        if items.len() > field_count(shape) + field_offset(shape) {
            Some(invalid_length_text(items.len() - field_offset(shape), too_long_words(shape)))
        } else {
            None
        }
    } else if at >= items.len() {
        if field_required(shape, from) {
            Some(invalid_length_text(from, too_short_words(shape)))
        } else {
            items_fault(items, shape, from + 1)
        }
    } else {
        match value_fault(items[at], field_type(shape, from)) {
            Some(fault) => Some(fault),
            None => items_fault(items, shape, from + 1),
        }
    }
}

/// What is wrong with a value that should be a record, if anything.
pub open spec fn record_fault(tree: JsonTree, shape: Shape) -> Option<Seq<char>>
    decreases shape_depth(shape), 2int, 0int,
{
    match tree {
        JsonTree::Object(members) => match members_fault(members, shape, 0) {
            Some(fault) => Some(fault),
            None => absent_fault(members, shape, 0),
        },
        JsonTree::Array(items) => items_fault(items, shape, 0),
        _ => Some(invalid_type_text(tree, shape_words(shape))),
    }
}

/// What `serde_json::Error` says, made with the `invalid_type` of
/// `serde::de::Error` from what `serde` calls a value of each JSON type; the
/// text is a function of the value and of what was expected.
#[verifier::external_body]
fn invalid_type(value: &serde_json::Value, expected: &str) -> (r: String)
    ensures
        r@ == invalid_type_text(value_tree(*value), expected@),
{
    let found = match value {
        serde_json::Value::Null => Unexpected::Unit,
        serde_json::Value::Bool(b) => Unexpected::Bool(*b),
        serde_json::Value::Number(n) => match (n.as_u64(), n.as_i64()) {
            (Some(n), _) => Unexpected::Unsigned(n),
            (None, Some(n)) => Unexpected::Signed(n),
            (None, None) => Unexpected::Float(n.as_f64().unwrap_or_default()),
        },
        serde_json::Value::String(s) => Unexpected::Str(s),
        serde_json::Value::Array(_) => Unexpected::Seq,
        serde_json::Value::Object(_) => Unexpected::Map,
    };
    serde_json::Error::invalid_type(found, &expected).to_string()
}

/// What `serde_json::Error` says, made with the `invalid_value` of
/// `serde::de::Error` from what `serde` calls a negative integer or an object;
/// the text is a function of the value and of what was expected.
#[verifier::external_body]
fn invalid_value(value: &serde_json::Value, expected: &str) -> (r: String)
    requires
        value_tree(*value) is Object || value_tree(*value) matches JsonTree::Number(
            NumberKind::NegInt(_),
        ),
    ensures
        r@ == invalid_value_text(value_tree(*value), expected@),
{
    let found = match value {
        serde_json::Value::Number(n) => {
            Unexpected::Signed(n.as_i64().unwrap_or_default())
        },
        _ => Unexpected::Map,
    };
    serde_json::Error::invalid_value(found, &expected).to_string()
}

/// Says that a value has the wrong type.
pub(crate) fn wrong_type(json: &Json, expected: &str) -> (r: String)
    ensures
        r@ == invalid_type_text(json@, expected@),
{
    invalid_type(&json::lower(json), expected)
}

fn wrong_value(json: &Json, expected: &str) -> (r: String)
    requires
        json@ is Object || json@ matches JsonTree::Number(NumberKind::NegInt(_)),
    ensures
        r@ == invalid_value_text(json@, expected@),
{
    invalid_value(&json::lower(json), expected)
}

fn missing(name: &str) -> (r: String)
    ensures
        r@ == missing_field(name@),
{
    text::join3("missing field `", name, "`")
}

fn wrong_length(len: usize, expected: &str) -> (r: String)
    ensures
        r@ == invalid_length_text(len as int, expected@),
{
    text::join3(
        "invalid length ",
        text::decimal(len as u64).as_str(),
        text::join2(", expected ", expected).as_str(),
    )
}

fn unknown_variant(name: &str, a: &str, b: &str, c: &str) -> (r: String)
    ensures
        r@ == unknown_variant_text(name@, a@, b@, c@),
{
    let head = text::join3("unknown variant `", name, "`, expected one of `");
    let middle = text::join3(a, "`, `", b);
    let tail = text::join3("`, `", c, "`");
    text::join3(head.as_str(), middle.as_str(), tail.as_str())
}

fn words_of(shape: Shape) -> (r: &'static str)
    ensures
        r@ == shape_words(shape),
{
    match shape {
        Shape::Response => "struct RawResponse",
        Shape::Metadata => "struct RawProviderMetadata",
        Shape::Confidences => "struct RawTypesafeMetadata",
        Shape::Choice => "struct variant Answer::Choice",
        Shape::Score => "struct variant Answer::Score",
        Shape::Noul => "struct variant Answer::Noul",
        Shape::Embedding => "struct RawEmbedding",
        Shape::Entry => "struct RawEmbeddingData",
        Shape::Record => "struct Record",
    }
}

fn count_of(shape: Shape) -> (r: usize)
    ensures
        r == field_count(shape),
{
    match shape {
        Shape::Response => 3,
        Shape::Metadata => 1,
        Shape::Confidences => 1,
        Shape::Choice => 3,
        Shape::Score => 3,
        Shape::Noul => 1,
        Shape::Embedding => 2,
        Shape::Entry => 1,
        Shape::Record => 5,
    }
}

fn offset_of(shape: Shape) -> (r: usize)
    ensures
        r == field_offset(shape),
{
    match shape {
        Shape::Choice | Shape::Score | Shape::Noul => 1,
        _ => 0,
    }
}

fn name_of(shape: Shape, i: usize) -> (r: &'static str)
    ensures
        r@ == field_name(shape, i as int),
{
    match shape {
        Shape::Response => if i == 0 {
            "answers"
        } else if i == 1 {
            "providerMetadata"
        } else {
            "error"
        },
        Shape::Metadata => "typesafe",
        Shape::Confidences => "confidence",
        Shape::Choice => if i == 0 {
            "choice"
        } else if i == 1 {
            "probabilities"
        } else {
            "confidence"
        },
        Shape::Score => if i == 0 {
            "score"
        } else if i == 1 {
            "probabilities"
        } else {
            "confidence"
        },
        Shape::Noul => "probability",
        Shape::Embedding => if i == 0 {
            "data"
        } else {
            "model"
        },
        Shape::Entry => "embedding",
        Shape::Record => if i == 0 {
            "key"
        } else if i == 1 {
            "kind"
        } else if i == 2 {
            "chosen"
        } else if i == 3 {
            "confidence"
        } else {
            "timestamp_unix"
        },
    }
}

fn type_of(shape: Shape, i: usize) -> (r: FieldType)
    ensures
        r == field_type(shape, i as int),
{
    match shape {
        Shape::Response => if i == 0 {
            FieldType::Values
        } else if i == 1 {
            FieldType::OptionalRecord(Shape::Metadata)
        } else {
            FieldType::Any
        },
        Shape::Metadata => FieldType::OptionalRecord(Shape::Confidences),
        Shape::Confidences => FieldType::Reals,
        Shape::Choice => if i == 0 {
            FieldType::Text
        } else if i == 1 {
            FieldType::Reals
        } else {
            FieldType::Number
        },
        Shape::Score => if i == 0 {
            FieldType::Any
        } else if i == 1 {
            FieldType::Reals
        } else {
            FieldType::OptionalNumber
        },
        Shape::Noul => FieldType::Number,
        Shape::Embedding => if i == 0 {
            FieldType::Entries
        } else {
            FieldType::OptionalText
        },
        Shape::Entry => FieldType::Singles,
        Shape::Record => if i == 0 || i == 2 {
            FieldType::Text
        } else if i == 1 {
            FieldType::Kind
        } else if i == 3 {
            FieldType::Number
        } else {
            FieldType::Count
        },
    }
}

fn is_required(shape: Shape, i: usize) -> (r: bool)
    ensures
        r == field_required(shape, i as int),
{
    match shape {
        Shape::Choice => i == 0 || i == 2,
        Shape::Score => i == 0,
        Shape::Noul => true,
        Shape::Record => true,
        _ => false,
    }
}

fn too_short(shape: Shape) -> (r: String)
    ensures
        r@ == too_short_words(shape),
{
    if count_of(shape) == 1 {
        text::join2(words_of(shape), " with 1 element")
    } else {
        let count = text::decimal(count_of(shape) as u64);
        text::join3(
            words_of(shape),
            " with ",
            text::join2(count.as_str(), " elements").as_str(),
        )
    }
}

fn too_long(shape: Shape) -> (r: String)
    ensures
        r@ == too_long_words(shape),
{
    if offset_of(shape) == 0 {
        "fewer elements in array".to_owned()
    } else if count_of(shape) == 1 {
        "1 element in sequence".to_owned()
    } else {
        text::join2(text::decimal(count_of(shape) as u64).as_str(), " elements in sequence")
    }
}

fn field_of(shape: Shape, name: &str) -> (r: Option<usize>)
    ensures
        match r {
            Some(i) => find_field(shape, name@, 0) == Some(i as int) && i < field_count(shape),
            None => find_field(shape, name@, 0) is None,
        },
{
    let mut i: usize = 0;
    while i < count_of(shape)
        invariant
            i <= field_count(shape) <= 5,
            find_field(shape, name@, 0) == find_field(shape, name@, i as int),
        decreases field_count(shape) - i,
    {
        if text::same(name_of(shape, i), name) {
            return Some(i);
        }
        i += 1;
    }
    None
}

fn check_reals(object: &Object) -> (r: Option<String>)
    ensures
        option_view(r) == reals_fault(object@, 0),
{
    let mut i: usize = 0;
    while i < object.len()
        invariant
            i <= object@.len(),
            reals_fault(object@, 0) == reals_fault(object@, i as int),
        decreases object@.len() - i,
    {
        let value = object.value(i);
        if value.as_real().is_none() {
            return Some(wrong_type(value, "f64"));
        }
        i += 1;
    }
    None
}

fn check_singles(items: &Vec<Json>) -> (r: Option<String>)
    ensures
        option_view(r) == singles_fault(trees(items@), 0),
{
    let ghost all = trees(items@);
    let mut i: usize = 0;
    while i < items.len()
        invariant
            i <= items@.len(),
            all == trees(items@),
            singles_fault(all, 0) == singles_fault(all, i as int),
        decreases items@.len() - i,
    {
        assert(all[i as int] == items@[i as int]@);
        if items[i].as_real().is_none() {
            return Some(wrong_type(&items[i], "f32"));
        }
        i += 1;
    }
    None
}

fn check_kind_name(name: &str) -> (r: Option<String>)
    ensures
        option_view(r) == kind_name_fault(name@),
{
    if text::same(name, "choice") || text::same(name, "score") || text::same(name, "noul") {
        None
    } else {
        Some(unknown_variant(name, "choice", "score", "noul"))
    }
}

fn check_kind(json: &Json) -> (r: Option<String>)
    ensures
        option_view(r) == kind_fault(json@),
{
    if let Some(name) = json.as_str() {
        return check_kind_name(name);
    }
    let object = match json.as_object() {
        Some(object) => object,
        None => {
            return Some(wrong_type(json, "string or map"));
        },
    };
    if object.len() != 1 {
        return Some(wrong_value(json, "map with a single key"));
    }
    match check_kind_name(object.key(0)) {
        Some(fault) => Some(fault),
        None => if object.value(0).is_null() {
            None
        } else {
            Some(wrong_type(object.value(0), "unit"))
        },
    }
}

fn check_count(json: &Json) -> (r: Option<String>)
    ensures
        option_view(r) == count_fault(json@),
{
    broadcast use Json::lemma_tree;

    match json {
        Json::Number(n) => match number::kind_of(n) {
            NumberKind::PosInt(_) => None,
            NumberKind::NegInt(_) => Some(wrong_value(json, "u64")),
            NumberKind::Float(_) => Some(wrong_type(json, "u64")),
        },
        _ => Some(wrong_type(json, "u64")),
    }
}

fn check_value(json: &Json, ty: FieldType) -> (r: Option<String>)
    ensures
        option_view(r) == value_fault(json@, ty),
    decreases type_depth(ty), 4int, 0int,
{
    broadcast use Json::lemma_tree;

    match ty {
        FieldType::Any => None,
        FieldType::Text => if json.as_str().is_some() {
            None
        } else {
            Some(wrong_type(json, "a string"))
        },
        FieldType::OptionalText => if json.as_str().is_some() || json.is_null() {
            None
        } else {
            Some(wrong_type(json, "a string"))
        },
        FieldType::Number => if json.as_real().is_some() {
            None
        } else {
            Some(wrong_type(json, "f64"))
        },
        FieldType::OptionalNumber => if json.as_real().is_some() || json.is_null() {
            None
        } else {
            Some(wrong_type(json, "f64"))
        },
        FieldType::Count => check_count(json),
        FieldType::Kind => check_kind(json),
        FieldType::Values => if json.as_object().is_some() {
            None
        } else {
            Some(wrong_type(json, "a map"))
        },
        FieldType::Reals => match json.as_object() {
            Some(object) => check_reals(object),
            None => Some(wrong_type(json, "a map")),
        },
        FieldType::Singles => match json.as_array() {
            Some(items) => check_singles(items),
            None => Some(wrong_type(json, "a sequence")),
        },
        FieldType::Entries => match json.as_array() {
            Some(items) => check_entries(items),
            None => Some(wrong_type(json, "a sequence")),
        },
        FieldType::OptionalRecord(shape) => if json.is_null() {
            None
        } else {
            fault(json, shape)
        },
    }
}

fn check_entries(items: &Vec<Json>) -> (r: Option<String>)
    ensures
        option_view(r) == entries_fault(trees(items@), 0),
    decreases shape_depth(Shape::Entry), 3int, 0int,
{
    let ghost all = trees(items@);
    let mut i: usize = 0;
    while i < items.len()
        invariant
            i <= items@.len(),
            all == trees(items@),
            entries_fault(all, 0) == entries_fault(all, i as int),
        decreases items@.len() - i,
    {
        assert(all[i as int] == items@[i as int]@);
        if let Some(fault) = fault(&items[i], Shape::Entry) {
            return Some(fault);
        }
        i += 1;
    }
    None
}

fn check_members(object: &Object, shape: Shape) -> (r: Option<String>)
    ensures
        option_view(r) == members_fault(object@, shape, 0),
    decreases shape_depth(shape), 1int, 0int,
{
    let mut i: usize = 0;
    while i < object.len()
        invariant
            i <= object@.len(),
            members_fault(object@, shape, 0) == members_fault(object@, shape, i as int),
        decreases object@.len() - i,
    {
        if let Some(k) = field_of(shape, object.key(i)) {
            if let Some(fault) = check_value(object.value(i), type_of(shape, k)) {
                return Some(fault);
            }
        }
        i += 1;
    }
    None
}

fn check_absent(object: &Object, shape: Shape) -> (r: Option<String>)
    ensures
        option_view(r) == absent_fault(object@, shape, 0),
{
    let mut i: usize = 0;
    while i < count_of(shape)
        invariant
            i <= field_count(shape) <= 5,
            absent_fault(object@, shape, 0) == absent_fault(object@, shape, i as int),
        decreases field_count(shape) - i,
    {
        if is_required(shape, i) && object.get(name_of(shape, i)).is_none() {
            return Some(missing(name_of(shape, i)));
        }
        i += 1;
    }
    None
}

fn check_items(items: &Vec<Json>, shape: Shape) -> (r: Option<String>)
    ensures
        option_view(r) == items_fault(trees(items@), shape, 0),
    decreases shape_depth(shape), 1int, 0int,
{
    let ghost all = trees(items@);
    let offset: usize = offset_of(shape);
    let mut i: usize = 0;
    while i < count_of(shape)
        invariant
            i <= field_count(shape) <= 5,
            offset == field_offset(shape),
            offset <= 1,
            all == trees(items@),
            items_fault(all, shape, 0) == items_fault(all, shape, i as int),
        decreases field_count(shape) - i,
    {
        if i + offset < items.len() {
            assert(all[i + offset] == items@[i + offset]@);
            if let Some(fault) = check_value(&items[i + offset], type_of(shape, i)) {
                return Some(fault);
            }
        } else if is_required(shape, i) {
            return Some(wrong_length(i, too_short(shape).as_str()));
        }
        i += 1;
    }
    if items.len() > count_of(shape) + offset {
        Some(wrong_length(items.len() - offset, too_long(shape).as_str()))
    } else {
        None
    }
}

/// Says what is wrong with a value that should be a record.
pub(crate) fn fault(json: &Json, shape: Shape) -> (r: Option<String>)
    ensures
        option_view(r) == record_fault(json@, shape),
    decreases shape_depth(shape), 2int, 0int,
{
    match json.as_object() {
        Some(object) => match check_members(object, shape) {
            Some(fault) => Some(fault),
            None => check_absent(object, shape),
        },
        None => match json.as_array() {
            Some(items) => check_items(items, shape),
            None => Some(wrong_type(json, words_of(shape))),
        },
    }
}

/// What is wrong with a value that should be an answer, if anything: its tag
/// says which record it is.
pub open spec fn answer_fault(tree: JsonTree) -> Option<Seq<char>> {
    if !(tree is Object) && !(tree is Array) {
        Some(invalid_type_text(tree, "internally tagged enum Answer"@))
    } else {
        match field(tree, 0, "type"@) {
            None => Some(missing_field("type"@)),
            Some(JsonTree::String(tag)) => if tag == "choice"@ {
                record_fault(tree, Shape::Choice)
            } else if tag == "score"@ {
                record_fault(tree, Shape::Score)
            } else if tag == "boolean"@ {
                record_fault(tree, Shape::Noul)
            } else {
                Some(unknown_variant_text(tag, "choice"@, "score"@, "boolean"@))
            },
            Some(tag) => Some(invalid_type_text(tag, "variant identifier"@)),
        }
    }
}

/// The record that the tag of an answer without a fault names, or what is
/// wrong with it.
pub(crate) fn answer_shape(json: &Json) -> (r: Result<Shape, String>)
    ensures
        match r {
            Ok(shape) => {
                &&& answer_fault(json@) is None
                &&& record_fault(json@, shape) is None
                &&& field(json@, 0, "type"@) == Some(
                    JsonTree::String(
                        match shape {
                            Shape::Choice => "choice"@,
                            Shape::Score => "score"@,
                            _ => "boolean"@,
                        },
                    ),
                )
                &&& shape == Shape::Choice || shape == Shape::Score || shape == Shape::Noul
            },
            Err(words) => answer_fault(json@) == Some(words@),
        },
{
    if json.as_object().is_none() && json.as_array().is_none() {
        return Err(wrong_type(json, "internally tagged enum Answer"));
    }
    let tag = match get_field(json, 0, "type") {
        Some(tag) => tag,
        None => {
            return Err(missing("type"));
        },
    };
    let name = match tag.as_str() {
        Some(name) => name,
        None => {
            return Err(wrong_type(tag, "variant identifier"));
        },
    };
    let shape = if text::same(name, "choice") {
        Shape::Choice
    } else if text::same(name, "score") {
        Shape::Score
    } else if text::same(name, "boolean") {
        Shape::Noul
    } else {
        return Err(unknown_variant(name, "choice", "score", "boolean"));
    };
    match fault(json, shape) {
        Some(words) => Err(words),
        None => Ok(shape),
    }
}

/// An object of numbers has no fault.
pub proof fn lemma_reals_fit(members: Seq<(Seq<char>, JsonTree)>, from: int)
    requires
        0 <= from <= members.len(),
    ensures
        reals_fault(members, from) is None == (forall|i: int|
            from <= i < members.len() ==> real_of((#[trigger] members[i]).1) is Some),
    decreases members.len() - from,
{
    if from < members.len() {
        lemma_reals_fit(members, from + 1);
    }
}

/// No two fields of a record have the same name.
pub proof fn lemma_field_found(shape: Shape, k: int)
    requires
        0 <= k < field_count(shape),
    ensures
        find_field(shape, field_name(shape, k), 0) == Some(k),
{
    reveal_with_fuel(find_field, 6);
    reveal_strlit("answers");
    reveal_strlit("providerMetadata");
    reveal_strlit("error");
    reveal_strlit("choice");
    reveal_strlit("score");
    reveal_strlit("probabilities");
    reveal_strlit("confidence");
    reveal_strlit("data");
    reveal_strlit("model");
    reveal_strlit("key");
    reveal_strlit("kind");
    reveal_strlit("chosen");
    reveal_strlit("timestamp_unix");
    assert("answers"@.len() == 7 && "providerMetadata"@.len() == 16 && "error"@.len() == 5);
    assert("choice"@.len() == 6 && "score"@.len() == 5 && "probabilities"@.len() == 13);
    assert("confidence"@.len() == 10 && "data"@.len() == 4 && "model"@.len() == 5);
    assert("key"@.len() == 3 && "kind"@.len() == 4 && "chosen"@.len() == 6);
    assert("timestamp_unix"@.len() == 14);
}

proof fn lemma_member_fits(
    members: Seq<(Seq<char>, JsonTree)>,
    shape: Shape,
    from: int,
    i: int,
)
    requires
        0 <= from <= i < members.len(),
        members_fault(members, shape, from) is None,
    ensures
        find_field(shape, members[i].0, 0) matches Some(k) ==> value_fault(
            members[i].1,
            field_type(shape, k),
        ) is None,
    decreases i - from,
{
    if from < i {
        lemma_member_fits(members, shape, from + 1, i);
    }
}

/// An object whose fields all hold what they should has no fault among its
/// members.
pub proof fn lemma_members_fit(members: Seq<(Seq<char>, JsonTree)>, shape: Shape, from: int)
    requires
        0 <= from <= members.len(),
        forall|i: int|
            from <= i < members.len() ==> (find_field(shape, (#[trigger] members[i]).0, 0)
                matches Some(k) ==> value_fault(members[i].1, field_type(shape, k)) is None),
    ensures
        members_fault(members, shape, from) is None,
    decreases members.len() - from,
{
    if from < members.len() {
        lemma_members_fit(members, shape, from + 1);
    }
}

proof fn lemma_present(members: Seq<(Seq<char>, JsonTree)>, shape: Shape, from: int, k: int)
    requires
        from <= k < field_count(shape),
        absent_fault(members, shape, from) is None,
        field_required(shape, k),
    ensures
        lookup(members, field_name(shape, k)) is Some,
    decreases k - from,
{
    if from < k {
        lemma_present(members, shape, from + 1, k);
    }
}

proof fn lemma_item_fits(items: Seq<JsonTree>, shape: Shape, from: int, k: int)
    requires
        0 <= from <= k < field_count(shape),
        items_fault(items, shape, from) is None,
    ensures
        k + field_offset(shape) < items.len() ==> value_fault(
            items[k + field_offset(shape)],
            field_type(shape, k),
        ) is None,
        field_required(shape, k) ==> k + field_offset(shape) < items.len(),
    decreases k - from,
{
    if from < k {
        lemma_item_fits(items, shape, from + 1, k);
    }
}

/// A field of a record without a fault holds what it should, and is there
/// where it has to be.
pub proof fn lemma_field_fits(tree: JsonTree, shape: Shape, k: int)
    requires
        record_fault(tree, shape) is None,
        0 <= k < field_count(shape),
    ensures
        match field(tree, k + field_offset(shape), field_name(shape, k)) {
            Some(value) => value_fault(value, field_type(shape, k)) is None,
            None => !field_required(shape, k),
        },
{
    match tree {
        JsonTree::Object(members) => {
            let name = field_name(shape, k);
            lemma_field_found(shape, k);
            lemma_found_entry(members, name);
            if lookup(members, name) is Some {
                lemma_member_fits(members, shape, 0, find_entry(members, name));
            }
            if field_required(shape, k) {
                lemma_present(members, shape, 0, k);
            }
        },
        JsonTree::Array(items) => {
            lemma_item_fits(items, shape, 0, k);
        },
        _ => {},
    }
}

/// The fields of every record, in their order.
pub proof fn law_fields_of_the_records()
    ensures
        has_fields(Shape::Response, 0, "struct RawResponse"@, 3),
        has_field(Shape::Response, 0, "answers"@, FieldType::Values, false),
        has_field(
            Shape::Response,
            1,
            "providerMetadata"@,
            FieldType::OptionalRecord(Shape::Metadata),
            false,
        ),
        has_field(Shape::Response, 2, "error"@, FieldType::Any, false),
        has_fields(Shape::Metadata, 0, "struct RawProviderMetadata"@, 1),
        has_field(
            Shape::Metadata,
            0,
            "typesafe"@,
            FieldType::OptionalRecord(Shape::Confidences),
            false,
        ),
        has_fields(Shape::Confidences, 0, "struct RawTypesafeMetadata"@, 1),
        has_field(Shape::Confidences, 0, "confidence"@, FieldType::Reals, false),
        has_fields(Shape::Choice, 1, "struct variant Answer::Choice"@, 3),
        has_field(Shape::Choice, 0, "choice"@, FieldType::Text, true),
        has_field(Shape::Choice, 1, "probabilities"@, FieldType::Reals, false),
        has_field(Shape::Choice, 2, "confidence"@, FieldType::Number, true),
        has_fields(Shape::Score, 1, "struct variant Answer::Score"@, 3),
        has_field(Shape::Score, 0, "score"@, FieldType::Any, true),
        has_field(Shape::Score, 1, "probabilities"@, FieldType::Reals, false),
        has_field(Shape::Score, 2, "confidence"@, FieldType::OptionalNumber, false),
        has_fields(Shape::Noul, 1, "struct variant Answer::Noul"@, 1),
        has_field(Shape::Noul, 0, "probability"@, FieldType::Number, true),
        has_fields(Shape::Embedding, 0, "struct RawEmbedding"@, 2),
        has_field(Shape::Embedding, 0, "data"@, FieldType::Entries, false),
        has_field(Shape::Embedding, 1, "model"@, FieldType::OptionalText, false),
        has_fields(Shape::Entry, 0, "struct RawEmbeddingData"@, 1),
        has_field(Shape::Entry, 0, "embedding"@, FieldType::Singles, false),
        has_fields(Shape::Record, 0, "struct Record"@, 5),
        has_field(Shape::Record, 0, "key"@, FieldType::Text, true),
        has_field(Shape::Record, 1, "kind"@, FieldType::Kind, true),
        has_field(Shape::Record, 2, "chosen"@, FieldType::Text, true),
        has_field(Shape::Record, 3, "confidence"@, FieldType::Number, true),
        has_field(Shape::Record, 4, "timestamp_unix"@, FieldType::Count, true),
{
}

/// Whether a record is called by some words, has so many fields, and in an array
/// so many items before them.
pub open spec fn has_fields(shape: Shape, offset: int, words: Seq<char>, count: int) -> bool {
    &&& shape_words(shape) == words
    &&& field_count(shape) == count
    &&& field_offset(shape) == offset
}

/// Whether a field of a record has a name, holds what it should and has to be
/// there or not.
pub open spec fn has_field(
    shape: Shape,
    i: int,
    name: Seq<char>,
    ty: FieldType,
    required: bool,
) -> bool {
    &&& field_name(shape, i) == name
    &&& field_type(shape, i) == ty
    &&& field_required(shape, i) == required
}

/// What each field may hold: a value of any other type is a fault, told by what
/// was expected in its place.
pub proof fn law_fields_hold_values_of_their_type(tree: JsonTree, shape: Shape)
    ensures
        value_fault(tree, FieldType::Any) is None,
        value_fault(tree, FieldType::Text) == if tree is String {
            None
        } else {
            Some(invalid_type_text(tree, "a string"@))
        },
        value_fault(tree, FieldType::OptionalText) == if tree is String || tree is Null {
            None
        } else {
            Some(invalid_type_text(tree, "a string"@))
        },
        value_fault(tree, FieldType::Number) == if tree is Number {
            None
        } else {
            Some(invalid_type_text(tree, "f64"@))
        },
        value_fault(tree, FieldType::OptionalNumber) == if tree is Number || tree is Null {
            None
        } else {
            Some(invalid_type_text(tree, "f64"@))
        },
        value_fault(tree, FieldType::Values) == if tree is Object {
            None
        } else {
            Some(invalid_type_text(tree, "a map"@))
        },
        !(tree is Object) ==> value_fault(tree, FieldType::Reals) == Some(
            invalid_type_text(tree, "a map"@),
        ),
        !(tree is Array) ==> value_fault(tree, FieldType::Singles) == Some(
            invalid_type_text(tree, "a sequence"@),
        ),
        !(tree is Array) ==> value_fault(tree, FieldType::Entries) == Some(
            invalid_type_text(tree, "a sequence"@),
        ),
        tree is Null ==> value_fault(tree, FieldType::OptionalRecord(shape)) is None,
        !(tree is Null) ==> value_fault(tree, FieldType::OptionalRecord(shape)) == record_fault(
            tree,
            shape,
        ),
        tree matches JsonTree::Number(NumberKind::PosInt(_)) ==> value_fault(tree, FieldType::Count)
            is None,
        tree matches JsonTree::Number(NumberKind::NegInt(_)) ==> value_fault(tree, FieldType::Count)
            == Some(invalid_value_text(tree, "u64"@)),
        tree matches JsonTree::Number(NumberKind::Float(_)) ==> value_fault(tree, FieldType::Count)
            == Some(invalid_type_text(tree, "u64"@)),
        !(tree is Number) ==> value_fault(tree, FieldType::Count) == Some(
            invalid_type_text(tree, "u64"@),
        ),
        !(tree is Object) && !(tree is Array) ==> record_fault(tree, shape) == Some(
            invalid_type_text(tree, shape_words(shape)),
        ),
{
}

/// The first item or value that is no number is the one that is told.
pub proof fn law_first_value_that_is_no_number_is_told(
    members: Seq<(Seq<char>, JsonTree)>,
    items: Seq<JsonTree>,
    i: int,
)
    ensures
        0 <= i < members.len() && !(members[i].1 is Number) && (forall|j: int|
            0 <= j < i ==> (#[trigger] members[j]).1 is Number) ==> value_fault(
            JsonTree::Object(members),
            FieldType::Reals,
        ) == Some(invalid_type_text(members[i].1, "f64"@)),
        0 <= i < items.len() && !(items[i] is Number) && (forall|j: int|
            0 <= j < i ==> (#[trigger] items[j]) is Number) ==> value_fault(
            JsonTree::Array(items),
            FieldType::Singles,
        ) == Some(invalid_type_text(items[i], "f32"@)),
{
    if 0 <= i < members.len() && !(members[i].1 is Number) && (forall|j: int|
        0 <= j < i ==> (#[trigger] members[j]).1 is Number) {
        lemma_reals_fault_at(members, 0, i);
    }
    if 0 <= i < items.len() && !(items[i] is Number) && (forall|j: int|
        0 <= j < i ==> (#[trigger] items[j]) is Number) {
        lemma_singles_fault_at(items, 0, i);
    }
}

proof fn lemma_reals_fault_at(members: Seq<(Seq<char>, JsonTree)>, from: int, i: int)
    requires
        0 <= from <= i < members.len(),
        !(members[i].1 is Number),
        forall|j: int| 0 <= j < i ==> (#[trigger] members[j]).1 is Number,
    ensures
        reals_fault(members, from) == Some(invalid_type_text(members[i].1, "f64"@)),
    decreases i - from,
{
    if from < i {
        assert(members[from].1 is Number);
        lemma_reals_fault_at(members, from + 1, i);
    }
}

proof fn lemma_singles_fault_at(items: Seq<JsonTree>, from: int, i: int)
    requires
        0 <= from <= i < items.len(),
        !(items[i] is Number),
        forall|j: int| 0 <= j < i ==> (#[trigger] items[j]) is Number,
    ensures
        singles_fault(items, from) == Some(invalid_type_text(items[i], "f32"@)),
    decreases i - from,
{
    if from < i {
        assert(items[from] is Number);
        lemma_singles_fault_at(items, from + 1, i);
    }
}

/// A kind of question is named by a string, or by the only key of an object
/// whose value is `null`.
pub proof fn law_kind_is_named_in_either_form(tree: JsonTree, name: Seq<char>, value: JsonTree)
    ensures
        ({
            let known = name == "choice"@ || name == "score"@ || name == "noul"@;
            let unknown = "unknown variant `"@ + name
                + "`, expected one of `choice`, `score`, `noul`"@;
            &&& known ==> value_fault(JsonTree::String(name), FieldType::Kind) is None
            &&& !known ==> value_fault(JsonTree::String(name), FieldType::Kind) == Some(unknown)
            &&& known && value is Null ==> value_fault(
                JsonTree::Object(seq![(name, value)]),
                FieldType::Kind,
            ) is None
            &&& known && !(value is Null) ==> value_fault(
                JsonTree::Object(seq![(name, value)]),
                FieldType::Kind,
            ) == Some(invalid_type_text(value, "unit"@))
            &&& !known ==> value_fault(JsonTree::Object(seq![(name, value)]), FieldType::Kind)
                == Some(unknown)
            &&& tree matches JsonTree::Object(members) ==> members.len() != 1 ==> value_fault(
                tree,
                FieldType::Kind,
            ) == Some(invalid_value_text(tree, "map with a single key"@))
            &&& !(tree is Object) && !(tree is String) ==> value_fault(tree, FieldType::Kind)
                == Some(invalid_type_text(tree, "string or map"@))
        }),
{
    reveal_strlit("`, expected one of `choice`, `score`, `noul`");
    reveal_strlit("`, expected one of `");
    reveal_strlit("choice");
    reveal_strlit("`, `");
    reveal_strlit("score");
    reveal_strlit("noul");
    reveal_strlit("`");
    assert("`, expected one of `"@ + ("choice"@ + "`, `"@ + "score"@) + ("`, `"@ + "noul"@ + "`"@)
        =~= "`, expected one of `choice`, `score`, `noul`"@);
    assert(unknown_variant_text(name, "choice"@, "score"@, "noul"@) =~= "unknown variant `"@ + name
        + "`, expected one of `choice`, `score`, `noul`"@);
}

/// Of an object the first member that is a field and holds what it should not
/// is told; where there is none, the first field that has to be there and is
/// not.
pub proof fn law_first_fault_of_an_object_is_told(
    members: Seq<(Seq<char>, JsonTree)>,
    shape: Shape,
    i: int,
    k: int,
)
    requires
        0 <= i <= members.len(),
        0 <= k < field_count(shape),
        forall|j: int|
            0 <= j < i ==> (find_field(shape, (#[trigger] members[j]).0, 0) matches Some(f)
                ==> value_fault(members[j].1, field_type(shape, f)) is None),
    ensures
        i < members.len() && members[i].0 == field_name(shape, k) ==> (value_fault(
            members[i].1,
            field_type(shape, k),
        ) matches Some(words) ==> record_fault(JsonTree::Object(members), shape) == Some(words)),
        i == members.len() && field_required(shape, k) && lookup(members, field_name(shape, k))
            is None && (forall|f: int|
            0 <= f < k && field_required(shape, f) ==> lookup(
                members,
                #[trigger] field_name(shape, f),
            ) is Some) ==> record_fault(JsonTree::Object(members), shape) == Some(
            "missing field `"@ + field_name(shape, k) + "`"@,
        ),
{
    lemma_field_found(shape, k);
    if i < members.len() && members[i].0 == field_name(shape, k) && value_fault(
        members[i].1,
        field_type(shape, k),
    ) is Some {
        lemma_members_fault_at(members, shape, 0, i, k);
    }
    if i == members.len() {
        lemma_members_fit(members, shape, 0);
        if field_required(shape, k) && lookup(members, field_name(shape, k)) is None && (forall|
            f: int,
        |
            0 <= f < k && field_required(shape, f) ==> lookup(
                members,
                #[trigger] field_name(shape, f),
            ) is Some) {
            lemma_absent_at(members, shape, 0, k);
        }
    }
}

proof fn lemma_members_fault_at(
    members: Seq<(Seq<char>, JsonTree)>,
    shape: Shape,
    from: int,
    i: int,
    k: int,
)
    requires
        0 <= from <= i < members.len(),
        find_field(shape, members[i].0, 0) == Some(k),
        value_fault(members[i].1, field_type(shape, k)) is Some,
        forall|j: int|
            0 <= j < i ==> (find_field(shape, (#[trigger] members[j]).0, 0) matches Some(f)
                ==> value_fault(members[j].1, field_type(shape, f)) is None),
    ensures
        members_fault(members, shape, from) == value_fault(members[i].1, field_type(shape, k)),
    decreases i - from,
{
    if from < i {
        let first = members[from];
        lemma_members_fault_at(members, shape, from + 1, i, k);
    }
}

proof fn lemma_absent_at(members: Seq<(Seq<char>, JsonTree)>, shape: Shape, from: int, k: int)
    requires
        0 <= from <= k < field_count(shape),
        field_required(shape, k),
        lookup(members, field_name(shape, k)) is None,
        forall|f: int|
            0 <= f < k && field_required(shape, f) ==> lookup(
                members,
                #[trigger] field_name(shape, f),
            ) is Some,
    ensures
        absent_fault(members, shape, from) == Some(missing_field(field_name(shape, k))),
    decreases k - from,
{
    if from < k {
        let name = field_name(shape, from);
        lemma_absent_at(members, shape, from + 1, k);
    }
}

/// Of an array the first item that holds what its field should not is told;
/// where there is none, that it ends before a field that has to be there, or
/// goes on behind the last.
pub proof fn law_first_fault_of_an_array_is_told(items: Seq<JsonTree>, shape: Shape, k: int)
    requires
        0 <= k <= field_count(shape),
        forall|f: int|
            #![trigger field_type(shape, f)]
            0 <= f < k && f + field_offset(shape) < items.len() ==> value_fault(
                items[f + field_offset(shape)],
                field_type(shape, f),
            ) is None,
        forall|f: int|
            0 <= f < k && f + field_offset(shape) >= items.len() ==> !#[trigger] field_required(
                shape,
                f,
            ),
    ensures
        k < field_count(shape) && k + field_offset(shape) < items.len() ==> (value_fault(
            items[k + field_offset(shape)],
            field_type(shape, k),
        ) matches Some(words) ==> record_fault(JsonTree::Array(items), shape) == Some(words)),
        k < field_count(shape) && k + field_offset(shape) >= items.len() && field_required(shape, k)
            ==> record_fault(JsonTree::Array(items), shape) == Some(
            "invalid length "@ + decimal_text(k as nat) + ", expected "@ + shape_words(shape) + if
            field_count(shape) == 1 {
                " with 1 element"@
            } else {
                " with "@ + decimal_text(field_count(shape) as nat) + " elements"@
            },
        ),
        k == field_count(shape) && items.len() <= field_count(shape) + field_offset(shape)
            ==> record_fault(JsonTree::Array(items), shape) is None,
        k == field_count(shape) && items.len() > field_count(shape) + field_offset(shape)
            ==> record_fault(JsonTree::Array(items), shape) == Some(
            "invalid length "@ + decimal_text((items.len() - field_offset(shape)) as nat)
                + ", expected "@ + if field_offset(shape) == 0 {
                "fewer elements in array"@
            } else if field_count(shape) == 1 {
                "1 element in sequence"@
            } else {
                decimal_text(field_count(shape) as nat) + " elements in sequence"@
            },
        ),
{
    lemma_items_fault_from(items, shape, 0, k);
    let n = field_count(shape) as nat;
    let at = k + field_offset(shape);
    assert(too_short_words(shape) =~= shape_words(shape) + if field_count(shape) == 1 {
        " with 1 element"@
    } else {
        " with "@ + decimal_text(n) + " elements"@
    });
    assert(invalid_length_text(k, too_short_words(shape)) =~= "invalid length "@ + decimal_text(
        k as nat,
    ) + ", expected "@ + shape_words(shape) + if field_count(shape) == 1 {
        " with 1 element"@
    } else {
        " with "@ + decimal_text(n) + " elements"@
    });
    if items.len() > field_count(shape) + field_offset(shape) {
        let len = items.len() - field_offset(shape);
        assert(invalid_length_text(len, too_long_words(shape)) =~= "invalid length "@
            + decimal_text(len as nat) + ", expected "@ + too_long_words(shape));
    }
}

proof fn lemma_items_fault_from(items: Seq<JsonTree>, shape: Shape, from: int, k: int)
    requires
        0 <= from <= k <= field_count(shape),
        forall|f: int|
            #![trigger field_type(shape, f)]
            0 <= f < k && f + field_offset(shape) < items.len() ==> value_fault(
                items[f + field_offset(shape)],
                field_type(shape, f),
            ) is None,
        forall|f: int|
            0 <= f < k && f + field_offset(shape) >= items.len() ==> !#[trigger] field_required(
                shape,
                f,
            ),
    ensures
        items_fault(items, shape, from) == items_fault(items, shape, k),
    decreases k - from,
{
    if from < k {
        let ty = field_type(shape, from);
        let required = field_required(shape, from);
        lemma_items_fault_from(items, shape, from + 1, k);
    }
}

/// The fault of an answer is told by its tag: absent, no string or unknown; and
/// a value that can have no tag by what it should have been.
pub proof fn law_fault_of_a_tag_is_told(tree: JsonTree, name: Seq<char>)
    ensures
        !(tree is Object) && !(tree is Array) ==> answer_fault(tree) == Some(
            invalid_type_text(tree, "internally tagged enum Answer"@),
        ),
        (tree is Object || tree is Array) && field(tree, 0, "type"@) is None ==> answer_fault(tree)
            == Some("missing field `"@ + "type"@ + "`"@),
        (tree is Object || tree is Array) ==> (field(tree, 0, "type"@) matches Some(tag) ==> {
            &&& !(tag is String) ==> answer_fault(tree) == Some(
                invalid_type_text(tag, "variant identifier"@),
            )
            &&& tag == JsonTree::String(name) && name != "choice"@ && name != "score"@ && name
                != "boolean"@ ==> answer_fault(tree) == Some(
                "unknown variant `"@ + name + "`, expected one of `choice`, `score`, `boolean`"@,
            )
            &&& tag == JsonTree::String("choice"@) ==> answer_fault(tree) == record_fault(
                tree,
                Shape::Choice,
            )
            &&& tag == JsonTree::String("score"@) ==> answer_fault(tree) == record_fault(
                tree,
                Shape::Score,
            )
            &&& tag == JsonTree::String("boolean"@) ==> answer_fault(tree) == record_fault(
                tree,
                Shape::Noul,
            )
        }),
{
    reveal_strlit("`, expected one of `choice`, `score`, `boolean`");
    reveal_strlit("`, expected one of `");
    reveal_strlit("choice");
    reveal_strlit("`, `");
    reveal_strlit("score");
    reveal_strlit("boolean");
    reveal_strlit("`");
    assert("choice"@.len() == 6 && "score"@.len() == 5 && "boolean"@.len() == 7);
    assert("`, expected one of `"@ + ("choice"@ + "`, `"@ + "score"@) + ("`, `"@ + "boolean"@
        + "`"@) =~= "`, expected one of `choice`, `score`, `boolean`"@);
    assert(unknown_variant_text(name, "choice"@, "score"@, "boolean"@) =~= "unknown variant `"@
        + name + "`, expected one of `choice`, `score`, `boolean`"@);
}

/// Entries of an embeddings response have a fault exactly where one of them has,
/// and that of the first such one is told.
pub proof fn law_first_faulty_entry_is_told(entries: Seq<JsonTree>, i: int)
    requires
        0 <= i <= entries.len(),
        forall|j: int|
            0 <= j < i ==> record_fault(#[trigger] entries[j], Shape::Entry) is None,
    ensures
        i == entries.len() ==> value_fault(JsonTree::Array(entries), FieldType::Entries) is None,
        i < entries.len() ==> (record_fault(entries[i], Shape::Entry) matches Some(words)
            ==> value_fault(JsonTree::Array(entries), FieldType::Entries) == Some(words)),
{
    if i == entries.len() || record_fault(entries[i], Shape::Entry) is Some {
        lemma_entries_fault_at(entries, 0, i);
    }
}

proof fn lemma_entries_fault_at(entries: Seq<JsonTree>, from: int, i: int)
    requires
        0 <= from <= i <= entries.len(),
        forall|j: int|
            0 <= j < i ==> record_fault(#[trigger] entries[j], Shape::Entry) is None,
        i < entries.len() ==> record_fault(entries[i], Shape::Entry) is Some,
    ensures
        entries_fault(entries, from) == if i < entries.len() {
            record_fault(entries[i], Shape::Entry)
        } else {
            None
        },
    decreases i - from,
{
    if from < i {
        assert(record_fault(entries[from], Shape::Entry) is None);
        lemma_entries_fault_at(entries, from + 1, i);
    }
}

} // verus!
