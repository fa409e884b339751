//! The strict JSON schemas that bounded predictions are asked under, and the
//! prompts that go with them.
use crate::json::{self, entry_trees, json_text, object, real_tree, trees, Json, JsonTree, Object};
use crate::names::{lookup, result_view};
use crate::numeric::{
    law_accepted_fields_are_sound, numeric_request_check, object_views, BoundedError,
    BoundedErrorView, FieldView, NumericField, NumericRequest,
};
use crate::number::{self, NumberKind};
use crate::text::{self, quoted_text};
use vstd::prelude::*;

verus! {

broadcast use vstd::string::group_string_axioms;

/// The name of a value's JSON type; integers have one of their own.
pub open spec fn type_text(tree: JsonTree) -> Seq<char> {
    match tree {
        JsonTree::String(_) => "string"@,
        JsonTree::Bool(_) => "boolean"@,
        JsonTree::Number(NumberKind::Float(_)) => "number"@,
        JsonTree::Number(_) => "integer"@,
        JsonTree::Null => "null"@,
        JsonTree::Array(_) => "array"@,
        JsonTree::Object(_) => "object"@,
    }
}

/// The name of a value's JSON type.
pub fn json_type(value: &Json) -> (r: &'static str)
    ensures
        r@ == type_text(value@),
{
    broadcast use Json::lemma_tree;

    match value {
        Json::String(_) => "string",
        Json::Bool(_) => "boolean",
        Json::Number(n) => match number::kind_of(n) {
            NumberKind::Float(_) => "number",
            _ => "integer",
        },
        Json::Null => "null",
        Json::Array(_) => "array",
        Json::Object(_) => "object",
    }
}

/// The strict schema of an object with these properties, all of them
/// required and no others allowed.
pub open spec fn strict_schema(properties: Seq<(Seq<char>, JsonTree)>) -> JsonTree {
    JsonTree::Object(
        seq![
            ("type"@, JsonTree::String("object"@)),
            ("properties"@, JsonTree::Object(properties)),
            (
                "required"@,
                JsonTree::Array(
                    properties.map_values(
                        |p: (Seq<char>, JsonTree)| JsonTree::String(p.0),
                    ),
                ),
            ),
            ("additionalProperties"@, JsonTree::Bool(false)),
        ],
    )
}

fn strict(properties: Object) -> (r: Json)
    ensures
        r@ == strict_schema(properties@),
{
    broadcast use Json::lemma_tree;

    let ghost members = properties@;
    let mut keys: Vec<Json> = Vec::new();
    let mut i: usize = 0;
    while i < properties.len()
        invariant
            i <= properties@.len(),
            members == properties@,
            keys@.len() == i,
            forall|j: int|
                0 <= j < i ==> (#[trigger] keys@[j])@ == JsonTree::String(members[j].0),
        decreases properties@.len() - i,
    {
        keys.push(Json::text(properties.key(i)));
        i += 1;
    }
    assert(trees(keys@) =~= members.map_values(
        |p: (Seq<char>, JsonTree)| JsonTree::String(p.0),
    ));
    proof {
        reveal_strlit("type");
        reveal_strlit("properties");
        reveal_strlit("required");
        reveal_strlit("additionalProperties");
        assert("type"@.len() == 4 && "properties"@.len() == 10 && "required"@.len() == 8);
    }
    let entries = vec![
        ("type", Json::text("object")),
        ("properties", Json::Object(properties)),
        ("required", Json::Array(keys)),
        ("additionalProperties", Json::Bool(false)),
    ];
    assert(entry_trees(entries@) =~= strict_schema(members)->Object_0);
    object(entries)
}

/// The schema of a number within bounds.
pub open spec fn bounds_tree(field: FieldView) -> JsonTree {
    JsonTree::Object(
        seq![
            ("type"@, JsonTree::String("number"@)),
            ("minimum"@, real_tree(field.minimum)),
            ("maximum"@, real_tree(field.maximum)),
        ],
    )
}

fn bounds(field: &NumericField) -> (r: Json)
    ensures
        r@ == bounds_tree(field@),
{
    proof {
        reveal_strlit("type");
        reveal_strlit("minimum");
        reveal_strlit("maximum");
        assert("minimum"@[1] == 'i' && "maximum"@[1] == 'a');
    }
    let entries = vec![
        ("type", Json::text("number")),
        ("minimum", Json::of_real(&field.minimum)),
        ("maximum", Json::of_real(&field.maximum)),
    ];
    assert(entry_trees(entries@) =~= bounds_tree(field@)->Object_0);
    object(entries)
}

/// The properties of a numeric request: each field within its bounds.
pub open spec fn numeric_properties(fields: Seq<FieldView>) -> Seq<(Seq<char>, JsonTree)> {
    fields.map_values(|f: FieldView| (f.key, bounds_tree(f)))
}

/// The schema of a numeric request that can be put.
pub fn numeric_schema(request: &NumericRequest) -> (r: Json)
    requires
        numeric_request_check(request@) is Ok,
    ensures
        r@ == strict_schema(numeric_properties(request@.fields)),
{
    let ghost all = numeric_properties(request@.fields);
    let mut properties = Object::new();
    let mut i: usize = 0;
    while i < request.fields.len()
        invariant
            i <= request.fields@.len(),
            numeric_request_check(request@) is Ok,
            all == numeric_properties(request@.fields),
            properties@ == all.take(i as int),
        decreases request.fields@.len() - i,
    {
        let field = &request.fields[i];
        proof {
            assert forall|j: int| 0 <= j < properties@.len() implies (#[trigger] properties@[j]).0
                != field.key@ by {
                law_accepted_fields_are_sound(request@, j, i as int);
            }
        }
        properties.put_new(field.key.as_str(), bounds(field));
        i += 1;
    }
    assert(all.take(i as int) =~= all);
    strict(properties)
}

/// The schema of a value of a type.
pub open spec fn typed_tree(kind: Seq<char>) -> JsonTree {
    JsonTree::Object(seq![("type"@, JsonTree::String(kind))])
}

/// Whether every record has a value of the same JSON type under a key.
pub open spec fn one_type(
    records: Seq<Seq<(Seq<char>, JsonTree)>>,
    key: Seq<char>,
    kind: Seq<char>,
) -> bool {
    forall|i: int|
        0 <= i < records.len() ==> lookup(#[trigger] records[i], key) is Some && type_text(
            lookup(records[i], key)->0,
        ) == kind
}

/// The first key of `members` whose type changes across the records.
pub open spec fn drifting_key(
    records: Seq<Seq<(Seq<char>, JsonTree)>>,
    members: Seq<(Seq<char>, JsonTree)>,
) -> Option<Seq<char>>
    decreases members.len(),
{
    if members.len() == 0 {
        None
    } else if !one_type(records, members[0].0, type_text(members[0].1)) {
        Some(members[0].0)
    } else {
        drifting_key(records, members.drop_first())
    }
}

/// The properties of a finite set of records: the type of each field of the
/// first.
pub open spec fn joint_properties(first: Seq<(Seq<char>, JsonTree)>) -> Seq<
    (Seq<char>, JsonTree),
> {
    first.map_values(|m: (Seq<char>, JsonTree)| (m.0, typed_tree(type_text(m.1))))
}

/// The schema of a finite set of records, or the field whose type is not the
/// same in all of them.
pub open spec fn records_schema(records: Seq<Seq<(Seq<char>, JsonTree)>>) -> Result<
    JsonTree,
    BoundedErrorView,
> {
    match drifting_key(records, records[0]) {
        Some(key) => Err(
            BoundedErrorView::InvalidRequest(
                "joint field "@ + quoted_text(key) + " changes JSON type across records"@,
            ),
        ),
        None => Ok(strict_schema(joint_properties(records[0]))),
    }
}

fn has_one_type(records: &Vec<Object>, key: &str, kind: &str) -> (r: bool)
    ensures
        r == one_type(object_views(records@), key@, kind@),
{
    let ghost all = object_views(records@);
    let mut i: usize = 0;
    while i < records.len()
        invariant
            i <= records@.len(),
            all == object_views(records@),
            forall|j: int|
                0 <= j < i ==> lookup(#[trigger] all[j], key@) is Some && type_text(
                    lookup(all[j], key@)->0,
                ) == kind@,
        decreases records@.len() - i,
    {
        assert(all[i as int] == records@[i as int]@);
        match records[i].get(key) {
            Some(value) => {
                if !text::same(json_type(value), kind) {
                    return false;
                }
            },
            None => {
                return false;
            },
        }
        i += 1;
    }
    true
}

fn typed(kind: &str) -> (r: Json)
    ensures
        r@ == typed_tree(kind@),
{
    let entries = vec![("type", Json::text(kind))];
    assert(entry_trees(entries@) =~= typed_tree(kind@)->Object_0);
    object(entries)
}

/// The schema of a finite set of records; an error where a field changes its
/// type across them.
pub fn joint_schema(records: &Vec<Object>) -> (r: Result<Json, BoundedError>)
    requires
        records@.len() > 0,
    ensures
        result_view(r) == records_schema(object_views(records@)),
{
    let first = &records[0];
    let ghost all = object_views(records@);
    let ghost members = first@;
    let ghost listed = joint_properties(members);
    let mut properties = Object::new();
    let mut i: usize = 0;
    assert(members.skip(0) =~= members);
    while i < first.len()
        invariant
            i <= first@.len(),
            members == first@,
            all == object_views(records@),
            all[0] == members,
            listed == joint_properties(members),
            properties@ == listed.take(i as int),
            drifting_key(all, members) == drifting_key(all, members.skip(i as int)),
        decreases first@.len() - i,
    {
        let key = first.key(i);
        let kind = json_type(first.value(i));
        proof {
            let rest = members.skip(i as int);
            assert(rest.drop_first() =~= members.skip(i + 1));
        }
        if !has_one_type(records, key, kind) {
            return Err(
                BoundedError::InvalidRequest(
                    text::join3(
                        "joint field ",
                        text::quoted(key).as_str(),
                        " changes JSON type across records",
                    ),
                ),
            );
        }
        properties.put_new(key, typed(kind));
        i += 1;
    }
    assert(listed.take(i as int) =~= listed);
    Ok(strict(properties))
}

/// Where a schema is made, every record has every field of the first, with
/// the type that the schema gives it.
pub proof fn law_schema_holds_of_every_record(
    records: Seq<Seq<(Seq<char>, JsonTree)>>,
    i: int,
    k: int,
)
    requires
        records_schema(records) is Ok,
        0 <= i < records.len(),
        0 <= k < records[0].len(),
    ensures
        lookup(records[i], records[0][k].0) is Some,
        type_text(lookup(records[i], records[0][k].0)->0) == type_text(records[0][k].1),
        joint_properties(records[0])[k] == (
            records[0][k].0,
            typed_tree(type_text(records[0][k].1)),
        ),
{
    lemma_no_drift(records, records[0], k);
}

proof fn lemma_no_drift(
    records: Seq<Seq<(Seq<char>, JsonTree)>>,
    members: Seq<(Seq<char>, JsonTree)>,
    k: int,
)
    requires
        drifting_key(records, members) is None,
        0 <= k < members.len(),
    ensures
        one_type(records, members[k].0, type_text(members[k].1)),
    decreases members.len(),
{
    if k > 0 {
        lemma_no_drift(records, members.drop_first(), k - 1);
    }
}

/// The `response_format` that asks for a value under a strict schema.
pub open spec fn response_format(schema: JsonTree) -> JsonTree {
    JsonTree::Object(
        seq![
            ("type"@, JsonTree::String("json_schema"@)),
            (
                "json_schema"@,
                JsonTree::Object(
                    seq![
                        ("name"@, JsonTree::String("result"@)),
                        ("strict"@, JsonTree::Bool(true)),
                        ("schema"@, schema),
                    ],
                ),
            ),
        ],
    )
}

/// The `response_format` that asks for a value under a strict schema.
pub(crate) fn format_of(schema: Json) -> (r: Json)
    ensures
        r@ == response_format(schema@),
{
    broadcast use Json::lemma_tree;

    let ghost tree = schema@;
    proof {
        reveal_strlit("name");
        reveal_strlit("strict");
        reveal_strlit("schema");
        reveal_strlit("type");
        reveal_strlit("json_schema");
        assert("strict"@[1] == 't' && "schema"@[1] == 'c');
        assert("type"@.len() == 4 && "json_schema"@.len() == 11);
    }
    let inner = vec![
        ("name", Json::text("result")),
        ("strict", Json::Bool(true)),
        ("schema", schema),
    ];
    assert(entry_trees(inner@) =~= response_format(tree)->Object_0[1].1->Object_0);
    let outer = vec![("type", Json::text("json_schema")), ("json_schema", object(inner))];
    assert(entry_trees(outer@) =~= response_format(tree)->Object_0);
    object(outer)
}

/// The prompt of a request: the instruction, then the observation as JSON.
pub open spec fn prompt_text(instruction: Seq<char>, observation: JsonTree) -> Seq<char> {
    instruction + "\n\nObservation:\n"@ + json_text(observation)
}

/// The prompt of a request.
pub(crate) fn prompt(instruction: &str, observation: &Json) -> (r: String)
    ensures
        r@ == prompt_text(instruction@, observation@),
{
    text::join3(instruction, "\n\nObservation:\n", json::render(observation).as_str())
}

/// Every value is of one JSON type, which its schema names; a number is an
/// integer unless it is written as a double.
pub proof fn law_type_names(tree: JsonTree)
    ensures
        tree is String ==> type_text(tree) == "string"@,
        tree is Bool ==> type_text(tree) == "boolean"@,
        tree matches JsonTree::Number(kind) ==> type_text(tree) == if kind is Float {
            "number"@
        } else {
            "integer"@
        },
        tree is Null ==> type_text(tree) == "null"@,
        tree is Array ==> type_text(tree) == "array"@,
        tree is Object ==> type_text(tree) == "object"@,
{
}

/// A strict schema asks for an object with exactly its properties: each is
/// there under its name, each name is required, and no other is allowed.
pub proof fn law_strict_schema_requires_every_property(properties: Seq<(Seq<char>, JsonTree)>)
    ensures
        strict_schema(properties) matches JsonTree::Object(members) && {
            &&& members.len() == 4
            &&& members[0] == ("type"@, JsonTree::String("object"@))
            &&& members[1] == ("properties"@, JsonTree::Object(properties))
            &&& members[2].0 == "required"@
            &&& members[2].1 matches JsonTree::Array(names) && {
                &&& names.len() == properties.len()
                &&& forall|i: int|
                    0 <= i < names.len() ==> #[trigger] names[i] == JsonTree::String(
                        properties[i].0,
                    )
            }
            &&& members[3] == ("additionalProperties"@, JsonTree::Bool(false))
        },
{
}

/// A field of a numeric request is a number between its own bounds.
pub proof fn law_schema_holds_each_field_to_its_bounds(fields: Seq<FieldView>, i: int)
    requires
        0 <= i < fields.len(),
    ensures
        numeric_properties(fields).len() == fields.len(),
        numeric_properties(fields)[i].0 == fields[i].key,
        numeric_properties(fields)[i].1 matches JsonTree::Object(members) && {
            &&& members.len() == 3
            &&& members[0] == ("type"@, JsonTree::String("number"@))
            &&& members[1] == ("minimum"@, real_tree(fields[i].minimum))
            &&& members[2] == ("maximum"@, real_tree(fields[i].maximum))
        },
{
}

/// Records have a schema exactly where each field of the first is in all of
/// them, with one type, and it asks for each field with that type.
pub proof fn law_records_of_one_type_have_a_schema(records: Seq<Seq<(Seq<char>, JsonTree)>>)
    requires
        records.len() > 0,
    ensures
        records_schema(records) is Ok <==> forall|k: int, i: int|
            0 <= k < records[0].len() && 0 <= i < records.len() ==> {
                &&& lookup(#[trigger] records[i], (#[trigger] records[0][k]).0) is Some
                &&& type_text(lookup(records[i], records[0][k].0)->0) == type_text(
                    records[0][k].1,
                )
            },
        records_schema(records) matches Ok(schema) ==> exists|properties: Seq<
            (Seq<char>, JsonTree),
        >|
            {
                &&& schema == #[trigger] strict_schema(properties)
                &&& properties.len() == records[0].len()
                &&& forall|k: int|
                    #![trigger properties[k]]
                    0 <= k < properties.len() ==> {
                        &&& properties[k].0 == records[0][k].0
                        &&& properties[k].1 matches JsonTree::Object(members) && {
                            &&& members.len() == 1
                            &&& members[0] == ("type"@, JsonTree::String(
                                type_text(records[0][k].1),
                            ))
                        }
                    }
            },
        records_schema(records) matches Err(e) ==> e is InvalidRequest,
{
    if records_schema(records) is Ok {
        assert forall|k: int, i: int|
            0 <= k < records[0].len() && 0 <= i < records.len() implies {
            &&& lookup(#[trigger] records[i], (#[trigger] records[0][k]).0) is Some
            &&& type_text(lookup(records[i], records[0][k].0)->0) == type_text(records[0][k].1)
        } by {
            law_schema_holds_of_every_record(records, i, k);
        }
        let properties = joint_properties(records[0]);
        assert(records_schema(records)->Ok_0 == strict_schema(properties));
    }
    if forall|k: int, i: int|
        0 <= k < records[0].len() && 0 <= i < records.len() ==> {
            &&& lookup(#[trigger] records[i], (#[trigger] records[0][k]).0) is Some
            &&& type_text(lookup(records[i], records[0][k].0)->0) == type_text(records[0][k].1)
        } {
        assert forall|k: int| 0 <= k < records[0].len() implies one_type(
            records,
            (#[trigger] records[0][k]).0,
            type_text(records[0][k].1),
        ) by {}
        lemma_all_one_type(records, records[0]);
    }
}

proof fn lemma_all_one_type(
    records: Seq<Seq<(Seq<char>, JsonTree)>>,
    members: Seq<(Seq<char>, JsonTree)>,
)
    requires
        forall|k: int|
            0 <= k < members.len() ==> one_type(
                records,
                (#[trigger] members[k]).0,
                type_text(members[k].1),
            ),
    ensures
        drifting_key(records, members) is None,
    decreases members.len(),
{
    if members.len() > 0 {
        let rest = members.drop_first();
        assert forall|k: int| 0 <= k < rest.len() implies one_type(
            records,
            (#[trigger] rest[k]).0,
            type_text(rest[k].1),
        ) by {
            assert(rest[k] == members[k + 1]);
        }
        assert(one_type(records, members[0].0, type_text(members[0].1)));
        lemma_all_one_type(records, rest);
    }
}

/// A call under a schema asks for a result that is held to it strictly, and its
/// prompt is the instruction, then the observation.
pub proof fn law_schema_is_asked_for_strictly(
    schema: JsonTree,
    instruction: Seq<char>,
    observation: JsonTree,
)
    ensures
        response_format(schema) matches JsonTree::Object(members) && {
            &&& members.len() == 2
            &&& members[0] == ("type"@, JsonTree::String("json_schema"@))
            &&& members[1].0 == "json_schema"@
            &&& members[1].1 matches JsonTree::Object(named) && {
                &&& named.len() == 3
                &&& named[0] == ("name"@, JsonTree::String("result"@))
                &&& named[1] == ("strict"@, JsonTree::Bool(true))
                &&& named[2] == ("schema"@, schema)
            }
        },
        prompt_text(instruction, observation) == instruction + "\n\nObservation:\n"@ + json_text(
            observation,
        ),
{
}

/// A field whose type changes across the records is named, the first of them.
pub proof fn law_first_changing_field_is_named(
    records: Seq<Seq<(Seq<char>, JsonTree)>>,
    k: int,
    i: int,
)
    requires
        records.len() > 0,
        0 <= k < records[0].len(),
        0 <= i < records.len(),
        forall|j: int|
            0 <= j < k ==> one_type(
                records,
                (#[trigger] records[0][j]).0,
                type_text(records[0][j].1),
            ),
    ensures
        lookup(records[i], records[0][k].0) is None || type_text(
            lookup(records[i], records[0][k].0)->0,
        ) != type_text(records[0][k].1) ==> records_schema(records) == Err::<
            JsonTree,
            BoundedErrorView,
        >(
            BoundedErrorView::InvalidRequest(
                "joint field "@ + quoted_text(records[0][k].0)
                    + " changes JSON type across records"@,
            ),
        ),
{
    if lookup(records[i], records[0][k].0) is None || type_text(
        lookup(records[i], records[0][k].0)->0,
    ) != type_text(records[0][k].1) {
        lemma_drifts_at(records, records[0], k, i);
    }
}

proof fn lemma_drifts_at(
    records: Seq<Seq<(Seq<char>, JsonTree)>>,
    members: Seq<(Seq<char>, JsonTree)>,
    k: int,
    i: int,
)
    requires
        0 <= k < members.len(),
        0 <= i < records.len(),
        lookup(records[i], members[k].0) is None || type_text(lookup(records[i], members[k].0)->0)
            != type_text(members[k].1),
        forall|j: int|
            0 <= j < k ==> one_type(
                records,
                (#[trigger] members[j]).0,
                type_text(members[j].1),
            ),
    ensures
        drifting_key(records, members) == Some(members[k].0),
    decreases members.len(),
{
    if k > 0 {
        let rest = members.drop_first();
        assert(one_type(records, members[0].0, type_text(members[0].1)));
        assert forall|j: int| 0 <= j < k - 1 implies one_type(
            records,
            (#[trigger] rest[j]).0,
            type_text(rest[j].1),
        ) by {
            assert(rest[j] == members[j + 1]);
        }
        lemma_drifts_at(records, rest, k - 1, i);
    } else {
        let other = records[i];
    }
}

} // verus!
