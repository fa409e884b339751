//! Embeddings: audio in, a vector of fixed dimension out.
//!
//! The routes speak JSON, so the audio travels base64-encoded inside the
//! body; a caller supplies raw bytes and never sees the encoding.
use crate::base64::{base64_text, encode_base64};
use crate::error::{truncated, Error, ErrorView};
use crate::fields::{self, field};
use crate::http::{HttpClient, Reply, ReplyView};
use crate::json::{
    distinct_keys, json_text, real_of, single_of, string_of, trees, Json, JsonTree, Object,
};
use crate::names::{
    duplicate_all, duplicate_option, lemma_find_entry, lookup, option_view, result_view,
};
use crate::number::{real_bits, single_bits, Real};
use crate::question::{lemma_object_fits, Usage};
use crate::response::{
    error_message, extract_error_message, parse_body, parsed_body, raw_usage, read_reply,
    reply_tree, response_usage, undecodable,
};
use crate::scripted::strings;
use crate::shape::{
    self, absent_fault, entries_fault, items_fault, lemma_field_found, members_fault, record_fault,
    singles_fault, Shape,
};
use std::collections::VecDeque;
use vstd::prelude::*;

verus! {

broadcast use vstd::string::group_string_axioms;

/// The embeddings route, appended to a client's base URL.
pub const EMBEDDINGS_PATH: &'static str = "/v1/embeddings";

/// A request for one audio embedding.
#[derive(Debug, PartialEq, Eq)]
pub struct EmbedRequest {
    /// Raw audio bytes. Mono 16 kHz PCM WAV is the canonical input.
    pub audio: Vec<u8>,
    /// Container hint for those bytes, e.g. `"wav"`.
    pub format: String,
}

/// An [`EmbedRequest`], with plain values for its parts.
pub struct EmbedRequestView {
    /// The audio.
    pub audio: Seq<u8>,
    /// Its container.
    pub format: Seq<char>,
}

impl View for EmbedRequest {
    type V = EmbedRequestView;

    open spec fn view(&self) -> EmbedRequestView {
        EmbedRequestView { audio: self.audio@, format: self.format@ }
    }
}

impl EmbedRequest {
    /// A request for WAV audio.
    pub fn wav(audio: Vec<u8>) -> (r: Self)
        ensures
            r@ == (EmbedRequestView { audio: audio@, format: "wav"@ }),
    {
        EmbedRequest { audio, format: "wav".to_owned() }
    }
}

/// The bits of a sequence of doubles.
pub open spec fn real_views(items: Seq<Real>) -> Seq<u64> {
    items.map_values(|x: Real| x@)
}

/// One embedding, plus whatever the endpoint reported about how it was
/// produced.
#[derive(Debug, PartialEq)]
pub struct Embedding {
    /// The embedding vector, in the model's own dimension and in single
    /// precision.
    pub vector: Vec<Real>,
    /// The backend model that actually answered, when reported.
    pub model: Option<String>,
    /// Token accounting, when the endpoint reported it.
    pub usage: Option<Usage>,
}

/// An [`Embedding`], with plain values for its parts.
pub struct EmbeddingView {
    /// The bits of the vector's components.
    pub vector: Seq<u64>,
    /// The model that answered.
    pub model: Option<Seq<char>>,
    /// Token accounting.
    pub usage: Option<Usage>,
}

impl View for Embedding {
    type V = EmbeddingView;

    open spec fn view(&self) -> EmbeddingView {
        EmbeddingView {
            vector: real_views(self.vector@),
            model: option_view(self.model),
            usage: self.usage,
        }
    }
}

impl Clone for EmbedRequest {
    fn clone(&self) -> (r: Self)
        ensures
            r@ == self@,
    {
        let mut audio: Vec<u8> = Vec::new();
        audio.extend_from_slice(self.audio.as_slice());
        assert(audio@ =~= self.audio@);
        EmbedRequest { audio, format: self.format.clone() }
    }
}

impl Clone for Embedding {
    fn clone(&self) -> (r: Self)
        ensures
            r@ == self@,
    {
        let r = Embedding {
            vector: duplicate_all(&self.vector),
            model: duplicate_option(&self.model),
            usage: self.usage,
        };
        assert(r@.vector =~= self@.vector);
        r
    }
}

/// Anything that can embed audio.
pub trait Embed {
    /// Embeds the audio of a request.
    fn embed(&mut self, request: &EmbedRequest) -> Result<Embedding, Error>;
}

/// The members of the one input of an embedding call.
pub open spec fn input_members(request: EmbedRequestView) -> Seq<(Seq<char>, JsonTree)> {
    seq![
        ("audio"@, JsonTree::String(base64_text(request.audio))),
        ("format"@, JsonTree::String(request.format)),
    ]
}

/// The members of the body of an embedding call.
pub open spec fn embed_members(model: Seq<char>, request: EmbedRequestView) -> Seq<
    (Seq<char>, JsonTree),
> {
    seq![
        ("model"@, JsonTree::String(model)),
        ("input"@, JsonTree::Array(seq![JsonTree::Object(input_members(request))])),
    ]
}

/// Whether every item is a number.
pub open spec fn all_numbers(items: Seq<JsonTree>) -> bool {
    forall|i: int| 0 <= i < items.len() ==> real_of(#[trigger] items[i]) is Some
}

/// The doubles of an array of numbers.
pub open spec fn item_reals(items: Seq<JsonTree>) -> Seq<u64> {
    items.map_values(|t: JsonTree| real_of(t).unwrap_or(0))
}

/// The doubles of a JSON value that is an array of numbers.
pub open spec fn reals_array(tree: JsonTree) -> Option<Seq<u64>> {
    match tree {
        JsonTree::Array(items) => if all_numbers(items) {
            Some(item_reals(items))
        } else {
            None
        },
        _ => None,
    }
}

/// Reads a JSON value that is an array of numbers.
pub(crate) fn read_reals(json: &Json) -> (r: Option<Vec<Real>>)
    ensures
        r is Some == (reals_array(json@) is Some),
        r matches Some(v) ==> reals_array(json@) == Some(real_views(v@)),
{
    let items = match json.as_array() {
        Some(items) => items,
        None => {
            return None;
        },
    };
    let ghost all = trees(items@);
    let mut out: Vec<Real> = Vec::new();
    let mut i: usize = 0;
    while i < items.len()
        invariant
            i <= items@.len(),
            json@ == JsonTree::Array(all),
            all == trees(items@),
            out@.len() == i,
            forall|j: int|
                0 <= j < i ==> real_of(#[trigger] all[j]) == Some(out@[j]@),
        decreases items@.len() - i,
    {
        assert(all[i as int] == items@[i as int]@);
        match items[i].as_real() {
            Some(x) => {
                out.push(x);
            },
            None => {
                return None;
            },
        }
        i += 1;
    }
    Some(out)
}

/// The numbers of an array in single precision.
pub open spec fn item_singles(items: Seq<JsonTree>) -> Seq<u64> {
    items.map_values(|t: JsonTree| single_of(t).unwrap_or(0))
}

/// The vector of one entry of a response; absent, it is empty.
pub open spec fn entry_vector(entry: JsonTree) -> Seq<u64> {
    match field(entry, 0, "embedding"@) {
        Some(JsonTree::Array(items)) => item_singles(items),
        _ => Seq::empty(),
    }
}

/// The vector of the first entry of a response.
pub open spec fn first_vector(body: JsonTree) -> Seq<u64> {
    match field(body, 0, "data"@) {
        Some(JsonTree::Array(entries)) => if entries.len() > 0 {
            entry_vector(entries[0])
        } else {
            Seq::empty()
        },
        _ => Seq::empty(),
    }
}

/// The model that a response names, where it names one.
pub open spec fn named_model(body: JsonTree) -> Option<Seq<char>> {
    match field(body, 1, "model"@) {
        Some(model) => string_of(model),
        None => None,
    }
}

/// The embedding that a response gives, or why it gives none. A model named
/// by the transport wins over one named in the body.
pub open spec fn embedding_of(body: JsonTree, resolved_model: Option<Seq<char>>) -> Result<
    EmbeddingView,
    ErrorView,
> {
    if error_message(body) is Some {
        Err(ErrorView::Api(error_message(body)->0))
    } else {
        match record_fault(body, Shape::Embedding) {
            Some(source) => Err(ErrorView::Decode { source, body: truncated(json_text(body)) }),
            None => if first_vector(body).len() == 0 {
                Err(ErrorView::EmptyEmbedding)
            } else {
                Ok(
                    EmbeddingView {
                        vector: first_vector(body),
                        model: match resolved_model {
                            Some(name) => Some(name),
                            None => named_model(body),
                        },
                        usage: response_usage(body),
                    },
                )
            },
        }
    }
}

fn read_singles(items: &Vec<Json>) -> (r: Vec<Real>)
    ensures
        real_views(r@) == item_singles(trees(items@)),
{
    let ghost all = trees(items@);
    let mut out: Vec<Real> = Vec::new();
    let mut i: usize = 0;
    while i < items.len()
        invariant
            i <= items@.len(),
            all == trees(items@),
            out@.len() == i,
            forall|j: int|
                0 <= j < i ==> (#[trigger] out@[j])@ == single_of(all[j]).unwrap_or(0),
        decreases items@.len() - i,
    {
        assert(all[i as int] == items@[i as int]@);
        out.push(
            match items[i].as_single() {
                Some(x) => x,
                None => Real::zero(),
            },
        );
        i += 1;
    }
    assert(real_views(out@) =~= item_singles(all));
    out
}

fn read_vector(body: &Json) -> (r: Vec<Real>)
    ensures
        real_views(r@) == first_vector(body@),
{
    let none: Vec<Real> = Vec::new();
    assert(real_views(none@) =~= Seq::<u64>::empty());
    let entries = match fields::get_field(body, 0, "data") {
        Some(data) => match data.as_array() {
            Some(entries) => entries,
            None => {
                return none;
            },
        },
        None => {
            return none;
        },
    };
    if entries.len() == 0 {
        return none;
    }
    assert(trees(entries@)[0] == entries@[0]@);
    match fields::get_field(&entries[0], 0, "embedding") {
        Some(vector) => match vector.as_array() {
            Some(items) => read_singles(items),
            None => none,
        },
        None => none,
    }
}

/// Reads a full embeddings response body, the same way for every embedder
/// that delivers one.
pub fn decode_embedding(value: &Json, resolved_model: Option<String>) -> (r: Result<
    Embedding,
    Error,
>)
    ensures
        result_view(r) == embedding_of(value@, option_view(resolved_model)),
{
    if let Some(message) = extract_error_message(value) {
        return Err(Error::Api(message));
    }
    if let Some(source) = shape::fault(value, Shape::Embedding) {
        return Err(undecodable(source, value));
    }
    let vector = read_vector(value);
    assert(real_views(vector@).len() == vector@.len());
    if vector.len() == 0 {
        return Err(Error::EmptyEmbedding);
    }
    let model = match resolved_model {
        Some(name) => Some(name),
        None => match fields::get_field(value, 1, "model") {
            Some(model) => match model.as_str() {
                Some(name) => Some(name.to_owned()),
                None => None,
            },
            None => None,
        },
    };
    Ok(Embedding { vector, model, usage: raw_usage(value) })
}

proof fn lemma_embed_keys()
    ensures
        "audio"@ != "format"@,
        "model"@ != "input"@,
{
    reveal_strlit("audio");
    reveal_strlit("format");
    reveal_strlit("model");
    reveal_strlit("input");
    assert("audio"@.len() == 5 && "format"@.len() == 6);
    assert("model"@[0] == 'm' && "input"@[0] == 'i');
}

/// What an embedding call gives, by the accepted response.
pub open spec fn embedded(reply: ReplyView) -> Result<EmbeddingView, ErrorView> {
    match reply_tree(reply.body) {
        Ok(tree) => embedding_of(tree, reply.resolved_model),
        Err(e) => Err(e),
    }
}

impl Reply {
    /// Reads the response to an embedding call.
    pub fn embedded(self) -> (r: Result<Embedding, Error>)
        ensures
            result_view(r) == embedded(self@),
    {
        match read_reply(&self.body) {
            Ok(value) => decode_embedding(&value, self.resolved_model),
            Err(e) => Err(e),
        }
    }
}

impl HttpClient {
    /// The body of an embedding call.
    pub fn embed_body(&self, request: &EmbedRequest) -> (r: Json)
        ensures
            r@ == JsonTree::Object(embed_members(self@.model, request@)),
    {
        broadcast use Json::lemma_tree;

        proof {
            lemma_embed_keys();
        }
        let mut entry = Object::new();
        let encoded = encode_base64(request.audio.as_slice());
        entry.put_new("audio", Json::text(encoded.as_str()));
        entry.put_new("format", Json::text(request.format.as_str()));
        assert(entry@ =~= input_members(request@));
        let mut inputs: Vec<Json> = Vec::new();
        inputs.push(Json::Object(entry));
        assert(trees(inputs@) =~= seq![JsonTree::Object(input_members(request@))]);
        let mut out = Object::new();
        out.put_new("model", Json::text(self.model()));
        out.put_new("input", Json::Array(inputs));
        assert(out@ =~= embed_members(self@.model, request@));
        Json::Object(out)
    }
}

/// Answers embedding calls from a queue of canned response bodies, in order.
#[derive(Debug)]
pub struct ScriptedEmbeddings {
    bodies: VecDeque<String>,
}

impl View for ScriptedEmbeddings {
    type V = Seq<Seq<char>>;

    closed spec fn view(&self) -> Seq<Seq<char>> {
        strings(self.bodies@)
    }
}

impl ScriptedEmbeddings {
    /// Queues response bodies, answered in order.
    pub fn new(bodies: Vec<String>) -> (r: Self)
        ensures
            r@ == strings(bodies@),
    {
        let ghost start = bodies@;
        let mut queue: VecDeque<String> = VecDeque::new();
        for body in it: bodies
            invariant
                it.seq() == start,
                queue@ == start.take(it.index() as int),
        {
            queue.push_back(body);
        }
        ScriptedEmbeddings { bodies: queue }
    }
}

impl Default for ScriptedEmbeddings {
    fn default() -> (r: Self)
        ensures
            r@ == Seq::<Seq<char>>::empty(),
    {
        let r = ScriptedEmbeddings { bodies: VecDeque::new() };
        r
    }
}

/// What a canned body answers.
pub open spec fn canned_embedding(body: Seq<char>) -> Result<EmbeddingView, ErrorView> {
    match parsed_body(body) {
        Ok(tree) => embedding_of(tree, None),
        Err(e) => Err(e),
    }
}

/// One call of a scripted embedder: the next body, if there is one, is taken
/// and answers.
pub open spec fn scripted_embedding(
    before: Seq<Seq<char>>,
    result: Result<EmbeddingView, ErrorView>,
    after: Seq<Seq<char>>,
) -> bool {
    if before.len() == 0 {
        &&& after == before
        &&& result == Err::<EmbeddingView, ErrorView>(
            ErrorView::Transport("ScriptedEmbeddings ran out of responses"@),
        )
    } else {
        &&& after == before.drop_first()
        &&& result == canned_embedding(before[0])
    }
}

impl Embed for ScriptedEmbeddings {
    fn embed(&mut self, _request: &EmbedRequest) -> (r: Result<Embedding, Error>)
        ensures
            scripted_embedding(old(self)@, result_view(r), final(self)@),
    {
        let ghost before = self@;
        let body = match self.bodies.pop_front() {
            Some(body) => body,
            None => {
                return Err(
                    Error::Transport("ScriptedEmbeddings ran out of responses".to_owned()),
                );
            },
        };
        assert(self@ =~= before.drop_first());
        match parse_body(body.as_str()) {
            Ok(value) => decode_embedding(&value, None),
            Err(e) => Err(e),
        }
    }
}

/// A canned body gives what a response with that body gives, where the
/// transport names no model.
pub proof fn law_scripted_embedding_reads_like_the_endpoint(
    body: Seq<char>,
    elapsed: nat,
    retries: u32,
)
    ensures
        canned_embedding(body) == embedded(
            ReplyView { body: Ok(body), resolved_model: None, elapsed, retries },
        ),
{
}

/// An embedding that is given has at least one component.
pub proof fn law_embedding_is_never_empty(body: JsonTree, resolved_model: Option<Seq<char>>)
    ensures
        embedding_of(body, resolved_model) matches Ok(embedding) ==> embedding.vector.len() > 0,
{
}

/// An array of numbers is read item by item, each as a double, and one with
/// anything else in it not at all.
pub proof fn law_numbers_are_read_item_by_item(items: Seq<JsonTree>, i: int)
    requires
        0 <= i < items.len(),
    ensures
        !(items[i] is Number) ==> !all_numbers(items),
        item_reals(items).len() == items.len(),
        items[i] matches JsonTree::Number(kind) ==> item_reals(items)[i] == real_bits(kind),
        all_numbers(items) <==> forall|j: int|
            0 <= j < items.len() ==> (#[trigger] items[j]) is Number,
{
    if all_numbers(items) {
        assert forall|j: int| 0 <= j < items.len() implies (#[trigger] items[j]) is Number by {
            assert(real_of(items[j]) is Some);
        }
    }
    if forall|j: int| 0 <= j < items.len() ==> (#[trigger] items[j]) is Number {
        assert forall|j: int| 0 <= j < items.len() implies real_of(#[trigger] items[j])
            is Some by {
            assert(items[j] is Number);
        }
    }
    if !(items[i] is Number) {
        assert(real_of(items[i]) is None);
    }
}

/// An embedding call sends the model and one input: the audio in base64 and its
/// container.
pub proof fn law_embedding_body_holds_the_audio(model: Seq<char>, request: EmbedRequestView)
    ensures
        ({
            let members = embed_members(model, request);
            &&& members.len() == 2
            &&& members[0] == ("model"@, JsonTree::String(model))
            &&& members[1].0 == "input"@
            &&& members[1].1 matches JsonTree::Array(inputs) && {
                &&& inputs.len() == 1
                &&& inputs[0] matches JsonTree::Object(input) && {
                    &&& input.len() == 2
                    &&& input[0] == ("audio"@, JsonTree::String(base64_text(request.audio)))
                    &&& input[1] == ("format"@, JsonTree::String(request.format))
                }
            }
        }),
        EMBEDDINGS_PATH@ == "/v1/embeddings"@,
{
}

/// An embedding that is given is the vector of the first entry under `data`,
/// component by component in single precision. Its model is the one that the
/// transport names, else the one in the body, and its tokens are those that the
/// body reports.
pub proof fn law_embedding_is_the_first_vector(
    members: Seq<(Seq<char>, JsonTree)>,
    entries: Seq<JsonTree>,
    entry: Seq<(Seq<char>, JsonTree)>,
    items: Seq<JsonTree>,
    resolved_model: Option<Seq<char>>,
)
    requires
        lookup(members, "data"@) == Some(JsonTree::Array(entries)),
        entries.len() > 0,
        entries[0] == JsonTree::Object(entry),
        lookup(entry, "embedding"@) == Some(JsonTree::Array(items)),
    ensures
        embedding_of(JsonTree::Object(members), resolved_model) matches Ok(embedding) ==> {
            &&& embedding.vector.len() == items.len()
            &&& forall|i: int|
                #![trigger items[i]]
                0 <= i < items.len() ==> (items[i] matches JsonTree::Number(kind)
                    ==> embedding.vector[i] == single_bits(kind))
            &&& resolved_model is Some ==> embedding.model == resolved_model
            &&& resolved_model is None ==> embedding.model == match lookup(members, "model"@) {
                Some(JsonTree::String(name)) => Some(name),
                _ => None,
            }
            &&& embedding.usage == response_usage(JsonTree::Object(members))
        },
{
}

/// A response is an embedding where it reports no error, every entry under
/// `data` has an array of numbers, the first of them is not empty, and the model
/// is absent, `null` or a string; where the first vector is empty or absent it
/// says so.
pub proof fn law_sound_embedding_is_given(
    members: Seq<(Seq<char>, JsonTree)>,
    entries: Seq<JsonTree>,
    resolved_model: Option<Seq<char>>,
)
    requires
        distinct_keys(members),
        error_message(JsonTree::Object(members)) is None,
        lookup(members, "data"@) == Some(JsonTree::Array(entries)),
        forall|k: int|
            #![trigger entries[k]]
            0 <= k < entries.len() ==> (entries[k] matches JsonTree::Object(entry) && distinct_keys(
                entry,
            ) && (lookup(entry, "embedding"@) matches Some(JsonTree::Array(items)) && forall|
                i: int,
            |
                0 <= i < items.len() ==> (#[trigger] items[i]) is Number)),
        lookup(members, "model"@) matches Some(model) ==> model is Null || model is String,
    ensures
        embedding_of(JsonTree::Object(members), resolved_model) is Ok <==> entries.len() > 0
            && lookup(entries[0]->Object_0, "embedding"@)->0->Array_0.len() > 0,
        embedding_of(JsonTree::Object(members), resolved_model) matches Err(e) ==> e
            is EmptyEmbedding,
{
    assert forall|k: int| 0 <= k < entries.len() implies record_fault(
        #[trigger] entries[k],
        Shape::Entry,
    ) is None by {
        let entry = entries[k]->Object_0;
        let items = lookup(entry, "embedding"@)->0->Array_0;
        lemma_singles_fit(items, 0);
        lemma_object_fits(entry, Shape::Entry);
    }
    lemma_entries_fit(entries, 0);
    lemma_object_fits(members, Shape::Embedding);
}

proof fn lemma_singles_fit(items: Seq<JsonTree>, from: int)
    requires
        0 <= from <= items.len(),
        forall|i: int| 0 <= i < items.len() ==> (#[trigger] items[i]) is Number,
    ensures
        singles_fault(items, from) is None,
    decreases items.len() - from,
{
    if from < items.len() {
        assert(items[from] is Number);
        lemma_singles_fit(items, from + 1);
    }
}

proof fn lemma_entries_fit(entries: Seq<JsonTree>, from: int)
    requires
        0 <= from <= entries.len(),
        forall|k: int|
            0 <= k < entries.len() ==> record_fault(#[trigger] entries[k], Shape::Entry) is None,
    ensures
        entries_fault(entries, from) is None,
    decreases entries.len() - from,
{
    if from < entries.len() {
        assert(record_fault(entries[from], Shape::Entry) is None);
        lemma_entries_fit(entries, from + 1);
    }
}

/// An embeddings response that reports an error fails with its words; one that
/// never came or is no JSON fails as its body does; any other is read as its
/// body, with the model that the transport names.
pub proof fn law_embedding_is_read_from_the_accepted_response(reply: ReplyView)
    ensures
        reply_tree(reply.body) matches Err(e) ==> embedded(reply) == Err::<
            EmbeddingView,
            ErrorView,
        >(e),
        reply_tree(reply.body) matches Ok(tree) ==> {
            &&& embedded(reply) == embedding_of(tree, reply.resolved_model)
            &&& error_message(tree) matches Some(words) ==> embedded(reply) == Err::<
                EmbeddingView,
                ErrorView,
            >(ErrorView::Api(words))
        },
{
}

/// A scripted embedder answers each call with the next of its bodies, in order,
/// read as a response is, and says so where none is left.
pub proof fn law_canned_embeddings_answer_in_order(
    before: Seq<Seq<char>>,
    result: Result<EmbeddingView, ErrorView>,
    after: Seq<Seq<char>>,
)
    requires
        scripted_embedding(before, result, after),
    ensures
        before.len() > 0 ==> {
            &&& before == seq![before[0]] + after
            &&& parsed_body(before[0]) matches Ok(tree) ==> result == embedding_of(tree, None)
            &&& parsed_body(before[0]) matches Err(e) ==> result == Err::<EmbeddingView, ErrorView>(
                e,
            )
        },
        before.len() == 0 ==> after.len() == 0 && result == Err::<EmbeddingView, ErrorView>(
            ErrorView::Transport("ScriptedEmbeddings ran out of responses"@),
        ),
{
    if before.len() > 0 {
        assert(before =~= seq![before[0]] + after);
    }
}

/// The bits of some numbers are those of each, in their order.
pub proof fn law_bits_keep_their_order(items: Seq<Real>)
    ensures
        real_views(items).len() == items.len(),
        forall|i: int| 0 <= i < items.len() ==> #[trigger] real_views(items)[i] == items[i]@,
{
}

/// An embedding in an array is read as the one in an object with the same parts.
pub proof fn law_embedding_may_be_an_array(
    data: JsonTree,
    model: JsonTree,
    resolved_model: Option<Seq<char>>,
)
    ensures
        ({
            let listed = JsonTree::Array(seq![data, model]);
            let named = JsonTree::Object(seq![("data"@, data), ("model"@, model)]);
            &&& embedding_of(listed, resolved_model) is Ok == embedding_of(named, resolved_model)
                is Ok
            &&& embedding_of(listed, resolved_model) is Ok ==> embedding_of(listed, resolved_model)
                == embedding_of(named, resolved_model)
        }),
{
    let items = seq![data, model];
    let members = seq![("data"@, data), ("model"@, model)];
    let shape = Shape::Embedding;
    reveal_strlit("data");
    reveal_strlit("model");
    reveal_strlit("error");
    reveal_strlit("usage");
    assert("data"@.len() == 4 && "model"@.len() == 5 && "error"@.len() == 5 && "usage"@.len() == 5);
    assert("model"@[0] == 'm' && "error"@[0] == 'e' && "usage"@[0] == 'u');
    reveal_with_fuel(absent_fault, 3);
    lemma_find_entry(members, "data"@, 0);
    lemma_find_entry(members, "model"@, 1);
    lemma_find_entry(members, "error"@, 2);
    lemma_find_entry(members, "usage"@, 2);
    lemma_field_found(shape, 0);
    lemma_field_found(shape, 1);
    assert(items_fault(items, shape, 2) is None);
    assert(members_fault(members, shape, 2) is None);
    assert(items_fault(items, shape, 1) == members_fault(members, shape, 1));
    assert(items_fault(items, shape, 0) == members_fault(members, shape, 0));
    assert(absent_fault(members, shape, 0) is None);
}

/// An embeddings response of the wrong shape is refused in the words of its
/// fault, with its own text, unless it reports an error.
pub proof fn law_faulty_embedding_is_refused_in_its_words(
    body: JsonTree,
    resolved_model: Option<Seq<char>>,
)
    requires
        error_message(body) is None,
    ensures
        record_fault(body, Shape::Embedding) matches Some(source) ==> embedding_of(
            body,
            resolved_model,
        ) == Err::<EmbeddingView, ErrorView>(
            ErrorView::Decode { source, body: truncated(json_text(body)) },
        ),
{
}

} // verus!
