//! Genuinely open text, not a bounded decision.
//!
//! Kept apart from questions and answers: a decision is bounded in and typed
//! out, while a completion has no closed answer set and no confidence.
use crate::error::{self, truncated, Error, ErrorView};
use crate::http::HttpClient;
use crate::json::{
    self, first_item, json_read, member, real_of, real_tree, string_of, trees, unsigned_of, Json,
    JsonTree, Object,
};
use crate::names::{duplicate_option, lookup, option_view, result_view};
use crate::number::{real_bits, NumberKind, Real};
use crate::scripted::strings;
use crate::text::{
    self, after_prefix, is_white_space, law_blank_trims_to_nothing,
    law_prefix_and_rest_are_the_text, trim_text,
};
use std::collections::VecDeque;
use vstd::prelude::*;
use vstd::string::*;

verus! {

broadcast use vstd::string::group_string_axioms;

/// The chat-completions route, appended to a client's base URL.
pub const CHAT_PATH: &'static str = "/v1/chat/completions";

/// A free-text completion request: system instructions plus a user message,
/// bounded only by `max_tokens`.
#[derive(Debug, PartialEq)]
pub struct Prompt {
    /// The system instructions.
    pub system: String,
    /// The user message.
    pub user: String,
    /// How many tokens the answer may take.
    pub max_tokens: u16,
    /// How freely the answer is sampled.
    pub temperature: Real,
    /// How hard a reasoning model thinks before answering: `"low"`,
    /// `"medium"` or `"high"`. `None` leaves the model's default. Reasoning
    /// spends `max_tokens` too.
    pub reasoning_effort: Option<String>,
}

/// A [`Prompt`], with plain values for its parts.
pub struct PromptView {
    /// The system instructions.
    pub system: Seq<char>,
    /// The user message.
    pub user: Seq<char>,
    /// How many tokens the answer may take.
    pub max_tokens: u16,
    /// The bits of the temperature.
    pub temperature: u64,
    /// How hard the model thinks.
    pub reasoning_effort: Option<Seq<char>>,
}

impl View for Prompt {
    type V = PromptView;

    open spec fn view(&self) -> PromptView {
        PromptView {
            system: self.system@,
            user: self.user@,
            max_tokens: self.max_tokens,
            temperature: self.temperature@,
            reasoning_effort: option_view(self.reasoning_effort),
        }
    }
}

/// The default temperature: 0.2 in single precision, as a double.
pub open spec fn default_temperature() -> u64 {
    match json_read("0.20000000298023224"@) {
        Ok(tree) => real_of(tree).unwrap_or(0),
        Err(_) => 0,
    }
}

fn low_temperature() -> (r: Real)
    ensures
        r@ == default_temperature(),
{
    match json::parse("0.20000000298023224") {
        Ok(value) => match value.as_real() {
            Some(x) => x,
            None => Real::zero(),
        },
        Err(_) => Real::zero(),
    }
}

impl Prompt {
    /// Defaults to 512 max tokens and a low but not zero temperature.
    pub fn new(system: &str, user: &str) -> (r: Self)
        ensures
            r@ == (PromptView {
                system: system@,
                user: user@,
                max_tokens: 512,
                temperature: default_temperature(),
                reasoning_effort: None,
            }),
    {
        Prompt {
            system: system.to_owned(),
            user: user.to_owned(),
            max_tokens: 512,
            temperature: low_temperature(),
            reasoning_effort: None,
        }
    }

    /// The prompt with a reasoning effort.
    pub fn with_reasoning_effort(self, effort: &str) -> (r: Self)
        ensures
            r@ == (PromptView { reasoning_effort: Some(effort@), ..self@ }),
    {
        let mut prompt = self;
        prompt.reasoning_effort = Some(effort.to_owned());
        prompt
    }

    /// The prompt with another token limit.
    pub fn with_max_tokens(self, max_tokens: u16) -> (r: Self)
        ensures
            r@ == (PromptView { max_tokens, ..self@ }),
    {
        let mut prompt = self;
        prompt.max_tokens = max_tokens;
        prompt
    }

    /// The prompt with another temperature.
    pub fn with_temperature(self, temperature: Real) -> (r: Self)
        ensures
            r@ == (PromptView { temperature: temperature@, ..self@ }),
    {
        let mut prompt = self;
        prompt.temperature = temperature;
        prompt
    }
}

impl Clone for Prompt {
    fn clone(&self) -> (r: Self)
        ensures
            r@ == self@,
    {
        Prompt {
            system: self.system.clone(),
            user: self.user.clone(),
            max_tokens: self.max_tokens,
            temperature: self.temperature.clone(),
            reasoning_effort: duplicate_option(&self.reasoning_effort),
        }
    }
}

/// Anything that can answer a free-text [`Prompt`].
pub trait Complete {
    /// Answers a prompt.
    fn complete(&mut self, prompt: &Prompt) -> Result<String, Error>;
}

/// The members of one chat message.
pub open spec fn message_members(role: Seq<char>, content: Seq<char>) -> Seq<
    (Seq<char>, JsonTree),
> {
    seq![("role"@, JsonTree::String(role)), ("content"@, JsonTree::String(content))]
}

/// The messages of a chat request: the instructions, then the user's.
pub open spec fn chat_messages(prompt: PromptView) -> JsonTree {
    JsonTree::Array(
        seq![
            JsonTree::Object(message_members("system"@, prompt.system)),
            JsonTree::Object(message_members("user"@, prompt.user)),
        ],
    )
}

/// The members of a chat request. It is always streamed, so that bytes flow
/// the whole time of a long answer.
pub open spec fn chat_members(model: Seq<char>, prompt: PromptView) -> Seq<(Seq<char>, JsonTree)> {
    let head = seq![
        ("model"@, JsonTree::String(model)),
        ("messages"@, chat_messages(prompt)),
        ("max_tokens"@, JsonTree::Number(NumberKind::PosInt(prompt.max_tokens as u64))),
        ("temperature"@, real_tree(prompt.temperature)),
    ];
    let reasoning = match prompt.reasoning_effort {
        Some(effort) => seq![
            ("reasoning"@, JsonTree::Object(seq![("effort"@, JsonTree::String(effort))])),
        ],
        None => Seq::empty(),
    };
    head + reasoning + seq![("stream"@, JsonTree::Bool(true))]
}

/// One chat message.
pub(crate) fn message(role: &str, content: &str) -> (r: Json)
    ensures
        r@ == JsonTree::Object(message_members(role@, content@)),
{
    broadcast use Json::lemma_tree;

    proof {
        reveal_strlit("role");
        reveal_strlit("content");
        assert("role"@.len() == 4 && "content"@.len() == 7);
    }
    let mut out = Object::new();
    out.put_new("role", Json::text(role));
    out.put_new("content", Json::text(content));
    assert(out@ =~= message_members(role@, content@));
    Json::Object(out)
}

proof fn lemma_chat_keys()
    ensures
        "model"@.len() == 5,
        "messages"@.len() == 8,
        "max_tokens"@.len() == 10,
        "temperature"@.len() == 11,
        "reasoning"@.len() == 9,
        "stream"@.len() == 6,
{
    reveal_strlit("model");
    reveal_strlit("messages");
    reveal_strlit("max_tokens");
    reveal_strlit("temperature");
    reveal_strlit("reasoning");
    reveal_strlit("stream");
}

impl HttpClient {
    /// The body of a completion call.
    pub fn chat_body(&self, prompt: &Prompt) -> (r: Json)
        ensures
            r@ == JsonTree::Object(chat_members(self@.model, prompt@)),
    {
        broadcast use Json::lemma_tree;

        proof {
            lemma_chat_keys();
        }
        let mut messages: Vec<Json> = Vec::new();
        messages.push(message("system", prompt.system.as_str()));
        messages.push(message("user", prompt.user.as_str()));
        assert(trees(messages@) =~= chat_messages(prompt@)->Array_0);
        let mut out = Object::new();
        out.put_new("model", Json::text(self.model()));
        out.put_new("messages", Json::Array(messages));
        out.put_new("max_tokens", Json::unsigned(prompt.max_tokens as u64));
        out.put_new("temperature", Json::of_real(&prompt.temperature));
        if let Some(effort) = &prompt.reasoning_effort {
            let mut reasoning = Object::new();
            reasoning.put_new("effort", Json::text(effort.as_str()));
            out.put_new("reasoning", Json::Object(reasoning));
        }
        out.put_new("stream", Json::Bool(true));
        assert(out@ =~= chat_members(self@.model, prompt@));
        Json::Object(out)
    }
}

/// What one line of an event stream says.
pub enum LineView {
    /// Nothing to the answer: a comment, a blank event or one without
    /// content.
    Skip,
    /// The stream is complete.
    Done,
    /// A piece of the answer.
    Piece(Seq<char>),
    /// The call failed.
    Fail(ErrorView),
}

/// The content of an event: `choices[0].delta.content`, where it is a string.
pub open spec fn event_content(event: JsonTree) -> Option<Seq<char>> {
    match member(event, "choices"@) {
        Some(choices) => match first_item(choices) {
            Some(choice) => match member(choice, "delta"@) {
                Some(delta) => match member(delta, "content"@) {
                    Some(content) => string_of(content),
                    None => None,
                },
                None => None,
            },
            None => None,
        },
        None => None,
    }
}

/// The status of an error event: the low sixteen bits of its code, or 500.
pub open spec fn event_status(error: JsonTree) -> u16 {
    let code = match member(error, "code"@) {
        Some(code) => unsigned_of(code).unwrap_or(500),
        None => 500,
    };
    (code % 65536) as u16
}

/// The message of an error event.
pub open spec fn event_message(error: JsonTree) -> Seq<char> {
    match member(error, "message"@) {
        Some(message) => string_of(message).unwrap_or("error event in the stream"@),
        None => "error event in the stream"@,
    }
}

/// What the data of an event says.
pub open spec fn data_meaning(data: Seq<char>) -> LineView {
    if data == "[DONE]"@ {
        LineView::Done
    } else if data.len() == 0 {
        LineView::Skip
    } else {
        match json_read(data) {
            Err(source) => LineView::Fail(ErrorView::Decode { source, body: truncated(data) }),
            Ok(event) => match member(event, "error"@) {
                Some(error) => LineView::Fail(
                    ErrorView::Status {
                        status: event_status(error),
                        message: event_message(error),
                    },
                ),
                None => match event_content(event) {
                    Some(content) => LineView::Piece(content),
                    None => LineView::Skip,
                },
            },
        }
    }
}

/// What a line of an event stream says: only a line that starts with `data:`
/// says anything.
pub open spec fn line_meaning(line: Seq<char>) -> LineView {
    match after_prefix(line, "data:"@) {
        Some(rest) => data_meaning(trim_text(rest)),
        None => LineView::Skip,
    }
}

/// The answer of a stream that ended, by the content that arrived.
pub open spec fn finished(content: Seq<char>) -> Result<Seq<char>, ErrorView> {
    if trim_text(content).len() == 0 {
        Err(ErrorView::EmptyCompletion)
    } else {
        Ok(trim_text(content))
    }
}

/// The answer of an event stream, by the content so far and the lines that
/// are left. A line that could not be read breaks the stream.
pub open spec fn stream_answer(
    content: Seq<char>,
    lines: Seq<Result<Seq<char>, Seq<char>>>,
) -> Result<Seq<char>, ErrorView>
    decreases lines.len(),
{
    if lines.len() == 0 {
        finished(content)
    } else {
        match lines[0] {
            Err(message) => Err(ErrorView::Transport(message)),
            Ok(line) => match line_meaning(line) {
                LineView::Skip => stream_answer(content, lines.drop_first()),
                LineView::Done => finished(content),
                LineView::Piece(piece) => stream_answer(content + piece, lines.drop_first()),
                LineView::Fail(e) => Err(e),
            },
        }
    }
}

/// The views of the lines of a stream.
pub open spec fn line_views(lines: Seq<Result<String, String>>) -> Seq<
    Result<Seq<char>, Seq<char>>,
> {
    lines.map_values(|l: Result<String, String>| result_view(l))
}

/// The answer of an event stream, as it arrives.
#[derive(Debug)]
pub struct Collector {
    answer: String,
}

impl View for Collector {
    type V = Seq<char>;

    closed spec fn view(&self) -> Seq<char> {
        self.answer@
    }
}

fn content_of(event: &Json) -> (r: Option<&str>)
    ensures
        r is Some == (event_content(event@) is Some),
        r matches Some(s) ==> event_content(event@) == Some(s@),
{
    match event.get("choices") {
        Some(choices) => match choices.first() {
            Some(choice) => match choice.get("delta") {
                Some(delta) => match delta.get("content") {
                    Some(content) => content.as_str(),
                    None => None,
                },
                None => None,
            },
            None => None,
        },
        None => None,
    }
}

fn error_event(error: &Json) -> (r: Error)
    ensures
        r@ == (ErrorView::Status { status: event_status(error@), message: event_message(error@) }),
{
    let code: u64 = match error.get("code") {
        Some(code) => match code.as_unsigned() {
            Some(n) => n,
            None => 500,
        },
        None => 500,
    };
    let message = match error.get("message") {
        Some(message) => match message.as_str() {
            Some(words) => words,
            None => "error event in the stream",
        },
        None => "error event in the stream",
    };
    Error::Status { status: (code % 65536) as u16, message: message.to_owned() }
}

impl Collector {
    /// A collector that no line has reached yet.
    pub fn new() -> (r: Self)
        ensures
            r@ == Seq::<char>::empty(),
    {
        let r = Collector { answer: String::new() };
        r
    }

    /// Takes one line. Says whether more lines are wanted; an error event or
    /// one that is not JSON fails the call.
    pub fn line(&mut self, line: &str) -> (r: Result<bool, Error>)
        ensures
            match line_meaning(line@) {
                LineView::Skip => r == Ok::<bool, Error>(true) && final(self)@ == old(self)@,
                LineView::Done => r == Ok::<bool, Error>(false) && final(self)@ == old(self)@,
                LineView::Piece(piece) => r == Ok::<bool, Error>(true) && final(self)@ == old(
                    self,
                )@ + piece,
                LineView::Fail(e) => r is Err && r->Err_0@ == e && final(self)@ == old(self)@,
            },
    {
        let rest = match text::strip_prefix(line, "data:") {
            Some(rest) => rest,
            None => {
                return Ok(true);
            },
        };
        let data = text::trim(rest.as_str());
        if text::same(data.as_str(), "[DONE]") {
            return Ok(false);
        }
        if data.as_str().is_empty() {
            return Ok(true);
        }
        let event = match json::parse(data.as_str()) {
            Ok(event) => event,
            Err(source) => {
                return Err(Error::Decode { source, body: error::truncate(data.as_str()) });
            },
        };
        if let Some(error) = event.get("error") {
            return Err(error_event(error));
        }
        if let Some(piece) = content_of(&event) {
            self.answer.append(piece);
        }
        Ok(true)
    }

    /// The answer, once the stream has ended: what arrived, trimmed.
    pub fn finish(&self) -> (r: Result<String, Error>)
        ensures
            result_view(r) == finished(self@),
    {
        let answer = text::trim(self.answer.as_str());
        if answer.as_str().is_empty() {
            Err(Error::EmptyCompletion)
        } else {
            Ok(answer)
        }
    }
}

/// The answer text of an event stream: the content of every `data:` event, in
/// order, until `data: [DONE]` or the end. Comments and events without content
/// are skipped; an `error` event fails the call.
pub fn collect_stream(lines: &Vec<Result<String, String>>) -> (r: Result<String, Error>)
    ensures
        result_view(r) == stream_answer(Seq::empty(), line_views(lines@)),
{
    let ghost all = line_views(lines@);
    let mut collector = Collector::new();
    let mut i: usize = 0;
    assert(all.skip(0) =~= all);
    while i < lines.len()
        invariant
            i <= lines@.len(),
            all == line_views(lines@),
            stream_answer(Seq::empty(), all) == stream_answer(collector@, all.skip(i as int)),
        decreases lines@.len() - i,
    {
        proof {
            assert(all.skip(i as int).drop_first() =~= all.skip(i + 1));
        }
        match &lines[i] {
            Ok(line) => match collector.line(line.as_str()) {
                Ok(true) => {},
                Ok(false) => {
                    return collector.finish();
                },
                Err(e) => {
                    return Err(e);
                },
            },
            Err(message) => {
                return Err(Error::Transport(message.clone()));
            },
        }
        i += 1;
    }
    collector.finish()
}

/// The pieces of a stream's content, one after the other.
pub open spec fn pieces(lines: Seq<Result<Seq<char>, Seq<char>>>) -> Seq<char>
    decreases lines.len(),
{
    if lines.len() == 0 {
        Seq::empty()
    } else {
        let first = match lines[0] {
            Ok(line) => match line_meaning(line) {
                LineView::Piece(piece) => piece,
                _ => Seq::empty(),
            },
            Err(_) => Seq::empty(),
        };
        first + pieces(lines.drop_first())
    }
}

/// Whether a line neither fails nor ends the stream.
pub open spec fn goes_on(line: Result<Seq<char>, Seq<char>>) -> bool {
    line is Ok && (line_meaning(line->Ok_0) is Skip || line_meaning(line->Ok_0) is Piece)
}

/// The answer of a stream whose lines all go on is its content deltas in
/// order, trimmed.
pub proof fn law_answer_is_the_content_in_order(
    content: Seq<char>,
    lines: Seq<Result<Seq<char>, Seq<char>>>,
)
    requires
        forall|i: int| 0 <= i < lines.len() ==> goes_on(#[trigger] lines[i]),
    ensures
        stream_answer(content, lines) == finished(content + pieces(lines)),
    decreases lines.len(),
{
    if lines.len() > 0 {
        let rest = lines.drop_first();
        match line_meaning(lines[0]->Ok_0) {
            LineView::Piece(piece) => {
                law_answer_is_the_content_in_order(content + piece, rest);
                assert(content + piece + pieces(rest) =~= content + (piece + pieces(rest)));
            },
            _ => {
                law_answer_is_the_content_in_order(content, rest);
            },
        }
    }
}

/// Nothing after `data: [DONE]` is read.
pub proof fn law_nothing_after_done_counts(
    content: Seq<char>,
    lines: Seq<Result<Seq<char>, Seq<char>>>,
    done: int,
)
    requires
        0 <= done < lines.len(),
        lines[done] is Ok,
        line_meaning(lines[done]->Ok_0) is Done,
    ensures
        stream_answer(content, lines) == stream_answer(content, lines.take(done + 1)),
    decreases lines.len(),
{
    let head = lines.take(done + 1);
    if done > 0 {
        let rest = lines.drop_first();
        assert(rest.take(done) =~= head.drop_first());
        if goes_on(lines[0]) {
            match line_meaning(lines[0]->Ok_0) {
                LineView::Piece(piece) => {
                    law_nothing_after_done_counts(content + piece, rest, done - 1);
                },
                _ => {
                    law_nothing_after_done_counts(content, rest, done - 1);
                },
            }
        }
    }
}

/// Answers prompts from a queue of canned strings, in order.
#[derive(Debug)]
pub struct ScriptedComplete {
    responses: VecDeque<String>,
}

impl View for ScriptedComplete {
    type V = Seq<Seq<char>>;

    closed spec fn view(&self) -> Seq<Seq<char>> {
        strings(self.responses@)
    }
}

impl ScriptedComplete {
    /// Queues responses, answered in order.
    pub fn new(responses: Vec<String>) -> (r: Self)
        ensures
            r@ == strings(responses@),
    {
        let ghost start = responses@;
        let mut queue: VecDeque<String> = VecDeque::new();
        for response in it: responses
            invariant
                it.seq() == start,
                queue@ == start.take(it.index() as int),
        {
            queue.push_back(response);
        }
        ScriptedComplete { responses: queue }
    }
}

impl Default for ScriptedComplete {
    fn default() -> (r: Self)
        ensures
            r@ == Seq::<Seq<char>>::empty(),
    {
        let r = ScriptedComplete { responses: VecDeque::new() };
        r
    }
}

/// One call of a scripted completer: the next response, if there is one, is
/// taken and answers.
pub open spec fn scripted_completion(
    before: Seq<Seq<char>>,
    result: Result<Seq<char>, ErrorView>,
    after: Seq<Seq<char>>,
) -> bool {
    if before.len() == 0 {
        &&& after == before
        &&& result == Err::<Seq<char>, ErrorView>(
            ErrorView::Transport("ScriptedComplete ran out of responses"@),
        )
    } else {
        &&& after == before.drop_first()
        &&& result == Ok::<Seq<char>, ErrorView>(before[0])
    }
}

impl Complete for ScriptedComplete {
    fn complete(&mut self, _prompt: &Prompt) -> (r: Result<String, Error>)
        ensures
            scripted_completion(old(self)@, result_view(r), final(self)@),
    {
        let ghost before = self@;
        match self.responses.pop_front() {
            Some(response) => {
                assert(self@ =~= before.drop_first());
                Ok(response)
            },
            None => Err(Error::Transport("ScriptedComplete ran out of responses".to_owned())),
        }
    }
}

/// A completion call sends the model, the instructions and the user's message
/// in this order, the token limit and the temperature, the reasoning effort
/// where one is set, and asks for a stream.
pub proof fn law_chat_body_holds_the_prompt(model: Seq<char>, prompt: PromptView)
    ensures
        ({
            let members = chat_members(model, prompt);
            let thinking = if prompt.reasoning_effort is Some {
                1int
            } else {
                0
            };
            &&& members.len() == 5 + thinking
            &&& members[0] == ("model"@, JsonTree::String(model))
            &&& members[1].0 == "messages"@
            &&& members[1].1 matches JsonTree::Array(messages) && {
                &&& messages.len() == 2
                &&& messages[0] matches JsonTree::Object(system) && {
                    &&& system.len() == 2
                    &&& system[0] == ("role"@, JsonTree::String("system"@))
                    &&& system[1] == ("content"@, JsonTree::String(prompt.system))
                }
                &&& messages[1] matches JsonTree::Object(user) && {
                    &&& user.len() == 2
                    &&& user[0] == ("role"@, JsonTree::String("user"@))
                    &&& user[1] == ("content"@, JsonTree::String(prompt.user))
                }
            }
            &&& members[2] == (
                "max_tokens"@,
                JsonTree::Number(NumberKind::PosInt(prompt.max_tokens as u64)),
            )
            &&& members[3] == ("temperature"@, real_tree(prompt.temperature))
            &&& prompt.reasoning_effort matches Some(effort) ==> {
                &&& members[4].0 == "reasoning"@
                &&& members[4].1 matches JsonTree::Object(reasoning) && {
                    &&& reasoning.len() == 1
                    &&& reasoning[0] == ("effort"@, JsonTree::String(effort))
                }
            }
            &&& members[4 + thinking] == ("stream"@, JsonTree::Bool(true))
        }),
        CHAT_PATH@ == "/v1/chat/completions"@,
        json_read("0.20000000298023224"@) matches Ok(JsonTree::Number(kind)) ==> default_temperature()
            == real_bits(kind),
{
}

/// Only a line that starts with `data:` says anything, and it says what stands
/// behind that, trimmed: nothing, the end of the stream, or an event.
pub proof fn law_only_data_lines_count(line: Seq<char>, rest: Seq<char>)
    ensures
        (forall|r: Seq<char>| line != "data:"@ + r) ==> line_meaning(line) is Skip,
        trim_text(rest).len() == 0 ==> line_meaning("data:"@ + rest) is Skip,
        trim_text(rest) == "[DONE]"@ ==> line_meaning("data:"@ + rest) is Done,
        trim_text(rest).len() > 0 && trim_text(rest) != "[DONE]"@ ==> (json_read(
            trim_text(rest),
        ) matches Err(source) ==> line_meaning("data:"@ + rest) == LineView::Fail(
            ErrorView::Decode { source, body: truncated(trim_text(rest)) },
        )),
{
    reveal_strlit("[DONE]");
    law_prefix_and_rest_are_the_text("data:"@ + rest, "data:"@, rest);
    if forall|r: Seq<char>| line != "data:"@ + r {
        if let Some(r) = after_prefix(line, "data:"@) {
            law_prefix_and_rest_are_the_text(line, "data:"@, r);
        }
    }
    assert("[DONE]"@.len() == 6);
}

/// An event adds to the answer the string at `choices[0].delta.content`, and
/// nothing where there is none; one with an `error` fails the call with its code
/// as the status, 500 where it has none, and with its message.
pub proof fn law_event_is_a_piece_or_an_error(
    rest: Seq<char>,
    event: Seq<(Seq<char>, JsonTree)>,
    choices: Seq<JsonTree>,
    choice: Seq<(Seq<char>, JsonTree)>,
    delta: Seq<(Seq<char>, JsonTree)>,
    error: Seq<(Seq<char>, JsonTree)>,
)
    requires
        trim_text(rest).len() > 0,
        trim_text(rest) != "[DONE]"@,
        json_read(trim_text(rest)) == Ok::<JsonTree, Seq<char>>(JsonTree::Object(event)),
    ensures
        ({
            let meaning = line_meaning("data:"@ + rest);
            &&& lookup(event, "error"@) is None && lookup(event, "choices"@) is None
                ==> meaning is Skip
            &&& lookup(event, "error"@) is None && lookup(event, "choices"@) == Some(
                JsonTree::Array(choices),
            ) && choices.len() > 0 && choices[0] == JsonTree::Object(choice) && lookup(
                choice,
                "delta"@,
            ) == Some(JsonTree::Object(delta)) ==> match lookup(delta, "content"@) {
                Some(JsonTree::String(piece)) => meaning == LineView::Piece(piece),
                _ => meaning is Skip,
            }
            &&& lookup(event, "error"@) == Some(JsonTree::Object(error)) ==> {
                &&& meaning matches LineView::Fail(ErrorView::Status { status, message })
                &&& lookup(error, "code"@) matches Some(
                    JsonTree::Number(NumberKind::PosInt(code)),
                ) ==> status == code % 65536
                &&& lookup(error, "code"@) is None ==> status == 500
                &&& lookup(error, "message"@) matches Some(JsonTree::String(words)) ==> message
                    == words
                &&& lookup(error, "message"@) is None ==> message == "error event in the stream"@
            }
        }),
{
    law_prefix_and_rest_are_the_text("data:"@ + rest, "data:"@, rest);
}

/// The pieces of a stream, put together in order and trimmed, are its answer,
/// up to the first line that ends it: the end of the lines or of the stream
/// makes the answer, a line that could not be read or that fails makes the
/// error.
pub proof fn law_stream_is_its_pieces(
    content: Seq<char>,
    lines: Seq<Result<Seq<char>, Seq<char>>>,
    texts: Seq<Seq<char>>,
)
    requires
        texts.len() <= lines.len(),
        forall|i: int|
            #![trigger lines[i]]
            0 <= i < texts.len() ==> lines[i] is Ok && (line_meaning(lines[i]->Ok_0)
                == LineView::Piece(texts[i]) || (line_meaning(lines[i]->Ok_0) is Skip
                && texts[i].len() == 0)),
    ensures
        texts.len() == lines.len() ==> stream_answer(content, lines) == finished(
            content + texts.flatten(),
        ),
        texts.len() < lines.len() ==> match lines[texts.len() as int] {
            Err(message) => stream_answer(content, lines) == Err::<Seq<char>, ErrorView>(
                ErrorView::Transport(message),
            ),
            Ok(line) => {
                &&& line_meaning(line) is Done ==> stream_answer(content, lines) == finished(
                    content + texts.flatten(),
                )
                &&& line_meaning(line) matches LineView::Fail(e) ==> stream_answer(content, lines)
                    == Err::<Seq<char>, ErrorView>(e)
            },
        },
    decreases texts.len(),
{
    if texts.len() == 0 {
        assert(content + texts.flatten() =~= content);
    } else {
        let rest = lines.drop_first();
        let more = texts.drop_first();
        assert forall|i: int|
            #![trigger rest[i]]
            0 <= i < more.len() implies rest[i] is Ok && (line_meaning(rest[i]->Ok_0)
            == LineView::Piece(more[i]) || (line_meaning(rest[i]->Ok_0) is Skip && more[i].len()
            == 0)) by {
            assert(rest[i] == lines[i + 1]);
        }
        assert(lines[0] is Ok);
        law_stream_is_its_pieces(content + texts[0], rest, more);
        assert(content + texts.flatten() =~= content + texts[0] + more.flatten());
        assert(content + texts[0] =~= content || line_meaning(lines[0]->Ok_0) is Piece);
    }
}

/// An answer is what arrived without the white space at its ends; where nothing
/// is left there is none.
pub proof fn law_finished_answer_is_trimmed(content: Seq<char>)
    ensures
        trim_text(content).len() > 0 ==> finished(content) == Ok::<Seq<char>, ErrorView>(
            trim_text(content),
        ),
        (forall|i: int| 0 <= i < content.len() ==> is_white_space(#[trigger] content[i]))
            ==> finished(content) == Err::<Seq<char>, ErrorView>(ErrorView::EmptyCompletion),
{
    law_blank_trims_to_nothing(content);
}

/// A scripted completer answers each call with the next of its responses, as it
/// stands, and says so where none is left.
pub proof fn law_responses_answer_in_order(
    before: Seq<Seq<char>>,
    result: Result<Seq<char>, ErrorView>,
    after: Seq<Seq<char>>,
)
    requires
        scripted_completion(before, result, after),
    ensures
        before.len() > 0 ==> result == Ok::<Seq<char>, ErrorView>(before[0]) && before == seq![
            before[0],
        ] + after,
        before.len() == 0 ==> after.len() == 0 && result == Err::<Seq<char>, ErrorView>(
            ErrorView::Transport("ScriptedComplete ran out of responses"@),
        ),
{
    if before.len() > 0 {
        assert(before =~= seq![before[0]] + after);
    }
}

} // verus!
