//! A client for a System One-compatible HTTPS endpoint: its configuration,
//! what it puts on the wire, when it tries again and how it reads the reply.
//!
//! Sending and sleeping are the caller's. It makes an attempt, says what came
//! of it, and does as [`Attempts::settle`] says.
use crate::client::{Decided, Outcome, OutcomeView, Request, RequestView};
use crate::duration::Duration;
use crate::error::{self, truncated, Error, ErrorView};
use crate::json::{self, json_read, Json, JsonTree, Object};
use crate::names::{option_view, result_view, NameMap};
use crate::question::{question_tree, Question, QuestionView};
use crate::response::{
    decode_response, error_message, extract_error_message, read_reply, reply_tree, response_outcome,
};
use crate::text::{self, is_blank_text, is_white_space, trim_end_char, unsigned_value};
use vstd::arithmetic::power2::{lemma2_to64_rest, lemma_pow2_unfold, pow2};
use vstd::prelude::*;

verus! {

broadcast use vstd::string::group_string_axioms;

/// Default base URL: a gateway that routes to every model of this kind.
pub const DEFAULT_BASE_URL: &'static str = "https://ai.fpl.dev";

/// The decision route, appended to the base URL.
pub const DECIDE_PATH: &'static str = "/v1/systemone";

/// Default model alias: the gateway's own routing alias.
pub const DEFAULT_MODEL: &'static str = "fpl/decide";

/// Response header naming the backend model that actually answered.
pub const RESOLVED_MODEL_HEADER: &'static str = "x-fpl-resolved-model";

/// Environment variable holding the bearer token.
pub const API_KEY_ENV: &'static str = "OODA_API_KEY";

/// Environment variable overriding [`DEFAULT_BASE_URL`].
pub const BASE_URL_ENV: &'static str = "OODA_BASE_URL";

/// Environment variable overriding [`DEFAULT_MODEL`].
pub const MODEL_ENV: &'static str = "OODA_MODEL";

/// Attempts beyond this many give up rather than retry forever.
pub const MAX_ATTEMPTS: u32 = 5;

/// How long a single attempt may take before it is abandoned, in seconds.
pub const DEFAULT_TIMEOUT_SECS: u64 = 30;

/// The seconds to wait after an attempt when the endpoint does not say how
/// long: two to the power of the attempt, as far as that goes.
pub open spec fn backoff(attempt: u32) -> u64 {
    if attempt < 64 {
        pow2(attempt as nat) as u64
    } else {
        u64::MAX
    }
}

proof fn lemma_pow2_fits(n: nat)
    requires
        n < 64,
    ensures
        0 < pow2(n) <= 0x8000_0000_0000_0000,
{
    lemma2_to64_rest();
    if n < 63 {
        vstd::arithmetic::power2::lemma_pow2_strictly_increases(n, 63);
    }
    vstd::arithmetic::power2::lemma_pow2_pos(n);
}

/// Backoff when the endpoint doesn't say how long to wait: doubles each
/// attempt, starting at 2s.
pub fn backoff_secs(attempt: u32) -> (r: u64)
    ensures
        r == backoff(attempt),
{
    if attempt >= 64 {
        return u64::MAX;
    }
    let mut r: u64 = 1;
    let mut i: u32 = 0;
    proof {
        vstd::arithmetic::power2::lemma2_to64();
    }
    while i < attempt
        invariant
            i <= attempt < 64,
            r == pow2(i as nat),
        decreases attempt - i,
    {
        proof {
            lemma_pow2_unfold((i + 1) as nat);
            lemma_pow2_fits((i + 1) as nat);
        }
        r = r * 2;
        i += 1;
    }
    r
}

/// The wait starts at two seconds and doubles with each attempt, until it is
/// the longest there is.
pub proof fn law_backoff_doubles(attempt: u32)
    requires
        attempt < u32::MAX,
    ensures
        backoff(1) == 2,
        attempt < 63 ==> backoff((attempt + 1) as u32) == 2 * backoff(attempt),
        attempt >= 63 ==> backoff((attempt + 1) as u32) == u64::MAX,
{
    vstd::arithmetic::power2::lemma2_to64();
    if attempt < 63 {
        lemma_pow2_unfold((attempt + 1) as nat);
        lemma_pow2_fits((attempt + 1) as nat);
    }
}

/// A setting that is present and not blank.
pub open spec fn set_value(value: Option<Seq<char>>) -> Option<Seq<char>> {
    match value {
        Some(v) => if is_blank_text(v) {
            None
        } else {
            Some(v)
        },
        None => None,
    }
}

/// Treats a present-but-blank setting the same as one that is not set.
pub fn non_empty(value: Option<String>) -> (r: Option<String>)
    ensures
        option_view(r) == set_value(option_view(value)),
{
    match value {
        Some(v) => if text::is_blank(v.as_str()) {
            None
        } else {
            Some(v)
        },
        None => None,
    }
}

/// A System One-compatible client, as it is configured.
#[derive(Debug)]
pub struct HttpClient {
    base_url: String,
    api_key: String,
    model: String,
    max_attempts: u32,
    timeout: Duration,
}

/// An [`HttpClient`], with plain values for its parts.
pub struct HttpClientView {
    /// Where every route starts; it does not end in a slash.
    pub base_url: Seq<char>,
    /// The bearer token; it is not blank.
    pub api_key: Seq<char>,
    /// The model asked for.
    pub model: Seq<char>,
    /// How many attempts are made at most; there is always one.
    pub max_attempts: u32,
    /// How long one attempt may take, in nanoseconds.
    pub timeout: nat,
}

impl View for HttpClient {
    type V = HttpClientView;

    closed spec fn view(&self) -> HttpClientView {
        HttpClientView {
            base_url: self.base_url@,
            api_key: self.api_key@,
            model: self.model@,
            max_attempts: self.max_attempts,
            timeout: self.timeout@,
        }
    }
}

/// What holds of every client: it has a credential, its base URL does not end
/// in a slash, and it makes at least one attempt.
pub open spec fn client_is_sound(client: HttpClientView) -> bool {
    &&& !is_blank_text(client.api_key)
    &&& (client.base_url.len() > 0 ==> client.base_url.last() != '/')
    &&& client.max_attempts >= 1
}

/// The client with these settings.
pub open spec fn client_with(
    base_url: Seq<char>,
    api_key: Seq<char>,
    model: Seq<char>,
) -> HttpClientView {
    HttpClientView {
        base_url: trim_end_char(base_url, '/'),
        api_key,
        model,
        max_attempts: MAX_ATTEMPTS,
        timeout: (DEFAULT_TIMEOUT_SECS * 1_000_000_000) as nat,
    }
}

/// The client that these settings give, where the credential is not blank.
pub open spec fn client_from(
    base_url: Seq<char>,
    api_key: Seq<char>,
    model: Seq<char>,
) -> Result<HttpClientView, ErrorView> {
    if is_blank_text(api_key) {
        Err(ErrorView::MissingApiKey(API_KEY_ENV@))
    } else {
        Ok(client_with(base_url, api_key, model))
    }
}

proof fn lemma_trimmed_end(s: Seq<char>, c: char)
    ensures
        trim_end_char(s, c).len() > 0 ==> trim_end_char(s, c).last() != c,
    decreases s.len(),
{
    if s.len() > 0 && s.last() == c {
        lemma_trimmed_end(s.drop_last(), c);
    }
}

impl HttpClient {
    #[verifier::type_invariant]
    spec fn sound(&self) -> bool {
        client_is_sound(self@)
    }

    /// A client against an explicit base URL, bearer token and model; an
    /// error where the token is blank.
    pub fn new(base_url: &str, api_key: &str, model: &str) -> (r: Result<Self, Error>)
        ensures
            result_view(r) == client_from(base_url@, api_key@, model@),
    {
        if text::is_blank(api_key) {
            return Err(Error::MissingApiKey(API_KEY_ENV));
        }
        proof {
            lemma_trimmed_end(base_url@, '/');
        }
        Ok(
            HttpClient {
                base_url: text::trim_end_matches(base_url, '/'),
                api_key: api_key.to_owned(),
                model: model.to_owned(),
                max_attempts: MAX_ATTEMPTS,
                timeout: Duration::from_secs(DEFAULT_TIMEOUT_SECS),
            },
        )
    }

    /// A client from the values of [`API_KEY_ENV`], [`BASE_URL_ENV`] and
    /// [`MODEL_ENV`], as far as they are set. A base URL or a model that is
    /// blank counts as not set, and the default takes its place.
    pub fn from_settings(
        api_key: Option<String>,
        base_url: Option<String>,
        model: Option<String>,
    ) -> (r: Result<Self, Error>)
        ensures
            result_view(r) == match api_key {
                Some(key) => client_from(
                    set_value(option_view(base_url)).unwrap_or(DEFAULT_BASE_URL@),
                    key@,
                    set_value(option_view(model)).unwrap_or(DEFAULT_MODEL@),
                ),
                None => Err(ErrorView::MissingApiKey(API_KEY_ENV@)),
            },
    {
        let key = match api_key {
            Some(key) => key,
            None => {
                return Err(Error::MissingApiKey(API_KEY_ENV));
            },
        };
        let base = match non_empty(base_url) {
            Some(base) => base,
            None => DEFAULT_BASE_URL.to_owned(),
        };
        let model = match non_empty(model) {
            Some(model) => model,
            None => DEFAULT_MODEL.to_owned(),
        };
        HttpClient::new(base.as_str(), key.as_str(), model.as_str())
    }

    /// The client with another limit on the time of a single attempt.
    pub fn with_timeout(self, timeout: Duration) -> (r: Self)
        ensures
            r@ == (HttpClientView { timeout: timeout@, ..self@ }),
    {
        proof {
            use_type_invariant(&self);
        }
        let mut client = self;
        client.timeout = timeout;
        client
    }

    /// The client with another model.
    pub fn with_model(self, model: &str) -> (r: Self)
        ensures
            r@ == (HttpClientView { model: model@, ..self@ }),
    {
        proof {
            use_type_invariant(&self);
        }
        let mut client = self;
        client.model = model.to_owned();
        client
    }

    /// The client with another limit on the number of attempts. `1` disables
    /// retrying; `0` is raised to `1`, since a client that makes no attempt
    /// would report a failure it never tried.
    pub fn with_max_attempts(self, max_attempts: u32) -> (r: Self)
        ensures
            r@ == (HttpClientView {
                max_attempts: if max_attempts < 1 {
                    1
                } else {
                    max_attempts
                },
                ..self@
            }),
    {
        proof {
            use_type_invariant(&self);
        }
        let mut client = self;
        client.max_attempts = if max_attempts < 1 {
            1
        } else {
            max_attempts
        };
        client
    }

    /// The URL this client posts to for a decision.
    pub fn endpoint(&self) -> (r: String)
        ensures
            r@ == self@.base_url + DECIDE_PATH@,
    {
        self.url(DECIDE_PATH)
    }

    /// `path`, resolved against this client's base URL.
    pub fn url(&self, path: &str) -> (r: String)
        ensures
            r@ == self@.base_url + path@,
    {
        text::join2(self.base_url.as_str(), path)
    }

    /// The base URL; it does not end in a slash.
    pub fn base_url(&self) -> (r: &str)
        ensures
            r@ == self@.base_url,
            client_is_sound(self@),
    {
        proof {
            use_type_invariant(self);
        }
        self.base_url.as_str()
    }

    /// The bearer token.
    pub fn api_key(&self) -> (r: &str)
        ensures
            r@ == self@.api_key,
    {
        self.api_key.as_str()
    }

    /// The model this client asks for.
    pub fn model(&self) -> (r: &str)
        ensures
            r@ == self@.model,
    {
        self.model.as_str()
    }

    /// How many attempts are made at most.
    pub fn max_attempts(&self) -> (r: u32)
        ensures
            r == self@.max_attempts,
    {
        self.max_attempts
    }

    /// How long a single attempt may take.
    pub fn timeout(&self) -> (r: Duration)
        ensures
            r@ == self@.timeout,
    {
        self.timeout
    }

    /// The attempts of one call, none of them made yet.
    pub fn attempts(&self) -> (r: Attempts)
        ensures
            r.max_attempts == self@.max_attempts,
            r.made == 0,
            r.max_attempts >= 1,
    {
        proof {
            use_type_invariant(self);
        }
        Attempts { max_attempts: self.max_attempts, made: 0 }
    }
}

/// The URL of a decision call has exactly one slash where the route starts.
pub proof fn law_endpoint_has_no_double_slash(client: HttpClientView)
    requires
        client_is_sound(client),
    ensures
        ({
            let url = client.base_url + DECIDE_PATH@;
            let at = client.base_url.len() as int;
            &&& url[at] == '/'
            &&& url[at + 1] != '/'
            &&& at > 0 ==> url[at - 1] != '/'
        }),
{
    reveal_strlit("/v1/systemone");
}

/// What came of one attempt.
#[derive(Debug)]
pub enum Event {
    /// The request never completed; the words of the failure.
    Unsent(String),
    /// The endpoint answered.
    Answered {
        /// HTTP status code.
        status: u16,
        /// The value of the `Retry-After` header, where it is text.
        retry_after: Option<String>,
        /// The text of the body, or why it could not be read. The body of a
        /// success is not read here: a success is accepted whatever stands
        /// here.
        body: Result<String, String>,
    },
}

/// An [`Event`], with texts as sequences of characters.
pub enum EventView {
    /// See [`Event::Unsent`].
    Unsent(Seq<char>),
    /// See [`Event::Answered`].
    Answered {
        /// HTTP status code.
        status: u16,
        /// The value of the `Retry-After` header.
        retry_after: Option<Seq<char>>,
        /// The text of the body.
        body: Result<Seq<char>, Seq<char>>,
    },
}

impl View for Event {
    type V = EventView;

    open spec fn view(&self) -> EventView {
        match self {
            Event::Unsent(message) => EventView::Unsent(message@),
            Event::Answered { status, retry_after, body } => EventView::Answered {
                status: *status,
                retry_after: option_view(*retry_after),
                body: result_view(*body),
            },
        }
    }
}

/// What to do after an attempt.
#[derive(Debug)]
pub enum Step {
    /// Take the response; this many attempts came before it.
    Accept {
        /// Attempts before the accepted one.
        retries: u32,
    },
    /// Wait, then make another attempt.
    Wait {
        /// Seconds to wait.
        secs: u64,
    },
    /// Give up.
    Fail(Error),
}

/// A [`Step`], with plain values for its parts.
pub enum StepView {
    /// See [`Step::Accept`].
    Accept {
        /// Attempts before the accepted one.
        retries: u32,
    },
    /// See [`Step::Wait`].
    Wait {
        /// Seconds to wait.
        secs: u64,
    },
    /// See [`Step::Fail`].
    Fail(ErrorView),
}

impl View for Step {
    type V = StepView;

    open spec fn view(&self) -> StepView {
        match self {
            Step::Accept { retries } => StepView::Accept { retries: *retries },
            Step::Wait { secs } => StepView::Wait { secs: *secs },
            Step::Fail(e) => StepView::Fail(e@),
        }
    }
}

/// Whether a status is a success.
pub open spec fn success(status: u16) -> bool {
    200 <= status < 300
}

/// Whether a status blames the server.
pub open spec fn server_error(status: u16) -> bool {
    500 <= status < 600
}

/// Whether a status is a success.
pub fn is_success(status: u16) -> (r: bool)
    ensures
        r == success(status),
{
    200 <= status && status < 300
}

/// What `Display` of `reqwest::StatusCode` prints for a status code: the code
/// and the words that go with it.
pub uninterp spec fn status_text(status: u16) -> Seq<char>;

/// The `Display` of `reqwest::StatusCode`, of the code that its `from_u16`
/// gives; it takes every code of three digits. The text is a function of the
/// code alone.
#[verifier::external_body]
fn status_line(status: u16) -> (r: String)
    requires
        100 <= status < 1000,
    ensures
        r@ == status_text(status),
{
    reqwest::StatusCode::from_u16(status).map(|s| s.to_string()).unwrap_or_default()
}

/// The message of a refusal: the endpoint's own words, or its body.
pub open spec fn refusal_message(body: Seq<char>) -> Seq<char> {
    match json_read(body) {
        Ok(tree) => error_message(tree).unwrap_or(truncated(body)),
        Err(_) => truncated(body),
    }
}

/// The seconds to wait after a 429: what the endpoint says, where that is a
/// number, else the backoff.
pub open spec fn rate_limit_wait(retry_after: Option<Seq<char>>, attempt: u32) -> u64 {
    match retry_after {
        Some(header) => unsigned_value(header).unwrap_or(backoff(attempt)),
        None => backoff(attempt),
    }
}

/// What to do after an attempt, by its number and what came of it.
///
/// A success is accepted. A body that cannot be read fails the call. A 429, a
/// server error or a failure to send is tried again while attempts are left.
/// Anything else is final.
pub open spec fn next_step(max_attempts: u32, attempt: u32, event: EventView) -> StepView {
    match event {
        EventView::Unsent(message) => if attempt >= max_attempts {
            StepView::Fail(ErrorView::Exhausted { attempts: attempt, message })
        } else {
            StepView::Wait { secs: backoff(attempt) }
        },
        EventView::Answered { status, retry_after, body } => if success(status) {
            StepView::Accept { retries: (attempt - 1) as u32 }
        } else {
            match body {
                Err(message) => StepView::Fail(ErrorView::Transport(message)),
                Ok(body) => if status == 429 {
                    if attempt >= max_attempts {
                        StepView::Fail(
                            ErrorView::Exhausted {
                                attempts: attempt,
                                message: "rate limited (429): "@ + truncated(body),
                            },
                        )
                    } else {
                        StepView::Wait { secs: rate_limit_wait(retry_after, attempt) }
                    }
                } else if server_error(status) {
                    if attempt >= max_attempts {
                        StepView::Fail(
                            ErrorView::Exhausted {
                                attempts: attempt,
                                message: "HTTP "@ + status_text(status) + (": "@ + truncated(body)),
                            },
                        )
                    } else {
                        StepView::Wait { secs: backoff(attempt) }
                    }
                } else {
                    StepView::Fail(ErrorView::Status { status, message: refusal_message(body) })
                },
            }
        },
    }
}

/// The attempts of one call.
#[derive(Clone, Copy, Debug)]
pub struct Attempts {
    /// How many are made at most.
    pub max_attempts: u32,
    /// How many were made.
    pub made: u32,
}

fn refusal_words(body: &str) -> (r: String)
    ensures
        r@ == refusal_message(body@),
{
    match json::parse(body) {
        Ok(value) => match extract_error_message(&value) {
            Some(words) => words,
            None => error::truncate(body),
        },
        Err(_) => error::truncate(body),
    }
}

impl Attempts {
    /// Whether another attempt is left.
    pub fn left(&self) -> (r: bool)
        ensures
            r == (self.made < self.max_attempts),
    {
        self.made < self.max_attempts
    }

    /// Counts an attempt and says what to do after it.
    pub fn settle(&mut self, event: &Event) -> (r: Step)
        requires
            old(self).made < old(self).max_attempts,
        ensures
            r@ == next_step(old(self).max_attempts, (old(self).made + 1) as u32, event@),
            final(self).made == old(self).made + 1,
            final(self).max_attempts == old(self).max_attempts,
            r@ is Wait ==> final(self).made < final(self).max_attempts,
    {
        self.made = self.made + 1;
        let attempt: u32 = self.made;
        match event {
            Event::Unsent(message) => if attempt >= self.max_attempts {
                Step::Fail(Error::Exhausted { attempts: attempt, message: message.clone() })
            } else {
                Step::Wait { secs: backoff_secs(attempt) }
            },
            Event::Answered { status, retry_after, body } => {
                if is_success(*status) {
                    return Step::Accept { retries: attempt - 1 };
                }
                let body = match body {
                    Ok(body) => body,
                    Err(message) => {
                        return Step::Fail(Error::Transport(message.clone()));
                    },
                };
                if *status == 429 {
                    if attempt >= self.max_attempts {
                        let message = text::join2(
                            "rate limited (429): ",
                            error::truncate(body.as_str()).as_str(),
                        );
                        return Step::Fail(Error::Exhausted { attempts: attempt, message });
                    }
                    let asked: Option<u64> = match retry_after {
                        Some(header) => text::parse_unsigned(header.as_str()),
                        None => None,
                    };
                    return Step::Wait {
                        secs: match asked {
                            Some(secs) => secs,
                            None => backoff_secs(attempt),
                        },
                    };
                }
                if 500 <= *status && *status < 600 {
                    if attempt >= self.max_attempts {
                        let message = text::join3(
                            "HTTP ",
                            status_line(*status).as_str(),
                            text::join2(": ", error::truncate(body.as_str()).as_str()).as_str(),
                        );
                        return Step::Fail(Error::Exhausted { attempts: attempt, message });
                    }
                    return Step::Wait { secs: backoff_secs(attempt) };
                }
                Step::Fail(
                    Error::Status { status: *status, message: refusal_words(body.as_str()) },
                )
            },
        }
    }
}

/// No call makes more attempts than its limit: after the last one it does not
/// wait for another.
pub proof fn law_attempts_are_bounded(max_attempts: u32, attempt: u32, event: EventView)
    requires
        attempt >= max_attempts,
    ensures
        !(next_step(max_attempts, attempt, event) is Wait),
{
}

/// Whatever comes of its attempts, a call ends within its limit: among that
/// many attempts there is one after which it does not wait for another.
pub proof fn law_a_call_ends_within_its_attempts(max_attempts: u32, events: Seq<EventView>)
    requires
        max_attempts >= 1,
        events.len() >= max_attempts,
    ensures
        exists|i: int|
            0 <= i < max_attempts && !(next_step(
                max_attempts,
                (i + 1) as u32,
                #[trigger] events[i],
            ) is Wait),
{
    let last = max_attempts - 1;
    law_attempts_are_bounded(max_attempts, max_attempts, events[last]);
}

/// Whether what came of an attempt is a transient failure: it was not sent, or
/// the endpoint was rate limiting or blamed itself.
pub open spec fn transient(event: EventView) -> bool {
    match event {
        EventView::Unsent(_) => true,
        EventView::Answered { status, body, .. } => (status == 429 || server_error(status))
            && body is Ok,
    }
}

/// The seconds to wait after a transient failure: what a rate limit says, else
/// the backoff of the attempt.
pub open spec fn transient_wait(event: EventView, attempt: u32) -> u64 {
    match event {
        EventView::Answered { status: 429, retry_after, .. } => rate_limit_wait(
            retry_after,
            attempt,
        ),
        _ => backoff(attempt),
    }
}

/// How a call went.
pub struct CallView {
    /// How many attempts were made.
    pub posts: int,
    /// The seconds waited after them, in order.
    pub waits: Seq<u64>,
    /// What the last one came to; `None` where the call still waits for
    /// another.
    pub end: Option<StepView>,
}

/// A call after some attempts, by what comes of the next ones: each is settled,
/// and another is made exactly after a wait.
pub open spec fn call_from(max_attempts: u32, made: int, events: Seq<EventView>) -> CallView
    decreases events.len(),
{
    if events.len() == 0 {
        CallView { posts: made, waits: Seq::empty(), end: None }
    } else {
        let step = next_step(max_attempts, (made + 1) as u32, events[0]);
        match step {
            StepView::Wait { secs } => {
                let rest = call_from(max_attempts, made + 1, events.drop_first());
                CallView { waits: seq![secs] + rest.waits, ..rest }
            },
            _ => CallView { posts: made + 1, waits: Seq::empty(), end: Some(step) },
        }
    }
}

/// Whether an attempt of a call came to a transient failure, after which the
/// call waited as long as it should.
pub open spec fn waited(call: CallView, events: Seq<EventView>, made: int, i: int) -> bool {
    &&& transient(events[i])
    &&& call.waits[i] == transient_wait(events[i], (made + i + 1) as u32)
}

proof fn lemma_call_from(max_attempts: u32, made: int, events: Seq<EventView>)
    requires
        0 <= made < max_attempts,
    ensures
        ({
            let call = call_from(max_attempts, made, events);
            let posts = call.posts - made;
            &&& 0 <= posts <= events.len()
            &&& call.posts <= max_attempts
            &&& call.end is None ==> posts == events.len() && call.posts < max_attempts
                && call.waits.len() == posts
            &&& call.end matches Some(end) ==> {
                &&& posts >= 1
                &&& call.waits.len() == posts - 1
                &&& !(end is Wait)
                &&& end == next_step(max_attempts, call.posts as u32, events[posts - 1])
            }
            &&& forall|i: int|
                0 <= i < call.waits.len() ==> #[trigger] waited(call, events, made, i)
        }),
    decreases events.len(),
{
    if events.len() > 0 {
        let step = next_step(max_attempts, (made + 1) as u32, events[0]);
        if let StepView::Wait { secs } = step {
            let tail = events.drop_first();
            let rest = call_from(max_attempts, made + 1, tail);
            let call = call_from(max_attempts, made, events);
            lemma_call_from(max_attempts, made + 1, tail);
            assert(call.waits == seq![secs] + rest.waits);
            if rest.end is Some {
                let posts = call.posts - made;
                assert(events[posts - 1] == tail[posts - 2]);
            }
            assert forall|i: int| 0 <= i < call.waits.len() implies #[trigger] waited(
                call,
                events,
                made,
                i,
            ) by {
                if i > 0 {
                    assert(waited(rest, tail, made + 1, i - 1));
                    assert(call.waits[i] == rest.waits[i - 1]);
                    assert(events[i] == tail[i - 1]);
                }
            }
        }
    }
}

/// A whole call, whatever comes of its attempts. It makes no more attempts than
/// its limit, and it ends within that many. Every attempt but the last came to
/// a transient failure, and after each of those it waited once, for as long as
/// the endpoint or the backoff says. A success reports all attempts but one as
/// retries.
pub proof fn law_a_whole_call(max_attempts: u32, events: Seq<EventView>)
    requires
        max_attempts >= 1,
    ensures
        ({
            let call = call_from(max_attempts, 0, events);
            &&& call.posts <= max_attempts
            &&& call.posts <= events.len()
            &&& events.len() >= max_attempts ==> call.end is Some
            &&& call.end is None ==> call.posts == events.len() == call.waits.len()
            &&& call.end is Some ==> call.waits.len() == call.posts - 1
            &&& call.end is Some ==> call.end == Some(
                next_step(max_attempts, call.posts as u32, events[call.posts - 1]),
            )
            &&& call.end matches Some(StepView::Accept { retries }) ==> retries == call.posts - 1
            &&& forall|i: int|
                0 <= i < call.waits.len() ==> #[trigger] waited(call, events, 0, i)
        }),
{
    lemma_call_from(max_attempts, 0, events);
}

/// A status that is neither a success, a 429 nor a server error is never
/// tried again, whatever the attempt: it fails the call with the status.
pub proof fn law_refusal_is_final(
    max_attempts: u32,
    attempt: u32,
    status: u16,
    retry_after: Option<Seq<char>>,
    body: Seq<char>,
)
    requires
        !success(status),
        !server_error(status),
        status != 429,
    ensures
        next_step(
            max_attempts,
            attempt,
            EventView::Answered { status, retry_after, body: Ok(body) },
        ) == StepView::Fail(ErrorView::Status { status, message: refusal_message(body) }),
{
}

/// A transient failure is tried again exactly while attempts are left, and is
/// then reported as exhausted with the number of attempts made.
pub proof fn law_transient_failure_is_retried_while_attempts_are_left(
    max_attempts: u32,
    attempt: u32,
    event: EventView,
)
    requires
        transient(event),
    ensures
        attempt < max_attempts ==> next_step(max_attempts, attempt, event) is Wait,
        attempt >= max_attempts ==> {
            &&& next_step(max_attempts, attempt, event) is Fail
            &&& next_step(max_attempts, attempt, event)->Fail_0 is Exhausted
            &&& next_step(max_attempts, attempt, event)->Fail_0->Exhausted_attempts == attempt
        },
{
}

/// A numeric `Retry-After` is honoured as it stands; without one the wait is
/// the backoff.
pub proof fn law_retry_after_is_honoured(
    max_attempts: u32,
    attempt: u32,
    retry_after: Option<Seq<char>>,
    body: Seq<char>,
)
    requires
        attempt < max_attempts,
    ensures
        next_step(
            max_attempts,
            attempt,
            EventView::Answered { status: 429, retry_after, body: Ok(body) },
        ) == (StepView::Wait {
            secs: if retry_after is Some && unsigned_value(retry_after->0) is Some {
                unsigned_value(retry_after->0)->0
            } else {
                backoff(attempt)
            },
        }),
{
}

/// The questions of a request as they stand on the wire, by name.
pub open spec fn questions_tree(questions: Seq<(Seq<char>, QuestionView)>) -> JsonTree {
    JsonTree::Object(
        questions.map_values(|q: (Seq<char>, QuestionView)| (q.0, question_tree(q.1))),
    )
}

/// What every client puts on the wire for a request: the observation and the
/// questions.
pub open spec fn wire_members(request: RequestView) -> Seq<(Seq<char>, JsonTree)> {
    seq![("state"@, request.observation), ("questions"@, questions_tree(request.questions))]
}

/// The body of a decision call: the model before what every client sends.
pub open spec fn decide_body(model: Seq<char>, request: RequestView) -> JsonTree {
    JsonTree::Object(seq![("model"@, JsonTree::String(model))] + wire_members(request))
}

/// A correlation is the caller's private bookkeeping: what goes on the wire is
/// the same with any or none.
pub proof fn law_correlation_is_never_transmitted(
    model: Seq<char>,
    request: RequestView,
    correlation: Option<Seq<char>>,
)
    ensures
        wire_members(request) == wire_members(RequestView { correlation, ..request }),
        decide_body(model, request) == decide_body(model, RequestView { correlation, ..request }),
{
}

/// The questions of a request as they stand on the wire.
pub(crate) fn questions_object(questions: &NameMap<Question>) -> (r: Json)
    ensures
        r@ == questions_tree(questions@),
{
    broadcast use Json::lemma_tree;

    let ghost all = questions@.map_values(|q: (Seq<char>, QuestionView)| (q.0, question_tree(q.1)));
    let mut out = Object::new();
    let mut i: usize = 0;
    while i < questions.len()
        invariant
            i <= questions@.len(),
            all == questions@.map_values(
                |q: (Seq<char>, QuestionView)| (q.0, question_tree(q.1)),
            ),
            out@ == all.take(i as int),
        decreases questions@.len() - i,
    {
        proof {
            assert forall|j: int| 0 <= j < out@.len() implies (#[trigger] out@[j]).0
                != questions@[i as int].0 by {
                text::lemma_text_order_total(questions@[j].0, questions@[i as int].0);
            }
        }
        out.put_new(questions.name(i), questions.value(i).wire());
        i += 1;
    }
    assert(all.take(i as int) =~= all);
    Json::Object(out)
}

proof fn lemma_wire_keys()
    ensures
        "model"@ != "state"@,
        "model"@ != "questions"@,
        "state"@ != "questions"@,
{
    reveal_strlit("model");
    reveal_strlit("state");
    reveal_strlit("questions");
    assert("model"@[0] == 'm' && "state"@[0] == 's');
}

impl Request {
    /// What every client puts on the wire for the request.
    pub fn wire(&self) -> (r: Json)
        ensures
            r@ == JsonTree::Object(wire_members(self@)),
    {
        broadcast use Json::lemma_tree;

        proof {
            lemma_wire_keys();
        }
        let mut out = Object::new();
        out.put_new("state", self.observation.clone());
        out.put_new("questions", questions_object(&self.questions));
        assert(out@ =~= wire_members(self@));
        Json::Object(out)
    }
}

/// An accepted response.
#[derive(Debug)]
pub struct Reply {
    /// The text of its body, or why it could not be read.
    pub body: Result<String, String>,
    /// The model that the response names in [`RESOLVED_MODEL_HEADER`].
    pub resolved_model: Option<String>,
    /// How long the accepted attempt took. Waiting between attempts is the
    /// endpoint's load, not its speed, and is not part of it.
    pub elapsed: Duration,
    /// How many attempts came before it.
    pub retries: u32,
}

/// A [`Reply`], with plain values for its parts.
pub struct ReplyView {
    /// The text of its body.
    pub body: Result<Seq<char>, Seq<char>>,
    /// The model that answered.
    pub resolved_model: Option<Seq<char>>,
    /// How long the accepted attempt took, in nanoseconds.
    pub elapsed: nat,
    /// How many attempts came before it.
    pub retries: u32,
}

impl View for Reply {
    type V = ReplyView;

    open spec fn view(&self) -> ReplyView {
        ReplyView {
            body: result_view(self.body),
            resolved_model: option_view(self.resolved_model),
            elapsed: self.elapsed@,
            retries: self.retries,
        }
    }
}

/// What a decision call gives, by the accepted response.
pub open spec fn decided(reply: ReplyView) -> Decided {
    match reply_tree(reply.body) {
        Ok(tree) => match response_outcome(tree, reply.resolved_model) {
            Ok(outcome) => Ok(
                OutcomeView {
                    elapsed: Some(reply.elapsed),
                    retries: Some(reply.retries),
                    ..outcome
                },
            ),
            Err(e) => Err(e),
        },
        Err(e) => Err(e),
    }
}

impl Reply {
    /// Reads the response to a decision call.
    pub fn decided(self) -> (r: Result<Outcome, Error>)
        ensures
            result_view(r) == decided(self@),
    {
        match read_reply(&self.body) {
            Ok(value) => match decode_response(&value, self.resolved_model) {
                Ok(outcome) => Ok(outcome.with_elapsed(self.elapsed).with_retries(self.retries)),
                Err(e) => Err(e),
            },
            Err(e) => Err(e),
        }
    }
}

impl HttpClient {
    /// The body of a decision call.
    pub fn decide_body(&self, request: &Request) -> (r: Json)
        ensures
            r@ == decide_body(self@.model, request@),
    {
        broadcast use Json::lemma_tree;

        proof {
            lemma_wire_keys();
        }
        let mut out = Object::new();
        out.put_new("model", Json::text(self.model.as_str()));
        out.put_new("state", request.observation.clone());
        out.put_new("questions", questions_object(&request.questions));
        assert(out@ =~= seq![("model"@, JsonTree::String(self@.model))] + wire_members(request@));
        Json::Object(out)
    }
}

/// The status alone decides what comes of an answer whose body was read. From
/// 200 to 299 it is accepted. From 500 to 599 it is tried again after the
/// backoff while attempts are left, and exhausts the call with the last one; so
/// does 429, after the wait that it asks for. Every other status, the rest of
/// 400 to 499 among them, fails the call at once.
pub proof fn law_status_decides_the_step(
    max_attempts: u32,
    attempt: u32,
    status: u16,
    retry_after: Option<Seq<char>>,
    body: Seq<char>,
)
    requires
        attempt >= 1,
    ensures
        ({
            let step = next_step(
                max_attempts,
                attempt,
                EventView::Answered { status, retry_after, body: Ok(body) },
            );
            &&& 200 <= status <= 299 ==> step == (StepView::Accept {
                retries: (attempt - 1) as u32,
            })
            &&& 500 <= status <= 599 && attempt < max_attempts ==> step == (StepView::Wait {
                secs: backoff(attempt),
            })
            &&& 500 <= status <= 599 && attempt >= max_attempts ==> step == StepView::Fail(
                ErrorView::Exhausted {
                    attempts: attempt,
                    message: "HTTP "@ + status_text(status) + (": "@ + truncated(body)),
                },
            )
            &&& status == 429 && attempt < max_attempts ==> step is Wait
            &&& status == 429 && attempt >= max_attempts ==> step == StepView::Fail(
                ErrorView::Exhausted {
                    attempts: attempt,
                    message: "rate limited (429): "@ + truncated(body),
                },
            )
            &&& status < 200 || 300 <= status < 429 || 430 <= status < 500 || 600 <= status ==> {
                &&& step matches StepView::Fail(ErrorView::Status { status: given, message })
                &&& given == status
                &&& message == refusal_message(body)
            }
        }),
{
}

/// What never completed is tried again after the backoff while attempts are
/// left, and exhausts the call with the last one, in its own words.
pub proof fn law_unsent_attempt_is_made_again(
    max_attempts: u32,
    attempt: u32,
    message: Seq<char>,
)
    ensures
        attempt < max_attempts ==> next_step(max_attempts, attempt, EventView::Unsent(message)) == (
        StepView::Wait { secs: backoff(attempt) }),
        attempt >= max_attempts ==> next_step(max_attempts, attempt, EventView::Unsent(message))
            == StepView::Fail(ErrorView::Exhausted { attempts: attempt, message }),
{
}

/// A body that cannot be read fails the call at once with the words of the
/// failure, unless the status is a success, whose body is not read here.
pub proof fn law_unreadable_body_is_final(
    max_attempts: u32,
    attempt: u32,
    status: u16,
    retry_after: Option<Seq<char>>,
    message: Seq<char>,
)
    requires
        attempt >= 1,
    ensures
        ({
            let step = next_step(
                max_attempts,
                attempt,
                EventView::Answered { status, retry_after, body: Err(message) },
            );
            if 200 <= status <= 299 {
                step == StepView::Accept { retries: (attempt - 1) as u32 }
            } else {
                step == StepView::Fail(ErrorView::Transport(message))
            }
        }),
{
}

/// A rate limit that says how long to wait is waited out for exactly that
/// long, however long the backoff is; one that does not say, or says no
/// number, for the backoff.
pub proof fn law_rate_limit_is_waited_out(
    max_attempts: u32,
    attempt: u32,
    header: Seq<char>,
    secs: u64,
    body: Seq<char>,
)
    requires
        attempt < max_attempts,
    ensures
        unsigned_value(header) == Some(secs) ==> next_step(
            max_attempts,
            attempt,
            EventView::Answered { status: 429, retry_after: Some(header), body: Ok(body) },
        ) == (StepView::Wait { secs }),
        unsigned_value(header) is None ==> next_step(
            max_attempts,
            attempt,
            EventView::Answered { status: 429, retry_after: Some(header), body: Ok(body) },
        ) == (StepView::Wait { secs: backoff(attempt) }),
        next_step(
            max_attempts,
            attempt,
            EventView::Answered { status: 429, retry_after: None, body: Ok(body) },
        ) == (StepView::Wait { secs: backoff(attempt) }),
{
}

/// A refusal is told in the endpoint's own words where its body is JSON that
/// has some, else by the body.
pub proof fn law_refusal_is_told_in_the_endpoints_words(body: Seq<char>)
    ensures
        json_read(body) is Err ==> refusal_message(body) == truncated(body),
        json_read(body) matches Ok(tree) ==> match error_message(tree) {
            Some(words) => refusal_message(body) == words,
            None => refusal_message(body) == truncated(body),
        },
{
}

/// A client needs a credential that is not blank, and has none other; it posts
/// below the base URL without the slashes at its end, for the model it was
/// given, five times at most and for thirty seconds each.
pub proof fn law_client_holds_its_settings(
    base_url: Seq<char>,
    api_key: Seq<char>,
    model: Seq<char>,
)
    ensures
        (forall|i: int| 0 <= i < api_key.len() ==> is_white_space(#[trigger] api_key[i]))
            ==> client_from(base_url, api_key, model) == Err::<HttpClientView, ErrorView>(
            ErrorView::MissingApiKey("OODA_API_KEY"@),
        ),
        (exists|i: int| 0 <= i < api_key.len() && !is_white_space(#[trigger] api_key[i]))
            ==> (client_from(base_url, api_key, model) matches Ok(client) && {
            &&& client.api_key == api_key
            &&& client.model == model
            &&& client.max_attempts == 5
            &&& client.timeout == 30_000_000_000
            &&& client.base_url.len() <= base_url.len()
            &&& client.base_url == base_url.take(client.base_url.len() as int)
            &&& client.base_url.len() > 0 ==> client.base_url.last() != '/'
            &&& forall|i: int|
                client.base_url.len() <= i < base_url.len() ==> #[trigger] base_url[i] == '/'
        }),
{
    lemma_trimmed_end(base_url, '/');
    lemma_trimmed_rest(base_url, '/');
}

proof fn lemma_trimmed_rest(s: Seq<char>, c: char)
    ensures
        trim_end_char(s, c).len() <= s.len(),
        trim_end_char(s, c) == s.take(trim_end_char(s, c).len() as int),
        forall|i: int| trim_end_char(s, c).len() <= i < s.len() ==> #[trigger] s[i] == c,
    decreases s.len(),
{
    if s.len() > 0 && s.last() == c {
        lemma_trimmed_rest(s.drop_last(), c);
        assert(trim_end_char(s, c) == trim_end_char(s.drop_last(), c));
        assert forall|i: int| trim_end_char(s, c).len() <= i < s.len() implies #[trigger] s[i]
            == c by {
            if i < s.len() - 1 {
                assert(s.drop_last()[i] == s[i]);
            }
        }
        assert(s.take(trim_end_char(s, c).len() as int) =~= s.drop_last().take(
            trim_end_char(s, c).len() as int,
        ));
    } else {
        assert(s.take(s.len() as int) =~= s);
    }
}

/// A setting counts where it is set and holds more than white space, and then
/// as it stands.
pub proof fn law_blank_setting_is_not_set(value: Seq<char>)
    ensures
        set_value(None) is None,
        (forall|i: int| 0 <= i < value.len() ==> is_white_space(#[trigger] value[i])) ==> set_value(
            Some(value),
        ) is None,
        (exists|i: int| 0 <= i < value.len() && !is_white_space(#[trigger] value[i])) ==> set_value(
            Some(value),
        ) == Some(value),
{
}

/// The names by which an endpoint is reached and configured.
pub proof fn law_defaults()
    ensures
        DEFAULT_BASE_URL@ == "https://ai.fpl.dev"@,
        DECIDE_PATH@ == "/v1/systemone"@,
        DEFAULT_MODEL@ == "fpl/decide"@,
        RESOLVED_MODEL_HEADER@ == "x-fpl-resolved-model"@,
        API_KEY_ENV@ == "OODA_API_KEY"@,
        BASE_URL_ENV@ == "OODA_BASE_URL"@,
        MODEL_ENV@ == "OODA_MODEL"@,
{
}

/// A decision call sends the model, the observation under `state` and every
/// question under its own name, in their order, and nothing more.
pub proof fn law_decision_body_holds_every_question(model: Seq<char>, request: RequestView)
    ensures
        decide_body(model, request) matches JsonTree::Object(members) && {
            &&& members.len() == 3
            &&& members[0] == ("model"@, JsonTree::String(model))
            &&& members[1] == ("state"@, request.observation)
            &&& members[2].0 == "questions"@
            &&& members[2].1 matches JsonTree::Object(questions) && {
                &&& questions.len() == request.questions.len()
                &&& forall|i: int|
                    0 <= i < questions.len() ==> #[trigger] questions[i] == (
                        request.questions[i].0,
                        question_tree(request.questions[i].1),
                    )
            }
        },
        JsonTree::Object(wire_members(request)) matches JsonTree::Object(members) && {
            &&& members.len() == 2
            &&& members[0] == decide_body(model, request)->Object_0[1]
            &&& members[1] == decide_body(model, request)->Object_0[2]
        },
{
}

/// A decision is what the body of the accepted response says, with the model
/// that the response names, the time of that attempt and the number of those
/// before it.
pub proof fn law_decision_is_read_from_the_accepted_response(reply: ReplyView)
    ensures
        reply_tree(reply.body) matches Err(e) ==> decided(reply) == Err::<OutcomeView, ErrorView>(
            e,
        ),
        reply_tree(reply.body) matches Ok(tree) ==> match response_outcome(
            tree,
            reply.resolved_model,
        ) {
            Err(e) => decided(reply) == Err::<OutcomeView, ErrorView>(e),
            Ok(outcome) => {
                &&& decided(reply) is Ok
                &&& decided(reply)->Ok_0.answers == outcome.answers
                &&& decided(reply)->Ok_0.usage == outcome.usage
                &&& decided(reply)->Ok_0.resolved_model == outcome.resolved_model
                &&& decided(reply)->Ok_0.elapsed == Some(reply.elapsed)
                &&& decided(reply)->Ok_0.retries == Some(reply.retries)
            },
        },
{
}

} // verus!
