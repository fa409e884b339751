//! Why a decision call did not produce a usable answer.
use crate::text::{self, decimal_text, quoted_text};
use vstd::prelude::*;
use vstd::string::*;
use vstd::utf8::*;

verus! {

broadcast use vstd::string::group_string_axioms;

/// Errors from a decision, a completion or an embedding call.
#[derive(Debug)]
pub enum Error {
    /// No credential was configured for the endpoint. The payload names the
    /// variable that should have held it.
    MissingApiKey(&'static str),
    /// The request never completed (DNS, connect, TLS, timeout, ...).
    Transport(String),
    /// The endpoint answered with a status that is not worth retrying.
    Status {
        /// HTTP status code.
        status: u16,
        /// The endpoint's own error message, when it sent one.
        message: String,
    },
    /// The endpoint answered with HTTP success but an `error` field in the
    /// body: a flat string or an object with a `message`.
    Api(String),
    /// Retries against a transient condition (429, 5xx or a transport
    /// failure) were exhausted. This is an infrastructure condition, not a
    /// verdict on the request.
    Exhausted {
        /// How many attempts were made before giving up.
        attempts: u32,
        /// The last error observed.
        message: String,
    },
    /// The body was not a decodable response.
    Decode {
        /// What was wrong with it.
        source: String,
        /// The body that failed to decode, truncated for legibility.
        body: String,
    },
    /// A question the caller asked went unanswered.
    MissingAnswer(String),
    /// A question asked as one kind came back answered as another.
    WrongAnswerKind {
        /// The question's name.
        question: String,
        /// The kind that was expected (`"choice"`, `"score"` or `"noul"`).
        expected: &'static str,
    },
    /// A staged chain's continuation kept asking for another stage.
    TooManyStages(u32),
    /// The durable decision log could not be written.
    Capture {
        /// The log file's path.
        path: String,
        /// What the file system reported.
        source: String,
    },
    /// A choice was answered with a key outside the offered set.
    UnknownChoice {
        /// The question's name.
        question: String,
        /// The key the endpoint returned.
        chosen: String,
    },
    /// A completion ended without any content.
    EmptyCompletion,
    /// An embedding came back without a vector.
    EmptyEmbedding,
}

/// An [`Error`], with texts as sequences of characters.
pub enum ErrorView {
    /// See [`Error::MissingApiKey`].
    MissingApiKey(Seq<char>),
    /// See [`Error::Transport`].
    Transport(Seq<char>),
    /// See [`Error::Status`].
    Status {
        /// HTTP status code.
        status: u16,
        /// The endpoint's message.
        message: Seq<char>,
    },
    /// See [`Error::Api`].
    Api(Seq<char>),
    /// See [`Error::Exhausted`].
    Exhausted {
        /// Attempts made.
        attempts: u32,
        /// The last error.
        message: Seq<char>,
    },
    /// See [`Error::Decode`].
    Decode {
        /// What was wrong.
        source: Seq<char>,
        /// The body, truncated.
        body: Seq<char>,
    },
    /// See [`Error::MissingAnswer`].
    MissingAnswer(Seq<char>),
    /// See [`Error::WrongAnswerKind`].
    WrongAnswerKind {
        /// The question's name.
        question: Seq<char>,
        /// The kind that was expected.
        expected: Seq<char>,
    },
    /// See [`Error::TooManyStages`].
    TooManyStages(u32),
    /// See [`Error::Capture`].
    Capture {
        /// The log file's path.
        path: Seq<char>,
        /// What the file system reported.
        source: Seq<char>,
    },
    /// See [`Error::UnknownChoice`].
    UnknownChoice {
        /// The question's name.
        question: Seq<char>,
        /// The key the endpoint returned.
        chosen: Seq<char>,
    },
    /// See [`Error::EmptyCompletion`].
    EmptyCompletion,
    /// See [`Error::EmptyEmbedding`].
    EmptyEmbedding,
}

impl View for Error {
    type V = ErrorView;

    open spec fn view(&self) -> ErrorView {
        match self {
            Error::MissingApiKey(name) => ErrorView::MissingApiKey(name@),
            Error::Transport(message) => ErrorView::Transport(message@),
            Error::Status { status, message } => ErrorView::Status {
                status: *status,
                message: message@,
            },
            Error::Api(message) => ErrorView::Api(message@),
            Error::Exhausted { attempts, message } => ErrorView::Exhausted {
                attempts: *attempts,
                message: message@,
            },
            Error::Decode { source, body } => ErrorView::Decode { source: source@, body: body@ },
            Error::MissingAnswer(question) => ErrorView::MissingAnswer(question@),
            Error::WrongAnswerKind { question, expected } => ErrorView::WrongAnswerKind {
                question: question@,
                expected: expected@,
            },
            Error::TooManyStages(n) => ErrorView::TooManyStages(*n),
            Error::Capture { path, source } => ErrorView::Capture {
                path: path@,
                source: source@,
            },
            Error::UnknownChoice { question, chosen } => ErrorView::UnknownChoice {
                question: question@,
                chosen: chosen@,
            },
            Error::EmptyCompletion => ErrorView::EmptyCompletion,
            Error::EmptyEmbedding => ErrorView::EmptyEmbedding,
        }
    }
}

/// The message of an error.
pub open spec fn error_text(error: ErrorView) -> Seq<char> {
    match error {
        ErrorView::MissingApiKey(name) => name
            + " is not set; a decide() call needs a bearer token"@,
        ErrorView::Transport(message) => "transport failed: "@ + message,
        ErrorView::Status { status, message } => "HTTP "@ + decimal_text(status as nat) + (": "@
            + message),
        ErrorView::Api(message) => "decision endpoint reported an error: "@ + message,
        ErrorView::Exhausted { attempts, message } => "gave up after "@ + decimal_text(
            attempts as nat,
        ) + (" attempt(s): "@ + message),
        ErrorView::Decode { source, body } => "response did not decode: "@ + source
            + ("; body was: "@ + body),
        ErrorView::MissingAnswer(question) => "no answer for question "@ + quoted_text(question),
        ErrorView::WrongAnswerKind { question, expected } => "question "@ + quoted_text(question)
            + (" expected a "@ + expected + " answer but got a different kind"@),
        ErrorView::TooManyStages(n) => "staged decision chain exceeded "@ + decimal_text(n as nat)
            + " stages without stopping"@,
        ErrorView::Capture { path, source } => "capture log "@ + path + (": "@ + source),
        ErrorView::UnknownChoice { question, chosen } => "question "@ + quoted_text(question) + (
        " answered with unknown choice "@ + quoted_text(chosen)),
        ErrorView::EmptyCompletion => "the completion carried no content"@,
        ErrorView::EmptyEmbedding => "the embedding carried no vector"@,
    }
}

impl Error {
    /// The message of the error, for a log or a caller.
    pub fn message(&self) -> (r: String)
        ensures
            r@ == error_text(self@),
    {
        match self {
            Error::MissingApiKey(name) => text::join2(
                name,
                " is not set; a decide() call needs a bearer token",
            ),
            Error::Transport(message) => text::join2("transport failed: ", message.as_str()),
            Error::Status { status, message } => text::join3(
                "HTTP ",
                text::decimal(*status as u64).as_str(),
                text::join2(": ", message.as_str()).as_str(),
            ),
            Error::Api(message) => text::join2(
                "decision endpoint reported an error: ",
                message.as_str(),
            ),
            Error::Exhausted { attempts, message } => text::join3(
                "gave up after ",
                text::decimal(*attempts as u64).as_str(),
                text::join2(" attempt(s): ", message.as_str()).as_str(),
            ),
            Error::Decode { source, body } => text::join3(
                "response did not decode: ",
                source.as_str(),
                text::join2("; body was: ", body.as_str()).as_str(),
            ),
            Error::MissingAnswer(question) => text::join2(
                "no answer for question ",
                text::quoted(question.as_str()).as_str(),
            ),
            Error::WrongAnswerKind { question, expected } => text::join3(
                "question ",
                text::quoted(question.as_str()).as_str(),
                text::join3(
                    " expected a ",
                    expected,
                    " answer but got a different kind",
                ).as_str(),
            ),
            Error::TooManyStages(n) => text::join3(
                "staged decision chain exceeded ",
                text::decimal(*n as u64).as_str(),
                " stages without stopping",
            ),
            Error::Capture { path, source } => text::join3(
                "capture log ",
                path.as_str(),
                text::join2(": ", source.as_str()).as_str(),
            ),
            Error::UnknownChoice { question, chosen } => text::join3(
                "question ",
                text::quoted(question.as_str()).as_str(),
                text::join2(
                    " answered with unknown choice ",
                    text::quoted(chosen.as_str()).as_str(),
                ).as_str(),
            ),
            Error::EmptyCompletion => "the completion carried no content".to_owned(),
            Error::EmptyEmbedding => "the embedding carried no vector".to_owned(),
        }
    }
}

/// Longest body kept in an error message, in bytes. Enough to see what went
/// wrong, short enough that a gateway's error page does not bury the log.
pub const MAX_ERROR_BODY: usize = 512;

/// The last character boundary at or before `n`.
pub open spec fn boundary_before(bytes: Seq<u8>, n: int) -> int
    decreases n,
{
    if n <= 0 || is_char_boundary(bytes, n) {
        n
    } else {
        boundary_before(bytes, n - 1)
    }
}

/// A body as an error message shows it: whole where it is short, else its
/// beginning, cut on a character boundary, and its length.
pub open spec fn truncated(body: Seq<char>) -> Seq<char> {
    let bytes = encode_utf8(body);
    if bytes.len() <= MAX_ERROR_BODY {
        body
    } else {
        let cut = boundary_before(bytes, MAX_ERROR_BODY as int);
        decode_utf8(bytes.take(cut)) + "... ("@ + (decimal_text(bytes.len())
            + " bytes total)"@)
    }
}

/// Shortens a body for an error message, on a character boundary.
pub fn truncate(body: &str) -> (r: String)
    ensures
        r@ == truncated(body@),
{
    let total: usize = body.as_bytes().len();
    if total <= MAX_ERROR_BODY {
        return body.to_owned();
    }
    let ghost bytes = encode_utf8(body@);
    let mut cut: usize = MAX_ERROR_BODY;
    while cut > 0 && !body.is_char_boundary(cut)
        invariant
            cut <= MAX_ERROR_BODY < total,
            bytes == encode_utf8(body@),
            total == bytes.len(),
            boundary_before(bytes, MAX_ERROR_BODY as int) == boundary_before(bytes, cut as int),
        decreases cut,
    {
        cut -= 1;
    }
    proof {
        encode_utf8_valid_utf8(body@);
    }
    let head = body.split_at(cut).0;
    proof {
        encode_utf8_decode_utf8(head@);
    }
    text::join3(
        head,
        "... (",
        text::join2(text::decimal(total as u64).as_str(), " bytes total)").as_str(),
    )
}

/// A body of up to 512 bytes is shown whole. Of a longer one what is shown is
/// its beginning, up to the last character that ends within these bytes, and how
/// long it is.
pub proof fn law_long_body_is_cut_between_characters(body: Seq<char>)
    ensures
        encode_utf8(body).len() <= 512 ==> truncated(body) == body,
        encode_utf8(body).len() > 512 ==> exists|cut: int|
            {
                &&& 0 <= cut <= 512
                &&& cut > 0 ==> is_char_boundary(encode_utf8(body), cut)
                &&& forall|n: int|
                    cut < n <= 512 ==> !#[trigger] is_char_boundary(encode_utf8(body), n)
                &&& truncated(body) == decode_utf8(#[trigger] encode_utf8(body).take(cut))
                    + "... ("@ + decimal_text(encode_utf8(body).len()) + " bytes total)"@
            },
{
    let bytes = encode_utf8(body);
    if bytes.len() > 512 {
        lemma_boundary_before(bytes, 512);
        let cut = boundary_before(bytes, 512);
        assert(truncated(body) =~= decode_utf8(bytes.take(cut)) + "... ("@ + decimal_text(
            bytes.len(),
        ) + " bytes total)"@);
    }
}

proof fn lemma_boundary_before(bytes: Seq<u8>, n: int)
    requires
        0 <= n,
    ensures
        0 <= boundary_before(bytes, n) <= n,
        boundary_before(bytes, n) > 0 ==> is_char_boundary(bytes, boundary_before(bytes, n)),
        forall|k: int|
            boundary_before(bytes, n) < k <= n ==> !#[trigger] is_char_boundary(bytes, k),
    decreases n,
{
    if n > 0 && !is_char_boundary(bytes, n) {
        lemma_boundary_before(bytes, n - 1);
    }
}

/// Every error says in its message what it is and what it is about.
pub proof fn law_error_messages(
    a: Seq<char>,
    b: Seq<char>,
    status: u16,
    n: u32,
)
    ensures
        error_text(ErrorView::MissingApiKey(a)) == a
            + " is not set; a decide() call needs a bearer token"@,
        error_text(ErrorView::Transport(a)) == "transport failed: "@ + a,
        error_text(ErrorView::Status { status, message: a }) == "HTTP "@ + decimal_text(
            status as nat,
        ) + ": "@ + a,
        error_text(ErrorView::Api(a)) == "decision endpoint reported an error: "@ + a,
        error_text(ErrorView::Exhausted { attempts: n, message: a }) == "gave up after "@
            + decimal_text(n as nat) + " attempt(s): "@ + a,
        error_text(ErrorView::Decode { source: a, body: b }) == "response did not decode: "@ + a
            + "; body was: "@ + b,
        error_text(ErrorView::MissingAnswer(a)) == "no answer for question "@ + quoted_text(a),
        error_text(ErrorView::WrongAnswerKind { question: a, expected: b }) == "question "@
            + quoted_text(a) + " expected a "@ + b + " answer but got a different kind"@,
        error_text(ErrorView::TooManyStages(n)) == "staged decision chain exceeded "@
            + decimal_text(n as nat) + " stages without stopping"@,
        error_text(ErrorView::Capture { path: a, source: b }) == "capture log "@ + a + ": "@ + b,
        error_text(ErrorView::UnknownChoice { question: a, chosen: b }) == "question "@
            + quoted_text(a) + " answered with unknown choice "@ + quoted_text(b),
        error_text(ErrorView::EmptyCompletion) == "the completion carried no content"@,
        error_text(ErrorView::EmptyEmbedding) == "the embedding carried no vector"@,
{
    assert(error_text(ErrorView::Status { status, message: a }) =~= "HTTP "@ + decimal_text(
        status as nat,
    ) + ": "@ + a);
    assert(error_text(ErrorView::Exhausted { attempts: n, message: a }) =~= "gave up after "@
        + decimal_text(n as nat) + " attempt(s): "@ + a);
    assert(error_text(ErrorView::Decode { source: a, body: b }) =~= "response did not decode: "@ + a
        + "; body was: "@ + b);
    assert(error_text(ErrorView::WrongAnswerKind { question: a, expected: b }) =~= "question "@
        + quoted_text(a) + " expected a "@ + b + " answer but got a different kind"@);
    assert(error_text(ErrorView::Capture { path: a, source: b }) =~= "capture log "@ + a + ": "@
        + b);
    assert(error_text(ErrorView::UnknownChoice { question: a, chosen: b }) =~= "question "@
        + quoted_text(a) + " answered with unknown choice "@ + quoted_text(b));
}

} // verus!
