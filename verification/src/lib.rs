//! A client and type system for typed, calibrated decision models.
//!
//! Every consumer of a decision endpoint follows the same shape: **o**bserve
//! some state, **o**rient it against a bounded question (a closed set of
//! options, a rubric, a yes/no), **d**ecide by putting that question to a fast,
//! calibrated model, and **a**ct on the typed, confidence-scored answer. This
//! crate is the plumbing up to the decision; acting is the caller's.
//!
//! There is no free text on the wire of a decision. A request carries a JSON
//! observation and named, bounded [`Question`]s; a response carries a typed
//! [`Answer`] for each. The crate puts requests into their wire form, reads
//! responses, decides when to try again and folds what came back. It performs
//! no I/O itself.
pub mod base64;
pub mod best;
pub mod capture;
pub mod choice;
pub mod client;
pub mod complete;
pub mod cost;
pub mod derive;
pub mod duration;
pub mod embed;
pub mod error;
pub mod fields;
pub mod gpc1;
pub mod http;
pub mod json;
pub mod names;
pub mod number;
pub mod numeric;
pub mod question;
pub mod response;
pub mod schema;
pub mod schema_fallback;
pub mod scripted;
pub mod shape;
pub mod speculate;
pub mod stage;
pub mod text;
pub mod trace;

pub use best::RunningBest;
pub use capture::{Capture, CapturedDecision, MAX_CAPTURE_LOG_BYTES};
pub use choice::{decide_choice, decide_choice_traced, ChoiceSpace, Decision};
pub use client::{Client, Observation, Outcome, Request};
pub use complete::{Complete, Prompt, ScriptedComplete, CHAT_PATH};
pub use cost::Ledger;
pub use duration::Duration;
pub use embed::{Embed, EmbedRequest, Embedding, ScriptedEmbeddings, EMBEDDINGS_PATH};
pub use error::Error;
pub use gpc1::Gpc1Client;
pub use http::{
    HttpClient, API_KEY_ENV, BASE_URL_ENV, DECIDE_PATH, DEFAULT_BASE_URL, DEFAULT_MODEL,
    DEFAULT_TIMEOUT_SECS, MAX_ATTEMPTS, MODEL_ENV, RESOLVED_MODEL_HEADER,
};
pub use json::{Json, Object};
pub use names::NameMap;
pub use number::Real;
pub use numeric::{
    BoundedError, BoundedPredictor, JointOutcome, JointRequest, NumericEstimate, NumericField,
    NumericOutcome, NumericRequest,
};
pub use question::{Answer, Criteria, Question, Usage};
pub use schema_fallback::{JsonSchemaPredictor, WithFallback};
pub use scripted::ScriptedClient;
pub use speculate::{decide_speculative, Resolved, Speculation};
pub use stage::{decide_staged, MAX_STAGES};
pub use trace::{Kind, Record, Trace};
