use std::io::BufRead;

use ooda::base64::encode_base64;
use ooda::complete::collect_stream;
use ooda::embed::decode_embedding;
use ooda::http::Reply;
use ooda::json::{parse, render};
use ooda::{
    Complete, Duration, Embed, EmbedRequest, Error, HttpClient, Json, Prompt, Real,
    ScriptedComplete, ScriptedEmbeddings,
};

fn json(text: &str) -> Json {
    parse(text).unwrap()
}

fn num(x: f64) -> Real {
    Real::finite(&serde_json::Number::from_f64(x).unwrap())
}

fn single(x: f32) -> Real {
    num(f64::from(x))
}

fn lines(stream: &str) -> Vec<Result<String, String>> {
    stream
        .as_bytes()
        .lines()
        .map(|line| line.map_err(|e| e.to_string()))
        .collect()
}

#[test]
fn a_stream_is_its_content_deltas_in_order() {
    let stream = ": keep-alive\n\
data: {\"choices\":[{\"delta\":{\"role\":\"assistant\"}}]}\n\
\n\
data: {\"choices\":[{\"delta\":{\"reasoning\":\"thinking...\"}}]}\n\
data: {\"choices\":[{\"delta\":{\"content\":\"{\\\"a\\\": \"}}]}\n\
data: {\"choices\":[{\"delta\":{\"content\":\"1}\"}}]}\n\
data: {\"usage\":{\"total_tokens\":3},\"choices\":[]}\n\
data: [DONE]\n\
data: {\"choices\":[{\"delta\":{\"content\":\"after done\"}}]}\n";
    assert_eq!(collect_stream(&lines(stream)).unwrap(), "{\"a\": 1}");
}

#[test]
fn an_error_event_or_an_empty_stream_fails() {
    let error = "data: {\"error\":{\"code\":429,\"message\":\"slow down\"}}\n";
    assert!(matches!(
        collect_stream(&lines(error)),
        Err(Error::Status { status: 429, .. })
    ));
    assert!(matches!(
        collect_stream(&lines("data: [DONE]\n")),
        Err(Error::EmptyCompletion)
    ));
}

#[test]
fn an_error_event_says_what_it_can() {
    let failed = |stream: &str| match collect_stream(&lines(stream)) {
        Err(Error::Status { status, message }) => (status, message),
        other => panic!("{other:?}"),
    };
    let words = "error event in the stream".to_owned();
    assert_eq!(failed("data: {\"error\":null}"), (500, words.clone()));
    assert_eq!(failed("data: {\"error\":\"x\"}"), (500, words.clone()));
    assert_eq!(failed("data: {\"error\":{\"code\":65540}}"), (4, words));
    assert_eq!(
        failed("data: {\"error\":{\"code\":-1,\"message\":\"m\"}}"),
        (500, "m".to_owned())
    );
}

#[test]
fn a_broken_stream_and_an_event_that_is_no_json_fail() {
    let mut broken = lines("data: {\"choices\":[{\"delta\":{\"content\":\"a\"}}]}\n");
    broken.push(Err("reset".to_owned()));
    assert!(matches!(collect_stream(&broken), Err(Error::Transport(m)) if m == "reset"));
    let Err(Error::Decode { body, .. }) = collect_stream(&lines("data:  {oops \n")) else {
        panic!("a decode error");
    };
    assert_eq!(body, "{oops");
}

#[test]
fn an_answer_is_trimmed_as_a_whole() {
    let stream = "data:{\"choices\":[{\"delta\":{\"content\":\" \\n a \"}}]}\n\
data: {\"choices\":{\"0\":{\"delta\":{\"content\":\" b \"}}}}\n\
x data: {\"choices\":[{\"delta\":{\"content\":\"no\"}}]}\n\
data:\n";
    assert_eq!(collect_stream(&lines(stream)).unwrap(), "a  b");
    assert!(matches!(collect_stream(&Vec::new()), Err(Error::EmptyCompletion)));
}

#[test]
fn a_prompt_defaults_to_a_low_but_not_zero_temperature() {
    let prompt = Prompt::new("system", "user");
    assert_eq!(prompt.max_tokens, 512);
    let temperature = f64::from_bits(prompt.temperature.bits()) as f32;
    assert!((temperature - 0.2).abs() < f32::EPSILON);
    assert_eq!(f64::from_bits(prompt.temperature.bits()), f64::from(0.2f32));
}

#[test]
fn builder_methods_override_the_defaults() {
    let prompt = Prompt::new("system", "user")
        .with_max_tokens(128)
        .with_temperature(num(0.0));
    assert_eq!(prompt.max_tokens, 128);
    assert_eq!(prompt.temperature, num(0.0));
}

#[test]
fn scripted_complete_answers_in_queue_order() {
    let mut client = ScriptedComplete::new(vec!["first".to_owned(), "second".to_owned()]);
    let prompt = Prompt::new("system", "user");
    assert_eq!(client.complete(&prompt).unwrap(), "first");
    assert_eq!(client.complete(&prompt).unwrap(), "second");
}

#[test]
fn scripted_complete_running_out_is_an_error_not_a_panic() {
    let mut client = ScriptedComplete::new(Vec::<String>::new());
    assert!(client.complete(&Prompt::new("s", "u")).is_err());
    assert!(ScriptedComplete::default().complete(&Prompt::new("s", "u")).is_err());
}

#[test]
fn the_body_of_a_completion_call_is_streamed() {
    let client = HttpClient::new("https://example.invalid", "k", "m").unwrap();
    let prompt = Prompt::new("be brief", "hello").with_temperature(num(0.5));
    assert_eq!(
        render(&client.chat_body(&prompt)),
        concat_parts(&[
            r#"{"model":"m","messages":[{"role":"system","content":"be brief"},"#,
            r#"{"role":"user","content":"hello"}],"max_tokens":512,"temperature":0.5,"#,
            r#""stream":true}"#,
        ])
    );
    let body = client.chat_body(&prompt.with_reasoning_effort("low"));
    assert_eq!(body.get("reasoning"), Some(&json(r#"{"effort":"low"}"#)));
    let default = client.chat_body(&Prompt::new("s", "u"));
    assert_eq!(render(default.get("temperature").unwrap()), "0.20000000298023224");
}

fn concat_parts(parts: &[&str]) -> String {
    parts.join("")
}

#[test]
fn base64_matches_the_rfc_4648_vectors() {
    assert_eq!(encode_base64(b""), "");
    assert_eq!(encode_base64(b"f"), "Zg==");
    assert_eq!(encode_base64(b"fo"), "Zm8=");
    assert_eq!(encode_base64(b"foo"), "Zm9v");
    assert_eq!(encode_base64(b"foob"), "Zm9vYg==");
    assert_eq!(encode_base64(b"fooba"), "Zm9vYmE=");
    assert_eq!(encode_base64(b"foobar"), "Zm9vYmFy");
}

#[test]
fn base64_uses_its_whole_alphabet() {
    assert_eq!(encode_base64(&[0xfb, 0xff, 0xfe]), "+//+");
    assert_eq!(encode_base64(&[0, 16, 131, 16, 81, 135]), "ABCDEFGH");
    let all: Vec<u8> = (0..=255).collect();
    assert_eq!(encode_base64(&all).len(), 344);
}

#[test]
fn a_response_decodes_to_its_first_vector() {
    let body = r#"{"data":[{"embedding":[0.1,0.2,0.3],"index":0}],
        "model":"mtg/discogs-effnet"}"#;
    let embedding = decode_embedding(&json(body), None).unwrap();
    assert_eq!(embedding.vector, vec![single(0.1), single(0.2), single(0.3)]);
    assert_eq!(embedding.model.as_deref(), Some("mtg/discogs-effnet"));
}

#[test]
fn components_are_rounded_to_single_precision() {
    let read = |text: &str| {
        let body = format!(r#"{{"data":[{{"embedding":[{text}]}}]}}"#);
        f64::from_bits(decode_embedding(&json(&body), None).unwrap().vector[0].bits())
    };
    assert_eq!(read("0.1"), f64::from(0.1f32));
    assert_eq!(read("16777217"), 16777216.0);
    assert_eq!(read("-16777217"), -16777216.0);
    assert_eq!(read("18446744073709551615"), 18446744073709551616.0);
    assert_eq!(read("1e300"), f64::INFINITY);
    assert_eq!(read("-1e300"), f64::NEG_INFINITY);
    assert_eq!(read("1e-60").to_bits(), 0.0f64.to_bits());
    assert_eq!(read("-0.0").to_bits(), (-0.0f64).to_bits());
}

#[test]
fn the_resolved_model_header_wins_over_the_body() {
    let body = r#"{"data":[{"embedding":[1.0]}],"model":"body-model"}"#;
    let embedding = decode_embedding(&json(body), Some("header-model".to_owned())).unwrap();
    assert_eq!(embedding.model.as_deref(), Some("header-model"));
}

#[test]
fn an_api_error_or_an_empty_vector_fails_loud() {
    let error = json(r#"{"error":"no such model"}"#);
    assert!(matches!(decode_embedding(&error, None), Err(Error::Api(_))));

    let empty = json(r#"{"data":[]}"#);
    assert!(matches!(
        decode_embedding(&empty, None),
        Err(Error::EmptyEmbedding)
    ));
}

#[test]
fn an_embedding_response_of_the_wrong_shape_does_not_decode() {
    let fault = |text: &str| match decode_embedding(&json(text), None) {
        Err(Error::Decode { source, .. }) => source,
        other => panic!("{other:?}"),
    };
    assert_eq!(fault("7"), "invalid type: integer `7`, expected struct RawEmbedding");
    assert_eq!(fault(r#"{"data":null}"#), "invalid type: null, expected a sequence");
    assert_eq!(
        fault(r#"{"data":[{"embedding":[1]},3]}"#),
        "invalid type: integer `3`, expected struct RawEmbeddingData"
    );
    assert_eq!(
        fault(r#"{"data":[{"embedding":["x"]}]}"#),
        r#"invalid type: string "x", expected f32"#
    );
    assert_eq!(
        fault(r#"{"data":[{"embedding":[1]}],"model":3}"#),
        "invalid type: integer `3`, expected a string"
    );
    assert!(matches!(decode_embedding(&json("{}"), None), Err(Error::EmptyEmbedding)));
    assert!(matches!(decode_embedding(&json(r#"{"data":[{}]}"#), None), Err(Error::EmptyEmbedding)));
}

#[test]
fn scripted_embeddings_answer_in_queue_order_and_run_out_loudly() {
    let mut client =
        ScriptedEmbeddings::new(vec![r#"{"data":[{"embedding":[1.0,2.0]}]}"#.to_owned()]);
    let embedding = client.embed(&EmbedRequest::wav(vec![0u8; 8])).unwrap();
    assert_eq!(embedding.vector, vec![num(1.0), num(2.0)]);

    let mut empty = ScriptedEmbeddings::new(Vec::<String>::new());
    assert!(empty.embed(&EmbedRequest::wav(vec![])).is_err());
    assert!(ScriptedEmbeddings::default().embed(&EmbedRequest::wav(vec![])).is_err());
}

#[test]
fn the_body_of_an_embedding_call_carries_the_audio_as_base64() {
    let client = HttpClient::new("https://example.invalid", "k", "fpl/embed").unwrap();
    let body = client.embed_body(&EmbedRequest::wav(b"foobar".to_vec()));
    assert_eq!(
        render(&body),
        r#"{"model":"fpl/embed","input":[{"audio":"Zm9vYmFy","format":"wav"}]}"#
    );
    let reply = Reply {
        body: Ok(r#"{"data":[{"embedding":[2]}],"usage":{"input_tokens":3}}"#.to_owned()),
        resolved_model: None,
        elapsed: Duration::zero(),
        retries: 0,
    };
    let embedding = reply.embedded().unwrap();
    assert_eq!(embedding.vector, vec![num(2.0)]);
    assert_eq!(embedding.usage.unwrap().input_tokens, 3);
}
