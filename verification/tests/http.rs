use ooda::error::truncate;
use ooda::http::{backoff_secs, is_success, non_empty, Event, Reply, Step};
use ooda::json::parse;
use ooda::response::{decode_response, extract_error_message, into_answers, parse_body, raw_usage};
use ooda::{
    Answer, Criteria, Duration, Error, HttpClient, Json, Question, Real, Request, DEFAULT_BASE_URL,
    DEFAULT_MODEL, MAX_ATTEMPTS,
};

fn json(text: &str) -> Json {
    parse(text).unwrap()
}

fn num(x: f64) -> Real {
    Real::finite(&serde_json::Number::from_f64(x).unwrap())
}

fn confidence(body: &str, name: &str) -> Option<Real> {
    into_answers(&json(body)).unwrap().get(name).unwrap().confidence()
}

#[test]
fn a_blank_api_key_is_refused_before_any_request_is_made() {
    assert!(matches!(
        HttpClient::new(DEFAULT_BASE_URL, "   ", DEFAULT_MODEL),
        Err(Error::MissingApiKey(_))
    ));
}

#[test]
fn a_blank_env_value_is_treated_as_unset() {
    assert_eq!(non_empty(Some("".to_owned())), None);
    assert_eq!(non_empty(Some(" \t".to_owned())), None);
    assert_eq!(non_empty(None), None);
    assert_eq!(non_empty(Some(" x ".to_owned())), Some(" x ".to_owned()));
}

#[test]
fn settings_fall_back_to_the_defaults() {
    let client =
        HttpClient::from_settings(Some("k".to_owned()), Some("".to_owned()), Some(" ".to_owned()))
            .unwrap();
    assert_eq!(client.base_url(), DEFAULT_BASE_URL);
    assert_eq!(client.model(), DEFAULT_MODEL);
    let client = HttpClient::from_settings(
        Some("k".to_owned()),
        Some("https://other//".to_owned()),
        Some("m".to_owned()),
    )
    .unwrap();
    assert_eq!(client.base_url(), "https://other");
    assert_eq!(client.model(), "m");
    assert_eq!(client.api_key(), "k");
    assert!(matches!(
        HttpClient::from_settings(None, None, None),
        Err(Error::MissingApiKey("OODA_API_KEY"))
    ));
    assert!(matches!(
        HttpClient::from_settings(Some("".to_owned()), None, None),
        Err(Error::MissingApiKey("OODA_API_KEY"))
    ));
}

#[test]
fn the_endpoint_is_built_without_a_double_slash() {
    let client = HttpClient::new("https://ai.fpl.dev/", "k", "m").unwrap();
    assert_eq!(client.endpoint(), "https://ai.fpl.dev/v1/systemone");
}

#[test]
fn backoff_doubles_each_attempt() {
    assert_eq!(backoff_secs(1), 2);
    assert_eq!(backoff_secs(2), 4);
    assert_eq!(backoff_secs(3), 8);
    assert_eq!(backoff_secs(4), 16);
}

#[test]
fn backoff_grows_as_far_as_it_goes() {
    assert_eq!(backoff_secs(0), 1);
    assert_eq!(backoff_secs(63), 1 << 63);
    assert_eq!(backoff_secs(64), u64::MAX);
    assert_eq!(backoff_secs(u32::MAX), u64::MAX);
}

#[test]
fn extracts_flat_and_nested_error_shapes() {
    let flat = json(r#"{"error":"invalid api key"}"#);
    assert_eq!(extract_error_message(&flat), Some("invalid api key".into()));

    let nested = json(r#"{"error":{"message":"invalid api key","type":"x"}}"#);
    assert_eq!(
        extract_error_message(&nested),
        Some("invalid api key".into())
    );
}

#[test]
fn other_error_shapes_have_no_message() {
    for text in ["{}", r#"{"error":null}"#, r#"{"error":{"message":1}}"#, "[]", r#"{"error":[]}"#] {
        assert_eq!(extract_error_message(&json(text)), None);
    }
}

#[test]
fn confidence_is_backfilled_from_provider_metadata_when_absent_inline() {
    let body = r#"{
        "answers": {
            "edit_choice": { "type": "choice", "choice": "E1",
                "probabilities": {"E1": 0.67} }
        },
        "providerMetadata": {
            "typesafe": { "confidence": {"edit_choice": 0.56} }
        }
    }"#;
    assert_eq!(confidence(body, "edit_choice"), Some(num(0.56)));
}

#[test]
fn score_confidence_is_also_backfilled_from_provider_metadata() {
    let body = r#"{
        "answers": {
            "gain_character": { "type": "score", "score": 3,
                "probabilities": {"3": 1.0} }
        },
        "providerMetadata": {
            "typesafe": { "confidence": {"gain_character": 1.0} }
        }
    }"#;
    assert_eq!(confidence(body, "gain_character"), Some(num(1.0)));
}

#[test]
fn an_inline_confidence_is_never_overridden_by_provider_metadata() {
    let body = r#"{
        "answers": {
            "q": { "type": "choice", "choice": "a",
                "probabilities": {"a": 1.0}, "confidence": 0.42 }
        },
        "providerMetadata": { "typesafe": { "confidence": { "q": 0.99 } } }
    }"#;
    assert_eq!(confidence(body, "q"), Some(num(0.42)));
}

#[test]
fn a_null_confidence_is_backfilled_and_only_under_its_own_name() {
    let body = r#"{
        "answers": {
            "p": { "type": "score", "score": 1 },
            "q": { "type": "choice", "choice": "a", "confidence": null },
            "r": { "type": "boolean", "probability": 0.5 }
        },
        "providerMetadata": { "typesafe": { "confidence": { "q": 0.25, "r": 0.75 } } }
    }"#;
    assert_eq!(confidence(body, "p"), None);
    assert_eq!(confidence(body, "q"), Some(num(0.25)));
    assert_eq!(confidence(body, "r"), None);
}

#[test]
fn a_choice_answer_missing_confidence_in_both_places_still_fails_loud() {
    let body = json(r#"{"answers":{"q":{"type":"choice","choice":"a"}}}"#);
    assert!(into_answers(&body).is_err());
    let Err(Error::Decode { source, body }) = into_answers(&body) else {
        panic!("a decode error");
    };
    assert_eq!(source, "missing field `confidence`");
    assert_eq!(body, r#"{"type":"choice","choice":"a"}"#);
}

#[test]
fn unknown_response_fields_do_not_break_decoding() {
    let body = json(
        r#"{
            "answers": { "q": { "type": "choice", "choice": "a",
                "probabilities": {"a": 1.0}, "confidence": 1.0, "latency_ms": 12 } },
            "trace_id": "abc"
        }"#,
    );
    let answers = into_answers(&body).unwrap();
    assert_eq!(answers.get("q").unwrap().choice(), Some("a"));
}

#[test]
fn a_reported_error_fails_the_call_in_either_shape() {
    for body in [
        r#"{"error":"invalid api key"}"#,
        r#"{"error":{"message":"invalid api key","type":"x"}}"#,
        r#"{"answers":{"q":7},"error":"invalid api key"}"#,
    ] {
        let Err(Error::Api(message)) = decode_response(&json(body), None) else {
            panic!("an API error");
        };
        assert_eq!(message, "invalid api key");
    }
    assert!(decode_response(&json(r#"{"error":null}"#), None).is_ok());
    assert!(decode_response(&json(r#"{"error":{"code":3}}"#), None).is_ok());
}

#[test]
fn a_response_of_the_wrong_shape_does_not_decode() {
    let fault = |text: &str| match decode_response(&json(text), None) {
        Err(Error::Decode { source, .. }) => source,
        other => panic!("{other:?}"),
    };
    assert_eq!(fault("3"), "invalid type: integer `3`, expected struct RawResponse");
    assert_eq!(
        fault("[{},null,null,1]"),
        "invalid length 4, expected fewer elements in array"
    );
    assert_eq!(fault(r#"{"answers":null}"#), "invalid type: null, expected a map");
    assert_eq!(
        fault(r#"{"providerMetadata":3}"#),
        "invalid type: integer `3`, expected struct RawProviderMetadata"
    );
    assert_eq!(
        fault(r#"{"providerMetadata":{"typesafe":3}}"#),
        "invalid type: integer `3`, expected struct RawTypesafeMetadata"
    );
    assert_eq!(
        fault(r#"{"providerMetadata":{"typesafe":{"confidence":{"q":"x"}}},"answers":3}"#),
        r#"invalid type: string "x", expected f64"#
    );
    assert_eq!(
        fault(r#"{"error":"said first","answers":3}"#),
        "invalid type: integer `3`, expected a map"
    );
    let Err(Error::Decode { body, .. }) = parse_body("{") else {
        panic!("no JSON");
    };
    assert_eq!(body, "{");
}

#[test]
fn usage_and_the_model_are_kept_beside_the_answers() {
    let body = json(r#"{"answers":{},"usage":{"inputTokens":7}}"#);
    assert_eq!(raw_usage(&body).unwrap().input_tokens, 7);
    let outcome = decode_response(&body, Some("m".to_owned())).unwrap();
    assert_eq!(outcome.usage.unwrap().input_tokens, 7);
    assert_eq!(outcome.resolved_model.as_deref(), Some("m"));
    assert!(outcome.elapsed.is_none());
    assert!(raw_usage(&json(r#"{"usage":3}"#)).is_none());
}

#[test]
fn a_client_defaults_to_the_full_retry_ladder() {
    let client = HttpClient::new("https://example.invalid", "k", "m").unwrap();
    assert_eq!(client.max_attempts(), MAX_ATTEMPTS);
    assert_eq!(client.timeout(), Duration::from_secs(30));
}

#[test]
fn one_attempt_means_no_retry_at_all() {
    let client = HttpClient::new("https://example.invalid", "k", "m")
        .unwrap()
        .with_max_attempts(1);
    assert_eq!(client.max_attempts(), 1);
    let mut attempts = client.attempts();
    assert!(matches!(
        attempts.settle(&Event::Unsent("down".to_owned())),
        Step::Fail(Error::Exhausted { attempts: 1, .. })
    ));
    assert!(!attempts.left());
}

#[test]
fn an_attempt_budget_below_one_is_raised_rather_than_honored() {
    let client = HttpClient::new("https://example.invalid", "k", "m")
        .unwrap()
        .with_max_attempts(0);
    assert_eq!(client.max_attempts(), 1);
}

#[test]
fn a_timeout_can_be_tightened_for_an_interactive_caller() {
    let client = HttpClient::new("https://example.invalid", "k", "m")
        .unwrap()
        .with_timeout(Duration::from_millis(1500))
        .with_max_attempts(1);
    assert_eq!(client.max_attempts(), 1);
    assert_eq!(client.model(), "m");
    assert_eq!(client.base_url(), "https://example.invalid");
    assert_eq!(client.timeout(), Duration::from_millis(1500));
    assert_eq!(client.with_model("n").model(), "n");
}

fn answered(status: u16, retry_after: Option<&str>, body: &str) -> Event {
    Event::Answered {
        status,
        retry_after: retry_after.map(str::to_owned),
        body: Ok(body.to_owned()),
    }
}

#[test]
fn transient_failures_are_retried_until_the_budget_is_spent() {
    let client = HttpClient::new("https://example.invalid", "k", "m")
        .unwrap()
        .with_max_attempts(4);
    let mut attempts = client.attempts();
    assert!(matches!(
        attempts.settle(&Event::Unsent("down".to_owned())),
        Step::Wait { secs: 2 }
    ));
    assert!(matches!(
        attempts.settle(&answered(429, Some("7"), "slow")),
        Step::Wait { secs: 7 }
    ));
    assert!(matches!(
        attempts.settle(&answered(503, Some("7"), "busy")),
        Step::Wait { secs: 8 }
    ));
    assert!(attempts.left());
    let Step::Fail(Error::Exhausted { attempts: made, message }) =
        attempts.settle(&answered(503, None, "busy"))
    else {
        panic!("exhausted");
    };
    assert_eq!(made, 4);
    assert_eq!(message, "HTTP 503 Service Unavailable: busy");
}

#[test]
fn an_unusual_server_error_is_named_as_such() {
    let client = HttpClient::new("https://example.invalid", "k", "m")
        .unwrap()
        .with_max_attempts(1);
    let Step::Fail(Error::Exhausted { message, .. }) =
        client.attempts().settle(&answered(599, None, "odd"))
    else {
        panic!("exhausted");
    };
    assert_eq!(message, "HTTP 599 <unknown status code>: odd");
}

#[test]
fn a_rate_limit_without_a_number_backs_off() {
    let client = HttpClient::new("https://example.invalid", "k", "m").unwrap();
    for header in [None, Some("soon"), Some("-1"), Some(" 7"), Some("")] {
        let mut attempts = client.attempts();
        assert!(matches!(
            attempts.settle(&answered(429, header, "slow")),
            Step::Wait { secs: 2 }
        ));
    }
    let mut attempts = client.attempts();
    assert!(matches!(
        attempts.settle(&answered(429, Some("+9"), "slow")),
        Step::Wait { secs: 9 }
    ));
    let mut last = client.with_max_attempts(1).attempts();
    let Step::Fail(Error::Exhausted { message, .. }) =
        last.settle(&answered(429, Some("7"), "slow"))
    else {
        panic!("exhausted");
    };
    assert_eq!(message, "rate limited (429): slow");
}

#[test]
fn a_refusal_is_final_and_speaks_in_the_endpoints_own_words() {
    let client = HttpClient::new("https://example.invalid", "k", "m").unwrap();
    let refused = |body: &str| match client.attempts().settle(&answered(404, Some("7"), body)) {
        Step::Fail(Error::Status { status: 404, message }) => message,
        other => panic!("{other:?}"),
    };
    assert_eq!(refused(r#"{"error":{"message":"no backend"}}"#), "no backend");
    assert_eq!(refused("<html>"), "<html>");
    assert_eq!(refused("{}"), "{}");
    assert!(matches!(
        client.attempts().settle(&Event::Answered {
            status: 500,
            retry_after: None,
            body: Err("cut off".to_owned()),
        }),
        Step::Fail(Error::Transport(_))
    ));
}

#[test]
fn a_success_is_accepted_with_its_retries() {
    let client = HttpClient::new("https://example.invalid", "k", "m").unwrap();
    let mut attempts = client.attempts();
    let _ = attempts.settle(&Event::Unsent("down".to_owned()));
    assert!(matches!(
        attempts.settle(&answered(204, None, "")),
        Step::Accept { retries: 1 }
    ));
    assert!(is_success(299) && is_success(200) && !is_success(300) && !is_success(199));
}

#[test]
fn the_body_of_a_call_names_the_model_the_state_and_the_questions() {
    let client = HttpClient::new("https://example.invalid", "k", "m").unwrap();
    let request = Request::new(json(r#"{"s":1}"#))
        .with("z", Question::noul("sure?"))
        .with("a", Question::choice("pick", Criteria::from_pairs(&[("x", "y")])));
    assert_eq!(
        ooda::json::render(&client.decide_body(&request)),
        concat_lines(&[
            r#"{"model":"m","state":{"s":1},"questions":{"#,
            r#""a":{"type":"choice","instructions":"pick","criteria":{"x":"y"}},"#,
            r#""z":{"type":"boolean","instructions":"sure?"}}}"#,
        ])
    );
}

fn concat_lines(parts: &[&str]) -> String {
    parts.join("")
}

#[test]
fn an_accepted_reply_is_timed_and_counted() {
    let reply = |body: Result<&str, &str>| Reply {
        body: body.map(str::to_owned).map_err(str::to_owned),
        resolved_model: Some("m".to_owned()),
        elapsed: Duration::from_millis(5),
        retries: 2,
    };
    let outcome = reply(Ok(r#"{"answers":{"q":{"type":"boolean","probability":1}}}"#))
        .decided()
        .unwrap();
    assert_eq!(outcome.elapsed, Some(Duration::from_millis(5)));
    assert_eq!(outcome.retries, Some(2));
    assert!(matches!(outcome.answer("q"), Ok(Answer::Noul { .. })));
    assert!(matches!(outcome.answer("p"), Err(Error::MissingAnswer(name)) if name == "p"));
    assert!(matches!(reply(Err("cut off")).decided(), Err(Error::Transport(_))));
    assert!(matches!(reply(Ok("nonsense")).decided(), Err(Error::Decode { .. })));
}

#[test]
fn a_long_body_is_cut_on_a_character_boundary() {
    assert_eq!(truncate("short"), "short");
    let exact = "x".repeat(512);
    assert_eq!(truncate(&exact), exact);
    let long = "x".repeat(513);
    assert_eq!(truncate(&long), format!("{}... (513 bytes total)", "x".repeat(512)));
    let wide = format!("{}é{}", "x".repeat(511), "y".repeat(10));
    assert_eq!(truncate(&wide), format!("{}... (523 bytes total)", "x".repeat(511)));
}

#[test]
fn every_error_has_its_message() {
    let cases: Vec<(Error, &str)> = vec![
        (
            Error::MissingApiKey("OODA_API_KEY"),
            "OODA_API_KEY is not set; a decide() call needs a bearer token",
        ),
        (Error::Transport("dns".into()), "transport failed: dns"),
        (Error::Status { status: 404, message: "no".into() }, "HTTP 404: no"),
        (Error::Api("bad".into()), "decision endpoint reported an error: bad"),
        (
            Error::Exhausted { attempts: 3, message: "busy".into() },
            "gave up after 3 attempt(s): busy",
        ),
        (
            Error::Decode { source: "eof".into(), body: "{".into() },
            "response did not decode: eof; body was: {",
        ),
        (Error::MissingAnswer("q\n".into()), r#"no answer for question "q\n""#),
        (
            Error::WrongAnswerKind { question: "q".into(), expected: "choice" },
            r#"question "q" expected a choice answer but got a different kind"#,
        ),
        (
            Error::TooManyStages(16),
            "staged decision chain exceeded 16 stages without stopping",
        ),
        (
            Error::Capture { path: "p".into(), source: "full".into() },
            "capture log p: full",
        ),
        (
            Error::UnknownChoice { question: "q".into(), chosen: "x".into() },
            r#"question "q" answered with unknown choice "x""#,
        ),
        (Error::EmptyCompletion, "the completion carried no content"),
        (Error::EmptyEmbedding, "the embedding carried no vector"),
    ];
    for (error, message) in cases {
        assert_eq!(error.message(), message);
    }
}

#[test]
fn a_whole_call_waits_once_per_retry() {
    let client = HttpClient::new("https://example.invalid", "k", "m").unwrap();
    let events = [
        Event::Unsent("down".to_owned()),
        answered(429, Some("7"), "slow"),
        answered(500, None, "oops"),
        answered(200, None, ""),
        Event::Unsent("never made".to_owned()),
    ];
    let mut attempts = client.attempts();
    let mut waits = Vec::new();
    let mut retried = None;
    for event in &events {
        match attempts.settle(event) {
            Step::Wait { secs } => waits.push(secs),
            Step::Accept { retries } => {
                retried = Some(retries);
                break;
            }
            Step::Fail(error) => panic!("{error:?}"),
        }
    }
    assert_eq!(waits, [2, 7, 8]);
    assert_eq!(retried, Some(3));
    assert_eq!(attempts.made, 4);
}
