use ooda::capture::{is_full, new_run_id, rolled_name, settle};
use ooda::json::{parse, render};
use ooda::{
    Answer, Capture, Client, Criteria, Duration, Error, HttpClient, Json, NameMap, Outcome,
    Question, Real, Request, ScriptedClient, Usage, MAX_CAPTURE_LOG_BYTES,
};

fn json(text: &str) -> Json {
    parse(text).unwrap()
}

fn num(x: f64) -> Real {
    Real::finite(&serde_json::Number::from_f64(x).unwrap())
}

const REPLY: &str = r#"{"answers":{"q":{"type":"choice","choice":"a","confidence":1.0}}}"#;

fn question() -> Question {
    Question::choice("pick", Criteria::from_pairs(&[("a", "first")]))
}

struct Log<C> {
    inner: C,
    capture: Capture,
    lines: Vec<String>,
}

impl<C: Client> Log<C> {
    fn new(inner: C, capture: Capture) -> Self {
        Log { inner, capture, lines: Vec::new() }
    }

    fn decide(&mut self, request: &Request) -> Result<Outcome, Error> {
        let result = self.inner.decide(request);
        let record = self.capture.next_record(request, &result, 1234);
        self.lines.push(record.line());
        settle(Ok(()), result)
    }

    fn rows(&self) -> Vec<Json> {
        self.lines.iter().map(|line| json(line)).collect()
    }
}

fn scripted(bodies: &[&str]) -> ScriptedClient {
    ScriptedClient::new(bodies.iter().map(|body| body.to_string()).collect())
}

fn step<'a>(row: &'a Json, path: &[&str]) -> Option<&'a Json> {
    path.iter().try_fold(row, |at, key| at.get(key))
}

#[test]
fn a_correlation_is_written_and_absent_when_unset() {
    let mut client = Log::new(scripted(&[REPLY, REPLY]), Capture::new("run"));
    client
        .decide(&Request::single(json(r#"{"s": 1}"#), "q", question()).correlated("call-7"))
        .unwrap();
    client
        .decide(&Request::single(json(r#"{"s": 2}"#), "q", question()))
        .unwrap();
    let rows = client.rows();
    assert_eq!(rows[0].get("correlation").unwrap().as_str(), Some("call-7"));
    assert!(rows[1].get("correlation").is_none());
}

#[test]
fn a_correlation_is_never_transmitted() {
    let request = Request::single(json(r#"{"s": 1}"#), "q", question())
        .correlated("secret-internal-id");
    let client = HttpClient::new("https://example.invalid", "k", "m").unwrap();
    let body = client.decide_body(&request);
    assert!(
        !render(&body).contains("secret-internal-id"),
        "the correlation must not appear anywhere in a transmitted body"
    );
    assert!(!render(&request.wire()).contains("secret-internal-id"));
}

struct Baseline;

impl Client for Baseline {
    fn decide(&mut self, _request: &Request) -> Result<Outcome, Error> {
        Ok(Outcome::answered(vec![(
            "q".to_owned(),
            Answer::Choice {
                choice: "a".to_owned(),
                probabilities: NameMap::new(),
                confidence: num(1.0),
            },
        )]))
    }
}

struct Teacher;

impl Client for Teacher {
    fn decide(&mut self, request: &Request) -> Result<Outcome, Error> {
        let speed = request.observation.get("speed").and_then(Json::as_unsigned).unwrap_or(0);
        let choice = if speed > 190 { "brake" } else { "accelerate" };
        Ok(Outcome::answered(vec![(
            "action".to_owned(),
            Answer::Choice {
                choice: choice.to_owned(),
                probabilities: NameMap::new(),
                confidence: num(1.0),
            },
        )]))
    }
}

#[test]
fn a_locally_answered_decision_captures_like_any_other() {
    let mut client = Log::new(Baseline, Capture::new("run"));
    let outcome = client
        .decide(&Request::single(json(r#"{"s": 1}"#), "q", question()).correlated("teacher-1"))
        .unwrap();
    assert!(matches!(outcome.answer("q").unwrap(), Answer::Choice { .. }));
    let row = &client.rows()[0];
    assert_eq!(row.get("correlation").unwrap().as_str(), Some("teacher-1"));
    assert_eq!(
        step(row, &["outcome", "answers", "q", "choice"]).unwrap().as_str(),
        Some("a")
    );
    assert!(step(row, &["request", "observation"]).is_some());
    assert!(step(row, &["outcome", "resolved_model"]).unwrap().is_null());
}

#[test]
fn records_from_different_runs_are_distinguishable_in_one_log() {
    let ids = [new_run_id(7, 1), new_run_id(7, 2)];
    assert_ne!(ids[0], ids[1]);
    let rows: Vec<Json> = ids
        .iter()
        .map(|id| {
            let capture = Capture::new(id);
            assert_eq!(capture.run_id(), id);
            let mut client = Log::new(scripted(&[REPLY]), capture);
            client.decide(&Request::single(json(r#"{"s": 1}"#), "q", question())).unwrap();
            client.rows()[0].clone()
        })
        .collect();
    assert_eq!(rows[0].get("sequence").unwrap().as_unsigned(), Some(0));
    assert_eq!(rows[1].get("sequence").unwrap().as_unsigned(), Some(0));
    assert_ne!(rows[0].get("run_id"), rows[1].get("run_id"));
}

#[test]
fn labels_are_written_and_absent_when_unset() {
    let labels = vec![
        ("policy".to_owned(), "x".to_owned()),
        ("game".to_owned(), "tetris".to_owned()),
        ("policy".to_owned(), "teacher".to_owned()),
    ];
    let mut client = Log::new(scripted(&[REPLY]), Capture::new("run").labelled(labels));
    client.decide(&Request::single(json(r#"{"s": 1}"#), "q", question())).unwrap();
    assert_eq!(
        client.rows()[0].get("labels"),
        Some(&json(r#"{"game":"tetris","policy":"teacher"}"#))
    );

    let mut client = Log::new(scripted(&[REPLY]), Capture::new("run"));
    client.decide(&Request::single(json(r#"{"s": 1}"#), "q", question())).unwrap();
    assert!(client.rows()[0].get("labels").is_none(), "empty labels should be omitted");
}

#[test]
fn a_successful_call_is_captured_with_its_outcome() {
    let body = r#"{"answers":{"q":{"type":"choice","choice":"a","confidence":0.9}}}"#;
    let mut client = Log::new(scripted(&[body]), Capture::new("run"));
    client.decide(&Request::single(json(r#"{"x": 1}"#), "q", question())).unwrap();
    let record = &client.rows()[0];
    assert_eq!(
        step(record, &["request", "observation", "x"]).unwrap().as_unsigned(),
        Some(1)
    );
    assert_eq!(
        step(record, &["outcome", "answers", "q", "choice"]).unwrap().as_str(),
        Some("a")
    );
    assert!(record.get("error").is_none());
}

#[test]
fn a_failed_call_is_captured_with_its_error_and_still_returns_it() {
    let mut client = Log::new(scripted(&[]), Capture::new("run"));
    let result = client.decide(&Request::single(json("{}"), "q", question()));
    assert!(result.is_err());
    let record = &client.rows()[0];
    assert!(record.get("outcome").is_none());
    assert_eq!(
        record.get("error").unwrap().as_str(),
        Some("transport failed: scripted client ran out of responses")
    );
}

#[test]
fn sequence_increments_across_calls_and_both_land_in_the_same_log() {
    let mut client = Log::new(scripted(&[REPLY, REPLY]), Capture::new("run"));
    let request = Request::single(json("{}"), "q", question());
    client.decide(&request).unwrap();
    client.decide(&request).unwrap();
    let rows = client.rows();
    assert_eq!(rows.len(), 2);
    assert_eq!(rows[0].get("sequence").unwrap().as_unsigned(), Some(0));
    assert_eq!(rows[1].get("sequence").unwrap().as_unsigned(), Some(1));
}

#[test]
fn a_record_is_one_line_in_a_fixed_order() {
    let mut capture =
        Capture::new("r").labelled(vec![("game".to_owned(), "smk".to_owned())]);
    let request = Request::single(json("[1]"), "q", Question::noul("sure?")).correlated("c");
    let mut outcome =
        Outcome::answered(vec![("q".to_owned(), Answer::Noul { noul: num(0.5) })])
            .with_elapsed(Duration::from_millis(7))
            .with_retries(2);
    outcome.usage = Some(Usage { input_tokens: 3, output_tokens: 0 });
    outcome.resolved_model = Some("m".to_owned());
    let record = capture.next_record(&request, &Ok(outcome), 99);
    assert_eq!(
        record.line(),
        [
            r#"{"schema_version":1,"run_id":"r","sequence":0,"at_unix_ms":99,"correlation":"c","#,
            r#""request":{"observation":[1],"questions":{"q":{"type":"boolean","instructions":"sure?"}}},"#,
            r#""outcome":{"answers":{"q":{"type":"boolean","probability":0.5}},"#,
            r#""usage":{"input_tokens":3,"output_tokens":0},"resolved_model":"m","elapsed_ms":7,"#,
            r#""retries":2},"labels":{"game":"smk"}}"#,
            "\n",
        ]
        .join("")
    );
}

#[test]
fn a_decision_that_could_not_be_logged_is_an_error() {
    let unwritten = || Error::Capture { path: "p".into(), source: "full".into() };
    let outcome = || Outcome::answered(vec![]);
    assert!(settle(Ok(()), Ok(outcome())).is_ok());
    assert!(matches!(settle(Err(unwritten()), Ok(outcome())), Err(Error::Capture { .. })));
    assert!(matches!(
        settle(Err(unwritten()), Err(Error::EmptyCompletion)),
        Err(Error::EmptyCompletion)
    ));
    assert!(matches!(settle(Ok(()), Err(Error::EmptyCompletion)), Err(Error::EmptyCompletion)));
}

#[test]
fn a_log_rolls_over_past_its_cap() {
    assert_eq!(MAX_CAPTURE_LOG_BYTES, 67_108_864);
    assert!(!is_full(MAX_CAPTURE_LOG_BYTES));
    assert!(is_full(MAX_CAPTURE_LOG_BYTES + 1));
    assert_eq!(rolled_name("decisions.jsonl"), "decisions.jsonl.1");
    assert_eq!(new_run_id(255, 0), "ff-0");
    assert_eq!(new_run_id(0, u128::MAX), format!("0-{}", "f".repeat(32)));
}

#[test]
fn a_deterministic_teacher_chains_the_same_way() {
    let labels = vec![
        ("game".to_owned(), "smk".to_owned()),
        ("policy".to_owned(), "teacher".to_owned()),
    ];
    let mut client = Log::new(Teacher, Capture::new("run").labelled(labels));

    let mut offered = Criteria::new();
    offered.push("accelerate", "Hold the throttle");
    offered.push("brake", "Slow for the corner");
    client
        .decide(
            &Request::single(
                json(r#"{"speed": 195}"#),
                "action",
                Question::choice("Drive the kart", offered),
            )
            .correlated("smk-teacher-0"),
        )
        .expect("a local policy decides");

    let row = &client.rows()[0];
    assert_eq!(row.get("correlation").unwrap().as_str(), Some("smk-teacher-0"));
    assert_eq!(step(row, &["labels", "policy"]).unwrap().as_str(), Some("teacher"));
    assert_eq!(
        step(row, &["outcome", "answers", "action", "choice"]).unwrap().as_str(),
        Some("brake")
    );
    assert_eq!(
        step(row, &["request", "observation", "speed"]).unwrap().as_unsigned(),
        Some(195),
        "a demonstration is trainable only with the observation it answered"
    );
    assert!(
        step(row, &["outcome", "resolved_model"]).map_or(true, Json::is_null),
        "no endpoint answered, so no model may be claimed"
    );
}

#[test]
fn a_captured_decision_rejoins_the_consequence_of_acting_on_it() {
    let reply = r#"{"answers":{"action":{"type":"choice","choice":"accelerate","confidence":0.6,"probabilities":{"accelerate":0.7,"brake":0.3}}}}"#;
    let capture = Capture::new("run").labelled(vec![
        ("game".to_owned(), "smk".to_owned()),
        ("policy".to_owned(), "rollout".to_owned()),
    ]);
    let run_id = capture.run_id().to_owned();
    let mut client = Log::new(scripted(&[reply, reply]), capture);

    let mut consequences = Vec::new();
    let mut score = 100_u64;
    for turn in 0..2 {
        let correlation = format!("smk-session-{turn}");
        let mut offered = Criteria::new();
        offered.push("accelerate", "Hold the throttle");
        offered.push("brake", "Slow for the corner");
        let observation = format!(r#"{{"speed": {}, "score": {score}}}"#, 180 + turn);
        let request = Request::single(
            json(&observation),
            "action",
            Question::choice("Drive the kart", offered),
        )
        .correlated(&correlation);

        let outcome = client.decide(&request).expect("a scripted decision");
        let Answer::Choice { choice, .. } = outcome.answer("action").expect("an action") else {
            panic!("a choice question must yield a choice answer");
        };
        let before = score;
        score = if choice == "accelerate" { score + 10 } else { score - 2 };
        consequences.push((correlation, choice.clone(), before, score));
    }

    let captured = client.rows();
    assert_eq!(captured.len(), 2);
    for (correlation, executed, score_before, score_after) in &consequences {
        let decision = captured
            .iter()
            .find(|row| row.get("correlation").unwrap().as_str() == Some(correlation))
            .unwrap();
        assert_eq!(
            step(decision, &["request", "observation", "score"]).unwrap().as_unsigned(),
            Some(*score_before),
            "the state in the capture must be the state the caller acted from"
        );
        assert_eq!(
            step(decision, &["outcome", "answers", "action", "choice"]).unwrap().as_str(),
            Some(executed.as_str())
        );
        assert_eq!(score_after - score_before, 10, "reward is computable only after the join");
        assert_eq!(step(decision, &["labels", "game"]).unwrap().as_str(), Some("smk"));
        assert_eq!(decision.get("run_id").unwrap().as_str(), Some(run_id.as_str()));
    }
    assert!(
        captured.iter().all(|row| row.get("run_id").unwrap().as_str() == Some(&run_id)),
        "one run's records must share one run id"
    );
}
