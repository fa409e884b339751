use ooda::json::parse;
use ooda::{
    decide_choice, decide_choice_traced, decide_speculative, decide_staged, Answer, ChoiceSpace,
    Client, Criteria, Decision, Duration, Error, Json, Ledger, Outcome, Question, Real, Request,
    RunningBest, ScriptedClient, Speculation, Trace, MAX_STAGES,
};

fn json(text: &str) -> Json {
    parse(text).unwrap()
}

fn num(x: f64) -> Real {
    Real::finite(&serde_json::Number::from_f64(x).unwrap())
}

fn pick(pairs: &[(&str, &str)]) -> Question {
    Question::choice("pick", Criteria::from_pairs(pairs))
}

#[test]
fn answers_in_queue_order_and_records_the_real_wire_request() {
    let mut client = ScriptedClient::new(vec![
        r#"{"answers":{"q":{"type":"choice","choice":"a","confidence":0.9}}}"#.to_owned(),
    ])
    .with_resolved_model("fpl/decide-v3");
    let request = Request::single(json(r#"{"k": 1}"#), "q", pick(&[("a", "desc")]));
    let outcome = client.decide(&request).unwrap();
    assert_eq!(outcome.resolved_model.as_deref(), Some("fpl/decide-v3"));
    assert_eq!(outcome.answer("q").unwrap().choice(), Some("a"));
    let state = client.requests()[0].get("state").unwrap();
    assert_eq!(state.get("k").unwrap().as_unsigned(), Some(1));
}

#[test]
fn running_out_of_responses_is_an_error_not_a_panic() {
    let mut client = ScriptedClient::new(Vec::<String>::new());
    let request = Request::single(json("{}"), "q", pick(&[("a", "desc")]));
    assert!(client.decide(&request).is_err());
}

#[test]
fn a_scripted_client_logs_every_request_and_answers_each_once() {
    let mut client = ScriptedClient::new(vec![
        r#"{"answers":{"q":{"type":"boolean","probability":0.25}}}"#.to_owned(),
        "not json".to_owned(),
        r#"{"answers":{"q":{"type":"boolean","probability":0.75}}}"#.to_owned(),
    ]);
    let request = Request::single(json("{}"), "q", Question::noul("sure?"));
    assert_eq!(client.decide(&request).unwrap().answer("q").unwrap().noul(), Some(num(0.25)));
    assert!(matches!(client.decide(&request), Err(Error::Decode { .. })));
    assert_eq!(client.decide(&request).unwrap().answer("q").unwrap().noul(), Some(num(0.75)));
    assert!(matches!(client.decide(&request), Err(Error::Transport(_))));
    assert_eq!(client.requests().len(), 4);
    assert_eq!(
        client.requests()[3],
        json(r#"{"state":{},"questions":{"q":{"type":"boolean","instructions":"sure?"}}}"#)
    );
}

#[derive(Debug, Clone, Copy, PartialEq, Eq)]
enum EditChoice {
    MoveIt,
    OpenIt,
    Abstain,
}

impl ChoiceSpace for EditChoice {
    fn options() -> Criteria {
        Criteria::from_pairs(&[
            ("move_it", "Move the feature to clear the anchor"),
            ("open_it", "Open a relief pocket instead"),
            ("none", "Neither applies; abstain"),
        ])
    }

    fn from_key(key: &str) -> Option<Self> {
        match key {
            "move_it" => Some(EditChoice::MoveIt),
            "open_it" => Some(EditChoice::OpenIt),
            "none" => Some(EditChoice::Abstain),
            _ => None,
        }
    }
}

#[test]
fn resolves_a_declared_key_into_its_variant() {
    let mut client = ScriptedClient::new(vec![
        r#"{"answers":{"edit_choice":{"type":"choice","choice":"move_it",
            "probabilities":{"move_it":0.9},"confidence":0.9}}}"#
            .to_owned(),
    ]);
    let decision: Decision<EditChoice> =
        decide_choice(&mut client, json("{}"), "edit_choice", "pick one").unwrap();
    assert_eq!(decision.answer, EditChoice::MoveIt);
    assert_eq!(decision.confidence, num(0.9));
}

#[test]
fn a_key_outside_the_declared_set_fails_loud() {
    let mut client = ScriptedClient::new(vec![
        r#"{"answers":{"edit_choice":{"type":"choice","choice":"delete_it",
            "confidence":0.9}}}"#
            .to_owned(),
    ]);
    let result: Result<Decision<EditChoice>, Error> =
        decide_choice(&mut client, json("{}"), "edit_choice", "pick one");
    assert!(matches!(result, Err(Error::UnknownChoice { .. })));
}

#[test]
fn traced_variant_appends_a_record() {
    let mut client = ScriptedClient::new(vec![
        r#"{"answers":{"edit_choice":{"type":"choice","choice":"none",
            "confidence":0.7}}}"#
            .to_owned(),
    ]);
    let mut trace = Trace::new();
    let decision: Decision<EditChoice> = decide_choice_traced(
        &mut client,
        json("{}"),
        "edit_choice",
        "pick one",
        &mut trace,
    )
    .unwrap();
    assert_eq!(decision.answer, EditChoice::Abstain);
    assert_eq!(trace.records().len(), 1);
    assert_eq!(trace.records()[0].chosen, "none");
}

#[test]
fn a_traced_choice_is_the_plain_one_with_a_record_of_the_answer() {
    let bodies = [
        r#"{"answers":{"edit_choice":{"type":"choice","choice":"move_it","confidence":0.9}}}"#,
        r#"{"answers":{"edit_choice":{"type":"choice","choice":"delete_it","confidence":0.9}}}"#,
        r#"{"answers":{"edit_choice":{"type":"boolean","probability":0.7}}}"#,
        r#"{"answers":{}}"#,
        "{",
    ];
    let recorded = [1, 1, 1, 0, 0];
    for (body, recorded) in bodies.into_iter().zip(recorded) {
        let mut client = ScriptedClient::new(vec![body.to_owned(), body.to_owned()]);
        let mut trace = Trace::new();
        let plain: Result<Decision<EditChoice>, Error> =
            decide_choice(&mut client, json("{}"), "edit_choice", "pick");
        let traced: Result<Decision<EditChoice>, Error> =
            decide_choice_traced(&mut client, json("{}"), "edit_choice", "pick", &mut trace);
        assert_eq!(format!("{plain:?}"), format!("{traced:?}"));
        assert_eq!(trace.records().len(), recorded);
        assert_eq!(client.requests()[0], client.requests()[1]);
    }
}

#[test]
fn a_choice_that_comes_back_as_something_else_is_an_error_of_its_own() {
    let bodies = vec![
        r#"{"answers":{"edit_choice":{"type":"boolean","probability":0.7}}}"#.to_owned(),
        r#"{"answers":{}}"#.to_owned(),
    ];
    let mut client = ScriptedClient::new(bodies);
    let mut trace = Trace::new();
    let wrong: Result<Decision<EditChoice>, Error> =
        decide_choice_traced(&mut client, json("{}"), "edit_choice", "pick", &mut trace);
    assert!(matches!(wrong, Err(Error::WrongAnswerKind { expected: "choice", .. })));
    assert_eq!(trace.records().len(), 1);
    let missing: Result<Decision<EditChoice>, Error> =
        decide_choice_traced(&mut client, json("{}"), "edit_choice", "pick", &mut trace);
    assert!(matches!(missing, Err(Error::MissingAnswer(_))));
    assert_eq!(trace.records().len(), 1);
    assert_eq!(
        client.requests()[0].get("questions").unwrap().get("edit_choice").unwrap(),
        &Question::choice("pick", EditChoice::options()).wire()
    );
}

#[test]
fn a_single_stage_chain_stops_when_next_returns_none() {
    let mut client = ScriptedClient::new(vec![
        r#"{"answers":{"category":{"type":"choice","choice":"hole","confidence":0.9}}}"#
            .to_owned(),
    ]);
    let first = Request::single(
        json("{}"),
        "category",
        Question::choice(
            "pick a move category",
            Criteria::from_pairs(&[("hole", "add a hole")]),
        ),
    );
    let mut trace = Trace::new();
    let outcomes = decide_staged(&mut client, first, &mut trace, |_outcome| None).unwrap();

    assert_eq!(outcomes.len(), 1);
    assert_eq!(trace.records().len(), 1);
    assert_eq!(trace.records()[0].key, "category");
}

#[test]
fn stage_two_is_built_from_stage_ones_answer_and_both_are_traced() {
    let mut client = ScriptedClient::new(vec![
        r#"{"answers":{"category":{"type":"choice","choice":"hole","confidence":0.9}}}"#
            .to_owned(),
        r#"{"answers":{
            "entry":{"type":"choice","choice":"countersink","confidence":0.8},
            "threaded":{"type":"boolean","probability":0.1}
        }}"#
        .to_owned(),
    ]);
    let first = Request::single(
        json("{}"),
        "category",
        Question::choice(
            "pick a move category",
            Criteria::from_pairs(&[("hole", "add a hole"), ("pocket", "add a pocket")]),
        ),
    );
    let mut trace = Trace::new();
    let mut asked_category: Option<String> = None;
    let outcomes = decide_staged(&mut client, first, &mut trace, |outcome: &Outcome| {
        let category = outcome.answer("category").ok()?.choice()?.to_owned();
        asked_category = Some(category.clone());
        if category != "hole" {
            return None;
        }
        Some(
            Request::new(json("{}"))
                .with(
                    "entry",
                    Question::choice(
                        "entry treatment",
                        Criteria::from_pairs(&[
                            ("none", "no chamfer"),
                            ("countersink", "countersunk entry"),
                        ]),
                    ),
                )
                .with("threaded", Question::noul("is this hole threaded?")),
        )
    })
    .unwrap();

    assert_eq!(asked_category.as_deref(), Some("hole"));
    assert_eq!(outcomes.len(), 2);
    assert_eq!(
        outcomes[1].answer("entry").unwrap().choice(),
        Some("countersink")
    );

    let keys: Vec<&str> = trace.records().iter().map(|r| r.key.as_str()).collect();
    assert_eq!(keys, ["category", "entry", "threaded"]);
}

#[test]
fn a_continuation_that_never_stops_is_refused_not_run_forever() {
    let bodies: Vec<String> = (0..MAX_STAGES + 5)
        .map(|_| {
            r#"{"answers":{"q":{"type":"choice","choice":"a","confidence":0.9}}}"#.to_owned()
        })
        .collect();
    let mut client = ScriptedClient::new(bodies);
    let first = Request::single(json("{}"), "q", pick(&[("a", "desc")]));
    let mut trace = Trace::new();
    let result = decide_staged(&mut client, first, &mut trace, |_outcome| {
        Some(Request::single(json("{}"), "q", pick(&[("a", "desc")])))
    });
    assert!(matches!(result, Err(Error::TooManyStages(n)) if n == MAX_STAGES));
    assert_eq!(client.requests().len() as u32, MAX_STAGES);
    assert_eq!(trace.records().len() as u32, MAX_STAGES);
}

#[test]
fn a_stage_that_fails_leaves_the_earlier_ones_in_the_trace() {
    let mut client = ScriptedClient::new(vec![
        r#"{"answers":{"q":{"type":"choice","choice":"a","confidence":0.9}}}"#.to_owned(),
    ]);
    let first = Request::single(json("{}"), "q", pick(&[("a", "desc")]));
    let again = first.clone();
    let mut trace = Trace::new();
    let result = decide_staged(&mut client, first, &mut trace, |_outcome| Some(again.clone()));
    assert!(matches!(result, Err(Error::Transport(_))));
    assert_eq!(trace.records().len(), 1);
}

#[test]
fn only_the_resolved_branch_is_kept_and_traced() {
    let mut client = ScriptedClient::new(vec![r#"{"answers":{
        "category":{"type":"choice","choice":"pocket","confidence":0.9},
        "hole":{"type":"choice","choice":"countersink","confidence":0.4},
        "pocket":{"type":"choice","choice":"through","confidence":0.8}
    }}"#
    .to_owned()]);

    let speculation = Speculation::new(
        "category",
        Question::choice(
            "pick a category",
            Criteria::from_pairs(&[("hole", "add a hole"), ("pocket", "add a pocket")]),
        ),
    )
    .branch(
        "hole",
        Question::choice(
            "entry treatment",
            Criteria::from_pairs(&[("countersink", "countersunk"), ("none", "plain")]),
        ),
    )
    .branch(
        "pocket",
        Question::choice(
            "depth",
            Criteria::from_pairs(&[("through", "through pocket"), ("blind", "blind pocket")]),
        ),
    );

    let mut trace = Trace::new();
    let resolved =
        decide_speculative(&mut client, json("{}"), speculation, &mut trace).unwrap();

    assert_eq!(resolved.root.choice(), Some("pocket"));
    assert_eq!(resolved.branch.as_ref().and_then(Answer::choice), Some("through"));

    let keys: Vec<&str> = trace.records().iter().map(|r| r.key.as_str()).collect();
    assert_eq!(keys, ["category", "pocket"]);
    assert!(trace.all_at_least(&num(0.8)));
}

#[test]
fn a_resolved_key_with_no_registered_branch_is_a_valid_leaf_not_an_error() {
    let mut client = ScriptedClient::new(vec![r#"{"answers":{
        "category":{"type":"choice","choice":"none","confidence":0.95}
    }}"#
    .to_owned()]);

    let speculation = Speculation::new(
        "category",
        Question::choice(
            "pick a category",
            Criteria::from_pairs(&[("hole", "add a hole"), ("none", "no change")]),
        ),
    )
    .branch(
        "hole",
        Question::choice(
            "entry treatment",
            Criteria::from_pairs(&[("countersink", "countersunk")]),
        ),
    );

    let mut trace = Trace::new();
    let resolved =
        decide_speculative(&mut client, json("{}"), speculation, &mut trace).unwrap();

    assert_eq!(resolved.root.choice(), Some("none"));
    assert_eq!(resolved.branch, None);
    assert_eq!(trace.records().len(), 1);
}

#[test]
fn a_non_choice_root_is_rejected_before_any_call_is_made() {
    let mut client = ScriptedClient::new(Vec::<String>::new());
    let speculation = Speculation::new("confidence", Question::noul("is this correct?"));
    let mut trace = Trace::new();
    let result = decide_speculative(&mut client, json("{}"), speculation, &mut trace);
    assert!(matches!(result, Err(Error::WrongAnswerKind { .. })));
    assert!(client.requests().is_empty());
}

#[test]
fn an_answer_without_a_registered_branch_is_not_taken_for_one() {
    let mut client = ScriptedClient::new(vec![r#"{"answers":{
        "root":{"type":"choice","choice":"root","confidence":0.95}
    }}"#
    .to_owned()]);
    let speculation = Speculation::new("root", pick(&[("root", "itself")]));
    let mut trace = Trace::new();
    let resolved = decide_speculative(&mut client, json("{}"), speculation, &mut trace).unwrap();
    assert_eq!(resolved.branch, None);
    assert_eq!(trace.records().len(), 1);
}

#[test]
fn a_speculation_fails_without_touching_the_trace() {
    let mut client = ScriptedClient::new(vec![
        r#"{"answers":{}}"#.to_owned(),
        r#"{"answers":{"root":{"type":"boolean","probability":1}}}"#.to_owned(),
    ]);
    let speculation = Speculation::new("root", pick(&[("a", "b")]));
    let mut trace = Trace::new();
    assert!(matches!(
        decide_speculative(&mut client, json("{}"), speculation.clone(), &mut trace),
        Err(Error::MissingAnswer(_))
    ));
    assert!(matches!(
        decide_speculative(&mut client, json("{}"), speculation.clone(), &mut trace),
        Err(Error::WrongAnswerKind { .. })
    ));
    assert!(matches!(
        decide_speculative(&mut client, json("{}"), speculation, &mut trace),
        Err(Error::Transport(_))
    ));
    assert!(trace.records().is_empty());
}

#[test]
fn records_usage_and_call_count_but_not_a_fabricated_elapsed() {
    let mut client = ScriptedClient::new(vec![
        r#"{"answers":{"q":{"type":"choice","choice":"a","confidence":0.9}},
            "usage":{"input_tokens":100,"output_tokens":0}}"#
            .to_owned(),
        r#"{"answers":{"q":{"type":"choice","choice":"a","confidence":0.9}},
            "usage":{"input_tokens":50,"output_tokens":0}}"#
            .to_owned(),
    ]);
    let request = Request::single(json("{}"), "q", pick(&[("a", "desc")]));

    let mut ledger = Ledger::new();
    ledger.record(&client.decide(&request).unwrap());
    ledger.record(&client.decide(&request).unwrap());

    assert_eq!(ledger.calls, 2);
    assert_eq!(ledger.usage.input_tokens, 150);
    assert_eq!(ledger.elapsed, Duration::zero());
    assert_eq!(ledger.mean_elapsed(), None);
}

#[test]
fn mean_elapsed_is_none_for_an_empty_ledger() {
    assert_eq!(Ledger::new().mean_elapsed(), None);
    assert_eq!(Ledger::default(), Ledger::new());
}

fn unanswered() -> Outcome {
    Outcome::new(ooda::NameMap::new(), None, None)
}

#[test]
fn retries_are_totaled_but_never_folded_into_elapsed() {
    let quick_no_retry = unanswered()
        .with_elapsed(Duration::from_millis(100))
        .with_retries(0);
    let slow_after_retries = unanswered()
        .with_elapsed(Duration::from_millis(100))
        .with_retries(3);

    let mut ledger = Ledger::new();
    ledger.record(&quick_no_retry);
    ledger.record(&slow_after_retries);

    assert_eq!(ledger.retries, 3);
    assert_eq!(ledger.mean_elapsed(), Some(Duration::from_millis(100)));
}

#[test]
fn mean_elapsed_only_averages_over_calls_that_actually_timed() {
    let timed = unanswered().with_elapsed(Duration::from_millis(200));
    let untimed = unanswered();

    let mut ledger = Ledger::new();
    ledger.record(&timed);
    ledger.record(&untimed);
    ledger.record(&timed);

    assert_eq!(ledger.calls, 3);
    assert_eq!(ledger.mean_elapsed(), Some(Duration::from_millis(200)));
}

#[test]
fn a_mean_is_rounded_down_to_the_nanosecond() {
    let mut ledger = Ledger::new();
    for nanos in [1, 2, 5] {
        ledger.record(&unanswered().with_elapsed(Duration::from_nanos(nanos)));
    }
    assert_eq!(ledger.mean_elapsed(), Some(Duration::from_nanos(2)));
    assert_eq!(Duration::from_secs(3).as_millis(), 3000);
    assert_eq!(Duration::from_millis(3999).as_secs(), 3);
    assert_eq!(Duration::from_secs(u64::MAX).as_secs(), u64::MAX);
    assert_eq!(Duration::from_secs(1).plus(&Duration::from_nanos(7)).as_nanos(), 1_000_000_007);
}

#[test]
fn keeps_the_higher_scoring_candidate() {
    let mut best = RunningBest::new(2);
    assert!(best.consider("a", num(1.0)));
    assert!(!best.consider("b", num(0.5)));
    assert!(best.consider("c", num(2.0)));
    assert_eq!(best.best(), Some(&"c"));
    assert_eq!(best.best_score(), Some(num(2.0)));
    assert_eq!(best.into_best(), Some("c"));
}

#[test]
fn stops_after_patience_consecutive_non_improvements() {
    let mut best = RunningBest::new(2);
    best.consider("a", num(1.0));
    assert!(!best.should_stop());
    best.consider("b", num(0.5));
    assert!(!best.should_stop());
    best.consider("c", num(0.5));
    assert!(best.should_stop());
}

#[test]
fn an_improvement_resets_patience() {
    let mut best = RunningBest::new(2);
    best.consider("a", num(1.0));
    best.consider("b", num(0.5));
    best.consider("c", num(2.0));
    assert!(!best.should_stop());
    assert_eq!(best.stale(), 0);
}

#[test]
fn an_equal_score_is_no_improvement() {
    let mut best = RunningBest::new(1);
    assert_eq!(best.best_score(), None);
    best.consider("a", num(0.0));
    assert!(!best.consider("b", num(-0.0)));
    assert!(best.should_stop());
    assert_eq!(best.best(), Some(&"a"));
}

#[test]
fn every_answer_of_an_outcome_is_recorded_in_name_order() {
    let answer = |p: f64| Answer::Noul { noul: num(p) };
    let outcome = Outcome::answered(vec![
        ("b".to_owned(), answer(0.5)),
        ("a".to_owned(), answer(0.25)),
        ("b".to_owned(), answer(0.75)),
    ]);
    let mut trace = Trace::new();
    outcome.record_all(&mut trace);
    let kept: Vec<(&str, &str)> =
        trace.records().iter().map(|r| (r.key.as_str(), r.chosen.as_str())).collect();
    assert_eq!(kept, [("a", "0.250"), ("b", "0.750")]);
    assert_eq!(outcome.answers().len(), 2);
}

#[test]
fn a_client_can_be_held_behind_the_seam() {
    let mut client: Box<dyn Client> = Box::new(ScriptedClient::new(Vec::new()));
    let request = Request::single(json("{}"), "q", Question::noul("sure?"));
    assert!(matches!(client.decide(&request), Err(Error::Transport(_))));
}

#[test]
fn a_replayed_body_reads_like_the_endpoints_own() {
    for body in [
        r#"{"answers":{"q":{"type":"boolean","probability":0.25}},"usage":{"input_tokens":4}}"#,
        r#"{"answers":{"q":{"type":"guess"}}}"#,
        r#"{"error":"busy"}"#,
        "nonsense",
    ] {
        let mut client = ScriptedClient::new(vec![body.to_owned()]).with_resolved_model("m");
        let replayed =
            client.decide(&Request::single(json("{}"), "q", Question::noul("sure?")));
        let reply = ooda::http::Reply {
            body: Ok(body.to_owned()),
            resolved_model: Some("m".to_owned()),
            elapsed: Duration::from_millis(3),
            retries: 1,
        };
        match (replayed, reply.decided()) {
            (Ok(replayed), Ok(real)) => assert_eq!(
                replayed.with_elapsed(Duration::from_millis(3)).with_retries(1),
                real
            ),
            (Err(replayed), Err(real)) => assert_eq!(replayed.message(), real.message()),
            _ => panic!("one read what the other did not"),
        }
    }
}
