use ooda::json::parse;
use ooda::question::{Answer, Criteria, Question, Usage};
use ooda::{Json, Kind, Real};

fn json(text: &str) -> Json {
    parse(text).unwrap()
}

fn double(x: &Real) -> f64 {
    f64::from_bits(x.bits())
}

fn keys(value: &Json) -> Vec<String> {
    let object = value.as_object().unwrap();
    (0..object.len()).map(|i| object.key(i).to_owned()).collect()
}

#[test]
fn choice_criteria_preserves_declaration_order_over_alphabetical() {
    let criteria =
        Criteria::from_pairs(&[("high", "top"), ("low", "bottom"), ("medium", "middle")]);
    let wire = Question::choice("pick one", criteria).wire();
    assert_eq!(keys(wire.get("criteria").unwrap()), ["high", "low", "medium"]);
}

#[test]
fn an_order_that_is_not_alphabetical_stands_on_the_wire() {
    let criteria =
        Criteria::from_pairs(&[("low", "bottom"), ("medium", "middle"), ("high", "top")]);
    let wire = Question::choice("pick one", criteria).wire();
    assert_eq!(keys(wire.get("criteria").unwrap()), ["low", "medium", "high"]);
    assert_eq!(
        ooda::json::render(&wire),
        r#"{"type":"choice","instructions":"pick one","criteria":{"low":"bottom","medium":"middle","high":"top"}}"#
    );
}

#[test]
fn a_key_declared_twice_keeps_its_first_place_and_its_last_description() {
    let criteria = Criteria::from_pairs(&[("b", "one"), ("a", "two"), ("b", "three")]);
    assert_eq!(criteria.len(), 3);
    assert_eq!(criteria.object(), json(r#"{"b":"three","a":"two"}"#));
    assert_eq!(keys(&criteria.object()), ["b", "a"]);
}

#[test]
fn a_choice_question_serializes_to_the_confirmed_shape() {
    let question = Question::choice(
        "pick one",
        Criteria::from_pairs(&[("a", "move it"), ("b", "open it")]),
    );
    assert_eq!(
        question.wire(),
        json(
            r#"{
                "type": "choice",
                "instructions": "pick one",
                "criteria": { "a": "move it", "b": "open it" }
            }"#
        )
    );
}

#[test]
fn a_score_question_serializes_criteria_as_a_key_array_not_an_object() {
    let question = Question::score(
        "rate it",
        Criteria::from_pairs(&[("high", "top"), ("low", "bottom"), ("medium", "middle")]),
    );
    assert_eq!(
        question.wire(),
        json(
            r#"{
                "type": "score",
                "instructions": "rate it",
                "criteria": ["high", "low", "medium"]
            }"#
        )
    );
}

#[test]
fn a_noul_question_serializes_with_the_boolean_wire_tag() {
    let question = Question::noul("is this net critical?");
    let wire = question.wire();
    assert_eq!(wire.get("type").unwrap().as_str(), Some("boolean"));
    assert!(wire.get("criteria").is_none());
}

#[test]
fn a_noul_question_can_carry_framing_hints() {
    let question = Question::noul_with_context("is this net critical?", "yes", "no");
    let wire = question.wire();
    let criteria = wire.get("criteria").unwrap();
    assert_eq!(criteria.get("true").unwrap().as_str(), Some("yes"));
    assert_eq!(criteria.get("false").unwrap().as_str(), Some("no"));
}

#[test]
fn a_choice_answer_decodes() {
    let raw =
        r#"{"type":"choice","choice":"a","probabilities":{"a":0.9,"b":0.1},"confidence":0.9}"#;
    let answer = Answer::decode(&json(raw)).unwrap();
    assert_eq!(answer.choice(), Some("a"));
    assert_eq!(answer.confidence().map(|c| double(&c)), Some(0.9));
}

#[test]
fn a_noul_answer_carries_no_confidence_but_records_its_own_probability() {
    let raw = r#"{"type":"boolean","probability":0.42}"#;
    let answer = Answer::decode(&json(raw)).unwrap();
    assert_eq!(answer.noul().map(|p| double(&p)), Some(0.42));
    assert_eq!(answer.confidence(), None);
    assert_eq!(double(&answer.recorded_confidence()), 0.42);
}

#[test]
fn a_score_answer_decodes_whether_numeric_or_leveled() {
    let numeric =
        Answer::decode(&json(r#"{"type":"score","score":3,"confidence":0.8}"#)).unwrap();
    assert_eq!(numeric.score_as_f64().map(|s| double(&s)), Some(3.0));

    let leveled = Answer::decode(&json(r#"{"type":"score","score":"high"}"#)).unwrap();
    assert_eq!(leveled.score_as_f64(), None);
}

#[test]
fn criteria_are_built_in_a_chain_and_read_back() {
    let mut criteria = Criteria::new();
    assert!(criteria.is_empty());
    criteria.push("a", "first").push("b", "second");
    assert_eq!(criteria.keys(), ["a", "b"]);
    assert_eq!(criteria.len(), 2);
    assert!(criteria.contains_key("b"));
    assert!(!criteria.contains_key("c"));
    assert_eq!(criteria.description(1), "second");
    assert_eq!(
        Question::choice("pick", criteria.clone()).option_keys(),
        Some(vec!["a", "b"])
    );
    assert_eq!(Question::score("rate", criteria).option_keys(), None);
    assert_eq!(Question::noul("sure?").option_keys(), None);
    assert_eq!(Criteria::default(), Criteria::new());
}

#[test]
fn what_a_record_keeps_of_an_answer() {
    let choice = Answer::decode(&json(r#"{"type":"choice","choice":"a","confidence":1}"#)).unwrap();
    assert_eq!(choice.recorded_value(), "a");
    assert_eq!(choice.kind(), Kind::Choice);

    let score = Answer::decode(&json(r#"{"type":"score","score":{"level": 2}}"#)).unwrap();
    assert_eq!(score.recorded_value(), r#"{"level":2}"#);
    assert_eq!(double(&score.recorded_confidence()), 0.0);
    assert_eq!(score.kind(), Kind::Score);

    let noul = Answer::decode(&json(r#"{"type":"boolean","probability":0.42}"#)).unwrap();
    assert_eq!(noul.recorded_value(), "0.420");
    assert_eq!(noul.kind(), Kind::Noul);
}

#[test]
fn an_answer_that_is_none_says_what_is_wrong() {
    let fault = |text: &str| Answer::decode(&json(text)).unwrap_err();
    let unknown = "unknown variant `guess`, expected one of `choice`, `score`, `boolean`";
    let tag = "invalid type: integer `7`, expected variant identifier";
    let answer = "invalid type: integer `3`, expected internally tagged enum Answer";
    assert_eq!(fault(r#"{"choice":"a"}"#), "missing field `type`");
    assert_eq!(fault("[]"), "missing field `type`");
    assert_eq!(fault(r#"{"type":7}"#), tag);
    assert_eq!(fault(r#"{"type":"guess"}"#), unknown);
    assert_eq!(fault("3"), answer);
    assert_eq!(fault(r#"{"type":"choice","confidence":1}"#), "missing field `choice`");
    assert_eq!(
        fault(r#"{"type":"choice","choice":1,"confidence":1}"#),
        "invalid type: integer `1`, expected a string"
    );
    assert_eq!(fault(r#"{"type":"choice","choice":"a"}"#), "missing field `confidence`");
    assert_eq!(
        fault(r#"{"type":"choice","choice":"a","confidence":null}"#),
        "invalid type: null, expected f64"
    );
    assert_eq!(
        fault(r#"{"type":"choice","confidence":true,"choice":1}"#),
        "invalid type: boolean `true`, expected f64"
    );
    assert_eq!(
        fault(r#"{"type":"choice","choice":"a","confidence":1,"probabilities":{"a":"x"}}"#),
        r#"invalid type: string "x", expected f64"#
    );
    assert_eq!(
        fault(r#"{"type":"choice","choice":"a","confidence":1,"probabilities":null}"#),
        "invalid type: null, expected a map"
    );
    assert_eq!(fault(r#"{"type":"score"}"#), "missing field `score`");
    assert_eq!(
        fault(r#"{"type":"score","score":1,"confidence":[]}"#),
        "invalid type: sequence, expected f64"
    );
    assert_eq!(fault(r#"{"type":"boolean"}"#), "missing field `probability`");
    assert_eq!(
        fault(r#"{"type":"boolean","probability":{}}"#),
        "invalid type: map, expected f64"
    );
    assert_eq!(
        fault(r#"["boolean",0.5,1]"#),
        "invalid length 2, expected 1 element in sequence"
    );
    assert_eq!(
        fault(r#"["choice","a",{},1,2]"#),
        "invalid length 4, expected 3 elements in sequence"
    );
    assert_eq!(
        fault(r#"["choice","a"]"#),
        "invalid length 2, expected struct variant Answer::Choice with 3 elements"
    );
    assert_eq!(
        fault(r#"["boolean"]"#),
        "invalid length 0, expected struct variant Answer::Noul with 1 element"
    );
}

#[test]
fn a_wrong_type_is_named_as_serde_json_names_it() {
    for value in ["null", "true", "-7", "18446744073709551615", "1e-7", "2.0", r#""q\"\n""#, "[1]", "{}"] {
        let parsed = || serde_json::from_str::<serde_json::Value>(value).unwrap();
        let asked = format!(r#"{{"type":"choice","confidence":{value}}}"#);
        if let Err(e) = serde_json::from_value::<f64>(parsed()) {
            assert_eq!(Answer::decode(&json(&asked)).unwrap_err(), e.to_string());
        }
        let asked = format!(r#"{{"type":"choice","choice":{value}}}"#);
        if let Err(e) = serde_json::from_value::<String>(parsed()) {
            assert_eq!(Answer::decode(&json(&asked)).unwrap_err(), e.to_string());
        }
    }
}

#[test]
fn an_answer_may_be_written_as_an_array() {
    let noul = Answer::decode(&json(r#"["boolean",0.5]"#)).unwrap();
    assert_eq!(noul.noul().map(|p| double(&p)), Some(0.5));
    let choice = Answer::decode(&json(r#"["choice","a",{"b":1,"a":2},0.5]"#)).unwrap();
    let Answer::Choice { probabilities, .. } = &choice else {
        panic!("a choice");
    };
    assert_eq!(probabilities.name(0), "a");
    assert_eq!(probabilities.name(1), "b");
}

#[test]
fn an_answer_is_read_back_from_its_wire_form() {
    for text in [
        r#"{"type":"choice","choice":"a","probabilities":{"a":0.9,"b":0.1},"confidence":0.9}"#,
        r#"{"type":"score","score":"high","probabilities":{},"confidence":null}"#,
        r#"{"type":"boolean","probability":0.25}"#,
    ] {
        let answer = Answer::decode(&json(text)).unwrap();
        assert_eq!(answer.wire(), json(text));
        assert_eq!(Answer::decode(&answer.wire()).unwrap(), answer);
    }
}

#[test]
fn usage_takes_either_spelling_but_not_both() {
    let usage = |text: &str| Usage::decode(&json(text));
    assert_eq!(
        usage(r#"{"input_tokens":3,"outputTokens":4,"more":1}"#),
        Some(Usage { input_tokens: 3, output_tokens: 4 })
    );
    assert_eq!(usage("{}"), Some(Usage::default()));
    assert_eq!(usage("[5]"), Some(Usage { input_tokens: 5, output_tokens: 0 }));
    assert_eq!(usage(r#"{"input_tokens":3,"inputTokens":3}"#), None);
    assert_eq!(usage(r#"{"input_tokens":-3}"#), None);
    assert_eq!(usage("[1,2,3]"), None);
    assert_eq!(usage("null"), None);
    let mut total = Usage { input_tokens: 1, output_tokens: 2 };
    total.accumulate(&Usage { input_tokens: 10, output_tokens: 20 });
    assert_eq!(total, Usage { input_tokens: 11, output_tokens: 22 });
}
