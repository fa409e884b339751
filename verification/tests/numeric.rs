use ooda::http::Reply;
use ooda::json::{parse, render};
use ooda::numeric::{
    validate_joint_outcome, validate_joint_request, validate_numeric_outcome,
    validate_numeric_request,
};
use ooda::schema::joint_schema;
use ooda::{
    BoundedError, BoundedPredictor, Duration, Error, Gpc1Client, HttpClient, JointOutcome,
    JointRequest, Json, JsonSchemaPredictor, NumericEstimate, NumericField, NumericOutcome,
    NumericRequest, Object, Real, WithFallback,
};

fn json(text: &str) -> Json {
    parse(text).unwrap()
}

fn object(text: &str) -> Object {
    json(text).as_object().unwrap().clone()
}

fn num(x: f64) -> Real {
    match serde_json::Number::from_f64(x) {
        Some(number) => Real::finite(&number),
        None => Real::non_finite(x.to_bits()).unwrap(),
    }
}

fn request() -> NumericRequest {
    NumericRequest {
        observation: json(r#"{"use": "commuter bicycle"}"#),
        instruction: "Estimate editable fit parameters.".into(),
        fields: vec![NumericField {
            key: "reach_mm".into(),
            description: "horizontal rider reach".into(),
            minimum: num(360.0),
            maximum: num(420.0),
            unit: "mm".into(),
            reference: Some("bottom bracket to head datum".into()),
            aliases: vec![],
        }],
        correlation: Some("bike-fit-1".into()),
    }
}

fn estimate(key: &str, map_value: f64, expected_value: f64) -> NumericEstimate {
    NumericEstimate {
        key: key.into(),
        map_value: num(map_value),
        expected_value: num(expected_value),
        probabilities: vec![num(1.0 / 101.0); 101],
        normalized_grid: vec![],
    }
}

fn outcome(estimates: Vec<NumericEstimate>) -> NumericOutcome {
    NumericOutcome {
        estimates,
        resolved_model: None,
        elapsed_ms: None,
        retries: None,
        provider_metadata: None,
    }
}

#[test]
fn accepts_a_complete_in_range_distribution() {
    let request = request();
    let outcome = NumericOutcome {
        estimates: vec![NumericEstimate {
            key: "reach_mm".into(),
            map_value: num(390.0),
            expected_value: num(391.2),
            probabilities: vec![num(1.0 / 101.0); 101],
            normalized_grid: vec![],
        }],
        resolved_model: Some("harshatheg/GPC-1".into()),
        elapsed_ms: Some(12),
        retries: Some(0),
        provider_metadata: None,
    };
    validate_numeric_request(&request).unwrap();
    validate_numeric_outcome(&request, &outcome).unwrap();
}

#[test]
fn rejects_an_estimate_outside_the_offered_domain() {
    let request = request();
    let outcome = outcome(vec![estimate("reach_mm", 999.0, 390.0)]);
    assert!(validate_numeric_outcome(&request, &outcome).is_err());
}

#[test]
fn joint_result_must_be_one_exact_allowed_record() {
    let records = vec![object(r#"{"diameter_mm":28.6}"#), object(r#"{"diameter_mm":31.8}"#)];
    let request = JointRequest {
        observation: Json::Null,
        instruction: "Choose stock.".into(),
        allowed_records: records.clone(),
        correlation: None,
    };
    let outcome = JointOutcome {
        selected_index: 1,
        value: records[0].clone(),
        probabilities: vec![num(0.2), num(0.8)],
        log_scores: vec![],
        resolved_model: None,
        elapsed_ms: None,
        retries: None,
        provider_metadata: None,
    };
    assert!(validate_joint_outcome(&request, &outcome).is_err());
    let right = JointOutcome { value: records[1].clone(), ..outcome.clone() };
    assert!(validate_joint_outcome(&request, &right).is_ok());
    let beyond = JointOutcome { selected_index: 2, ..outcome };
    assert!(validate_joint_outcome(&request, &beyond).is_err());
    let short = JointOutcome { probabilities: vec![num(1.0)], ..right.clone() };
    assert!(validate_joint_outcome(&request, &short).is_err());
    let negative = JointOutcome { probabilities: vec![num(-0.5), num(1.5)], ..right.clone() };
    assert!(validate_joint_outcome(&request, &negative).is_err());
    let none = JointOutcome { probabilities: vec![], ..right };
    assert!(validate_joint_outcome(&request, &none).is_ok());
}

fn refused(result: Result<(), BoundedError>) -> String {
    result.unwrap_err().message()
}

#[test]
fn a_numeric_request_that_cannot_be_put_says_why() {
    let needs_one = "invalid bounded decision request: numeric request needs an instruction and at least one field";
    let blank = NumericRequest { instruction: " ".into(), ..request() };
    assert_eq!(refused(validate_numeric_request(&blank)), needs_one);
    let none = NumericRequest { fields: vec![], ..request() };
    assert_eq!(refused(validate_numeric_request(&none)), needs_one);

    let unique = "invalid bounded decision request: numeric fields need unique non-empty keys, descriptions, and units";
    let mut twice = request();
    twice.fields.push(twice.fields[0].clone());
    assert_eq!(refused(validate_numeric_request(&twice)), unique);
    let mut unnamed = request();
    unnamed.fields[0].unit = "".into();
    assert_eq!(refused(validate_numeric_request(&unnamed)), unique);

    let bounds =
        "invalid bounded decision request: field \"reach_mm\" needs finite ascending bounds";
    for (low, high) in [(1.0, 1.0), (2.0, 1.0), (f64::NAN, 1.0), (0.0, f64::INFINITY)] {
        let mut bad = request();
        bad.fields[0].minimum = num(low);
        bad.fields[0].maximum = num(high);
        assert_eq!(refused(validate_numeric_request(&bad)), bounds);
    }
}

#[test]
fn a_numeric_outcome_that_leaves_the_domain_says_how() {
    let request = request();
    let fault = |estimates: Vec<NumericEstimate>| {
        refused(validate_numeric_outcome(&request, &outcome(estimates)))
            .strip_prefix("bounded decision response violated its supplied domain: ")
            .unwrap()
            .to_owned()
    };
    assert_eq!(fault(vec![]), "received 0 estimates for 1 fields");
    assert_eq!(fault(vec![estimate("other", 390.0, 390.0)]), "unoffered field \"other\"");
    assert_eq!(
        fault(vec![estimate("reach_mm", 999.0, 390.0)]),
        "MAP value 999 for \"reach_mm\" is outside [360, 420] mm"
    );
    assert_eq!(
        fault(vec![estimate("reach_mm", 390.0, 359.5)]),
        "expected value 359.5 for \"reach_mm\" is outside [360, 420] mm"
    );
    assert_eq!(
        fault(vec![estimate("reach_mm", f64::NAN, 390.0)]),
        "MAP value NaN for \"reach_mm\" is outside [360, 420] mm"
    );
    let mut short = estimate("reach_mm", 390.0, 390.0);
    short.probabilities.pop();
    let spread = "field \"reach_mm\" needs a non-negative 101-point distribution";
    assert_eq!(fault(vec![short]), spread);
    let mut negative = estimate("reach_mm", 390.0, 390.0);
    negative.probabilities[3] = num(-1.0);
    assert_eq!(fault(vec![negative]), spread);

    let mut two = request.clone();
    two.fields.push(NumericField { key: "stack_mm".into(), ..two.fields[0].clone() });
    let repeated =
        outcome(vec![estimate("reach_mm", 390.0, 390.0), estimate("reach_mm", 390.0, 390.0)]);
    assert!(refused(validate_numeric_outcome(&two, &repeated)).ends_with("repeated field \"reach_mm\""));
}

#[test]
fn a_joint_request_that_cannot_be_put_says_why() {
    let ask = |instruction: &str, records: Vec<Object>| {
        refused(validate_joint_request(&JointRequest {
            observation: Json::Null,
            instruction: instruction.into(),
            allowed_records: records,
            correlation: None,
        }))
    };
    let two = || vec![object(r#"{"a":1}"#), object(r#"{"a":2}"#)];
    assert!(ask("", two()).ends_with("needs an instruction and at least two records"));
    assert!(ask("x", vec![object("{}")]).ends_with("at least two records"));
    assert!(ask("x", vec![object("{}"), object("{}")]).ends_with("joint records must not be empty"));
    let uneven = vec![object(r#"{"a":1}"#), object(r#"{"b":1}"#)];
    assert!(ask("x", uneven).ends_with("joint records must have identical fields"));
}

#[test]
fn joint_schema_refuses_type_drift() {
    let records = vec![object(r#"{"diameter":28.6}"#), object(r#"{"diameter":"28.6"}"#)];
    assert!(joint_schema(&records).is_err());
    let integers = vec![object(r#"{"diameter":28}"#), object(r#"{"diameter":28.5}"#)];
    assert_eq!(
        joint_schema(&integers).unwrap_err().message(),
        "invalid bounded decision request: joint field \"diameter\" changes JSON type across records"
    );
}

#[test]
fn joint_schema_is_strict_and_requires_every_field() {
    let records = vec![
        object(r#"{"diameter":28.6,"wall":0.9}"#),
        object(r#"{"diameter":31.8,"wall":0.8}"#),
    ];
    let schema = joint_schema(&records).unwrap();
    assert_eq!(schema.get("additionalProperties"), Some(&Json::Bool(false)));
    let diameter = schema.get("properties").unwrap().get("diameter").unwrap();
    assert_eq!(diameter.get("type").unwrap().as_str(), Some("number"));
    assert_eq!(schema.get("required").unwrap().as_array().unwrap().len(), 2);
}

#[test]
fn every_json_type_has_its_name_in_a_schema() {
    let record = object(r#"{"s":"x","b":true,"i":-3,"u":3,"n":0.5,"z":null,"a":[],"o":{}}"#);
    let schema = joint_schema(&vec![record]).unwrap();
    assert_eq!(
        render(schema.get("properties").unwrap()),
        [
            r#"{"s":{"type":"string"},"b":{"type":"boolean"},"i":{"type":"integer"},"#,
            r#""u":{"type":"integer"},"n":{"type":"number"},"z":{"type":"null"},"#,
            r#""a":{"type":"array"},"o":{"type":"object"}}"#,
        ]
        .join("")
    );
}

struct Fails;
impl BoundedPredictor for Fails {
    fn estimate_numeric(&self, _: &NumericRequest) -> Result<NumericOutcome, BoundedError> {
        Err(BoundedError::InvalidResponse("primary unavailable".into()))
    }
    fn decide_joint(&self, _: &JointRequest) -> Result<JointOutcome, BoundedError> {
        Err(BoundedError::InvalidResponse("primary unavailable".into()))
    }
}

struct NumericFallback;
impl BoundedPredictor for NumericFallback {
    fn estimate_numeric(&self, request: &NumericRequest) -> Result<NumericOutcome, BoundedError> {
        Ok(NumericOutcome {
            estimates: request
                .fields
                .iter()
                .map(|field| NumericEstimate {
                    key: field.key.clone(),
                    map_value: field.minimum.clone(),
                    expected_value: field.minimum.clone(),
                    probabilities: vec![],
                    normalized_grid: vec![],
                })
                .collect(),
            resolved_model: Some("fallback".into()),
            elapsed_ms: None,
            retries: None,
            provider_metadata: None,
        })
    }
    fn decide_joint(&self, request: &JointRequest) -> Result<JointOutcome, BoundedError> {
        Ok(JointOutcome {
            selected_index: 0,
            value: request.allowed_records[0].clone(),
            probabilities: vec![],
            log_scores: vec![],
            resolved_model: Some("fallback".into()),
            elapsed_ms: None,
            retries: None,
            provider_metadata: Some(Json::Bool(true)),
        })
    }
}

#[test]
fn fallback_is_explicit_and_has_no_fake_distribution() {
    let predictor = WithFallback::new(Fails, NumericFallback);
    let request = NumericRequest {
        observation: Json::Null,
        instruction: "estimate".into(),
        fields: vec![NumericField {
            key: "x".into(),
            description: "x".into(),
            minimum: num(0.0),
            maximum: num(1.0),
            unit: "ratio".into(),
            reference: None,
            aliases: vec![],
        }],
        correlation: None,
    };
    let outcome = predictor.estimate_numeric(&request).unwrap();
    assert!(outcome.estimates[0].probabilities.is_empty());
    let metadata = outcome.provider_metadata.unwrap();
    let mark = metadata.get("ooda").unwrap();
    assert_eq!(mark.get("fallback_used"), Some(&Json::Bool(true)));
}

fn joint() -> JointRequest {
    JointRequest {
        observation: json(r#"{"load":3}"#),
        instruction: "Choose stock.".into(),
        allowed_records: vec![object(r#"{"d":28.6,"w":1}"#), object(r#"{"d":31.8,"w":2}"#)],
        correlation: Some("private".into()),
    }
}

#[test]
fn a_fallback_keeps_what_the_provider_said_and_why_it_was_asked() {
    let predictor = WithFallback::new(Fails, NumericFallback);
    let metadata = predictor.decide_joint(&joint()).unwrap().provider_metadata.unwrap();
    assert_eq!(
        render(&metadata),
        [
            r#"{"ooda":{"fallback_used":true,"primary_error":"#,
            r#""bounded decision response violated its supplied domain: primary unavailable","#,
            r#""calibrated_distribution":false},"provider":true}"#,
        ]
        .join("")
    );
    let direct = WithFallback::new(NumericFallback, Fails).decide_joint(&joint()).unwrap();
    assert_eq!(direct.provider_metadata, Some(Json::Bool(true)));
    assert!(WithFallback::new(Fails, Fails).decide_joint(&joint()).is_err());
    assert!(WithFallback::new(Fails, Fails).estimate_numeric(&request()).is_err());
}

fn http() -> HttpClient {
    HttpClient::new("https://example.invalid", "k", "m").unwrap()
}

fn reply(body: &str) -> Reply {
    Reply {
        body: Ok(body.to_owned()),
        resolved_model: Some("resolved".to_owned()),
        elapsed: Duration::from_millis(12),
        retries: 1,
    }
}

#[test]
fn a_gpc1_numeric_call_is_put_and_read() {
    let client = Gpc1Client::new(http());
    assert_eq!(client.http().model(), "m");
    let mut asked = request();
    asked.fields[0].aliases.push("reach".into());
    let text = render(&client.numeric_body(&asked).unwrap());
    assert_eq!(
        text,
        [
            r#"{"model":"m","messages":[{"role":"user","content":"#,
            r#""Estimate editable fit parameters.\n\nObservation:\n{\"use\":\"commuter bicycle\"}"}],"#,
            r#""response_format":{"type":"json_schema","json_schema":{"name":"result","strict":true,"#,
            r#""schema":{"type":"object","properties":{"reach_mm":{"type":"number","minimum":360.0,"#,
            r#""maximum":420.0}},"required":["reach_mm"],"additionalProperties":false}}},"#,
            r#""gpc1":{"mode":"numeric101","numeric_fields":[{"key":"reach_mm","#,
            r#""description":"horizontal rider reach","minimum":360.0,"maximum":420.0,"unit":"mm","#,
            r#""reference":"bottom bracket to head datum","aliases":["reach"]}]},"stream":false}"#,
        ]
        .join("")
    );
    assert!(!text.contains("bike-fit-1"));

    let spread = vec!["0.25"; 101].join(",");
    let body = format!(
        r#"{{"gpc1":{{"fields":{{"reach_mm":{{"map_value":400,"expected_value":399.5,"probabilities":[{spread}]}}}}}},"providerMetadata":7}}"#
    );
    let outcome = client.numeric_outcome(&request(), reply(&body)).unwrap();
    assert_eq!(outcome.estimates[0].map_value, num(400.0));
    assert_eq!(outcome.estimates[0].probabilities.len(), 101);
    assert_eq!(outcome.resolved_model.as_deref(), Some("resolved"));
    assert_eq!(outcome.elapsed_ms, Some(12));
    assert_eq!(outcome.retries, Some(1));
    assert_eq!(outcome.provider_metadata, Some(json("7")));
}

#[test]
fn a_gpc1_numeric_reply_that_is_none_says_what_is_wrong() {
    let client = Gpc1Client::new(http());
    let fault = |body: &str| match client.numeric_outcome(&request(), reply(body)) {
        Err(BoundedError::InvalidResponse(message)) => message,
        other => panic!("{other:?}"),
    };
    assert_eq!(fault(r#"{"error":{"message":"no"}}"#), "no");
    assert_eq!(fault(r#"{"gpc1":{}}"#), "missing gpc1.fields");
    assert_eq!(
        fault(r#"{"gpc1":{"fields":{"x":3}}}"#),
        "numeric field is missing map_value"
    );
    assert_eq!(
        fault(r#"{"gpc1":{"fields":{"x":{"map_value":1}}}}"#),
        "numeric field is missing expected_value"
    );
    assert_eq!(
        fault(r#"{"gpc1":{"fields":{"x":{"map_value":1,"expected_value":1}}}}"#),
        "missing probabilities"
    );
    assert_eq!(
        fault(r#"{"gpc1":{"fields":{"x":{"map_value":1,"expected_value":1,"probabilities":["p"]}}}}"#),
        "probabilities contains a non-number"
    );
    assert_eq!(
        fault(r#"{"gpc1":{"fields":{"x":{"map_value":1,"expected_value":1,"probabilities":[],"normalized_grid":null}}}}"#),
        "missing normalized_grid"
    );
    assert_eq!(
        fault(r#"{"gpc1":{"fields":{"x":{"map_value":1,"expected_value":1,"probabilities":[]}}}}"#),
        "unoffered field \"x\""
    );
    assert!(matches!(
        client.numeric_outcome(&request(), reply("nonsense")),
        Err(BoundedError::Transport(Error::Decode { .. }))
    ));
    let blank = NumericRequest { instruction: "".into(), ..request() };
    assert!(matches!(client.numeric_body(&blank), Err(BoundedError::InvalidRequest(_))));
}

#[test]
fn a_gpc1_joint_call_is_put_and_read() {
    let client = Gpc1Client::new(http());
    let body = client.joint_body(&joint()).unwrap();
    assert_eq!(
        render(body.get("gpc1").unwrap()),
        r#"{"mode":"finite_joint","allowed_records":[{"d":28.6,"w":1},{"d":31.8,"w":2}]}"#
    );
    let good = r#"{"gpc1":{"selected_index":1,"value":{"w":2,"d":31.8},"probabilities":[0.25,0.75],"log_scores":[-1,0]}}"#;
    let outcome = client.joint_outcome(&joint(), reply(good)).unwrap();
    assert_eq!(outcome.selected_index, 1);
    assert_eq!(outcome.log_scores, vec![num(-1.0), num(0.0)]);
    assert_eq!(outcome.provider_metadata, None);

    let fault = |body: &str| match client.joint_outcome(&joint(), reply(body)) {
        Err(BoundedError::InvalidResponse(message)) => message,
        other => panic!("{other:?}"),
    };
    assert_eq!(fault("{}"), "missing gpc1 result");
    assert_eq!(fault(r#"{"gpc1":{"selected_index":-1}}"#), "missing selected_index");
    assert_eq!(fault(r#"{"gpc1":{"selected_index":1}}"#), "missing selected value");
    assert_eq!(fault(r#"{"gpc1":{"selected_index":1,"value":{}}}"#), "missing probabilities");
    assert_eq!(
        fault(r#"{"gpc1":{"selected_index":0,"value":{"w":2,"d":31.8},"probabilities":[]}}"#),
        "selected joint record was not the supplied row at selected_index"
    );
    let mut drifting = joint();
    drifting.allowed_records[1] = object(r#"{"d":"x","w":2}"#);
    assert!(matches!(client.joint_body(&drifting), Err(BoundedError::InvalidRequest(_))));
}

#[test]
fn a_schema_fallback_fills_in_every_field() {
    let predictor = JsonSchemaPredictor::new(http());
    assert_eq!(predictor.http().model(), "m");
    let body = predictor.numeric_body(&request()).unwrap();
    assert_eq!(render(body.get("temperature").unwrap()), "0");
    assert_eq!(body.get("stream"), Some(&Json::Bool(false)));
    assert_eq!(body.get("messages").unwrap().as_array().unwrap().len(), 2);

    let content = |text: &str| {
        let mut message = Object::new();
        message.put("content", Json::text(text));
        format!(r#"{{"choices":[{{"message":{}}}]}}"#, render(&Json::Object(message)))
    };
    let outcome =
        predictor.numeric_outcome(&request(), reply(&content(r#"{"reach_mm":400}"#))).unwrap();
    assert_eq!(outcome.estimates[0].map_value, num(400.0));
    assert_eq!(outcome.estimates[0].expected_value, num(400.0));
    assert!(outcome.estimates[0].probabilities.is_empty());

    let fault = |body: &str| match predictor.numeric_outcome(&request(), reply(body)) {
        Err(BoundedError::InvalidResponse(message)) => message,
        other => panic!("{other:?}"),
    };
    assert_eq!(fault("{}"), "fallback returned no message content");
    assert!(fault(&content("nonsense")).starts_with("fallback content was not JSON: "));
    assert_eq!(fault(&content("[]")), "fallback content was not a JSON object");
    assert_eq!(fault(&content("{}")), "fallback omitted numeric field \"reach_mm\"");
    assert!(fault(&content(r#"{"reach_mm":1}"#)).starts_with("MAP value 1 for"));
}

#[test]
fn a_schema_fallback_chooses_one_of_the_records() {
    let predictor = JsonSchemaPredictor::new(http());
    let body = predictor.joint_body(&joint()).unwrap();
    let messages = body.get("messages").unwrap().as_array().unwrap();
    assert_eq!(
        messages[1].get("content").unwrap().as_str(),
        Some("Choose stock.\nChoose exactly one of these complete records:\n[{\"d\":28.6,\"w\":1},{\"d\":31.8,\"w\":2}]\n\nObservation:\n{\"load\":3}")
    );
    let content = |text: &str| {
        let mut message = Object::new();
        message.put("content", Json::text(text));
        format!(r#"{{"choices":[{{"message":{}}}]}}"#, render(&Json::Object(message)))
    };
    let outcome =
        predictor.joint_outcome(&joint(), reply(&content(r#"{"w":2,"d":31.8}"#))).unwrap();
    assert_eq!(outcome.selected_index, 1);
    assert!(outcome.probabilities.is_empty());
    assert!(matches!(
        predictor.joint_outcome(&joint(), reply(&content(r#"{"w":1,"d":31.8}"#))),
        Err(BoundedError::InvalidResponse(_))
    ));
}

#[test]
fn a_failed_call_is_a_bounded_error_with_its_own_message() {
    let error = BoundedError::from(Error::Transport("dns".into()));
    assert_eq!(error.message(), "transport failed: dns");
}
