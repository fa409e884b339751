use ooda::json::parse;
use ooda::{Answer, Kind, Real, Record, Trace};

fn num(x: f64) -> Real {
    match serde_json::Number::from_f64(x) {
        Some(number) => Real::finite(&number),
        None => Real::non_finite(x.to_bits()).unwrap(),
    }
}

fn record(confidence: f64) -> Record {
    Record {
        key: "k".into(),
        kind: Kind::Choice,
        chosen: "a".into(),
        confidence: num(confidence),
        timestamp_unix: 0,
    }
}

#[test]
fn an_empty_trace_does_not_vacuously_pass() {
    assert!(!Trace::new().all_at_least(&num(0.0)));
}

#[test]
fn passes_only_when_every_record_clears_the_bar() {
    let mut trace = Trace::new();
    trace.push(record(0.9));
    trace.push(record(0.95));
    assert!(trace.all_at_least(&num(0.8)));
    trace.push(record(0.5));
    assert!(!trace.all_at_least(&num(0.8)));
}

#[test]
fn min_confidence_tracks_the_lowest_record() {
    let mut trace = Trace::new();
    assert_eq!(trace.min_confidence(), None);
    trace.push(record(0.9));
    trace.push(record(0.4));
    trace.push(record(0.7));
    assert_eq!(trace.min_confidence(), Some(num(0.4)));
}

#[test]
fn a_confidence_that_is_no_number_passes_nothing_and_is_passed_over() {
    let mut trace = Trace::new();
    trace.push(record(f64::NAN));
    trace.push(record(0.7));
    assert!(!trace.all_at_least(&num(-1.0)));
    assert_eq!(trace.min_confidence(), Some(num(0.7)));
    assert!(!Trace::new().all_at_least(&num(f64::NEG_INFINITY)));
}

#[test]
fn a_trace_passes_exactly_where_its_lowest_confidence_does() {
    let mut trace = Trace::new();
    for confidence in [0.3, 0.6, 0.5] {
        trace.push(record(confidence));
    }
    for bar in [-0.0, 0.0, 0.29, 0.3, 0.31, 1.0] {
        assert_eq!(
            trace.all_at_least(&num(bar)),
            num(bar).at_most(&trace.min_confidence().unwrap())
        );
    }
}

#[test]
fn a_record_keeps_the_answer_and_the_time() {
    let answer =
        Answer::decode(&parse(r#"{"type":"boolean","probability":0.125}"#).unwrap()).unwrap();
    let made = Record::at("q", &answer, 17);
    assert_eq!(made.key, "q");
    assert_eq!(made.kind, Kind::Noul);
    assert_eq!(made.chosen, "0.125");
    assert_eq!(made.confidence, num(0.125));
    assert_eq!(made.timestamp_unix, 17);
    let now = Record::now("q", &answer);
    assert!(now.timestamp_unix > 1_600_000_000);
    assert_eq!(now.chosen, made.chosen);
}

#[test]
fn a_trace_is_read_back_from_its_serialized_form() {
    let mut trace = Trace::new();
    trace.push(record(0.5));
    trace.push(Record {
        kind: Kind::Score,
        ..record(1.0)
    });
    let text = ooda::json::render(&trace.wire());
    assert_eq!(
        text,
        r#"[{"key":"k","kind":"choice","chosen":"a","confidence":0.5,"timestamp_unix":0},{"key":"k","kind":"score","chosen":"a","confidence":1.0,"timestamp_unix":0}]"#
    );
    assert_eq!(Trace::decode(&parse(&text).unwrap()).unwrap(), trace);
    assert_eq!(trace.clone().into_records().len(), 2);
}

#[test]
fn a_serialized_trace_that_is_none_says_what_is_wrong() {
    let fault = |text: &str| Trace::decode(&parse(text).unwrap()).unwrap_err();
    let short = |n: usize| format!("invalid length {n}, expected struct Record with 5 elements");
    let text = "invalid type: integer `1`, expected a string";
    assert_eq!(fault("{}"), "invalid type: map, expected a sequence");
    assert_eq!(fault("[3]"), "invalid type: integer `3`, expected struct Record");
    assert_eq!(fault("[{}]"), "missing field `key`");
    assert_eq!(fault(r#"[{"key":1}]"#), text);
    assert_eq!(fault(r#"[["k"]]"#), short(1));
    assert_eq!(
        fault(r#"[["k","guess"]]"#),
        "unknown variant `guess`, expected one of `choice`, `score`, `noul`"
    );
    assert_eq!(fault(r#"[["k",3]]"#), "invalid type: integer `3`, expected string or map");
    assert_eq!(fault(r#"[["k",{}]]"#), "invalid value: map, expected map with a single key");
    assert_eq!(fault(r#"[["k",{"noul":1}]]"#), "invalid type: integer `1`, expected unit");
    assert_eq!(fault(r#"[["k",{"noul":null}]]"#), short(2));
    assert_eq!(fault(r#"[["k","noul",1]]"#), text);
    assert_eq!(fault(r#"[["k","noul","c"]]"#), short(3));
    assert_eq!(fault(r#"[["k","noul","c",null]]"#), "invalid type: null, expected f64");
    assert_eq!(fault(r#"[["k","noul","c",1]]"#), short(4));
    assert_eq!(
        fault(r#"[["k","noul","c",1,-1]]"#),
        "invalid value: integer `-1`, expected u64"
    );
    assert_eq!(
        fault(r#"[["k","noul","c",1,1.5]]"#),
        "invalid type: floating point `1.5`, expected u64"
    );
    assert_eq!(
        fault(r#"[["k","noul","c",1,1,1]]"#),
        "invalid length 6, expected fewer elements in array"
    );
    assert_eq!(Trace::decode(&parse("[]").unwrap()).unwrap(), Trace::default());
}
