use ooda::json::{parse, render};
use ooda::{Json, NameMap, Object, Real};

fn json(text: &str) -> Json {
    parse(text).unwrap()
}

fn num(x: f64) -> Real {
    match serde_json::Number::from_f64(x) {
        Some(number) => Real::finite(&number),
        None => Real::non_finite(x.to_bits()).unwrap(),
    }
}

#[test]
fn a_text_is_read_and_written_compactly() {
    let text = r#"{"b":[1,-2,0.5,1e300,true,null,"é\n"],"a":{"x":{}}}"#;
    assert_eq!(render(&json(text)), r#"{"b":[1,-2,0.5,1e+300,true,null,"é\n"],"a":{"x":{}}}"#);
    assert_eq!(render(&json(r#"{"a":1,"a":2}"#)), r#"{"a":2}"#);
    assert!(parse("{").is_err());
    assert!(parse("1 2").is_err());
}

#[test]
fn equality_ignores_the_order_of_members_only() {
    assert_eq!(json(r#"{"a":1,"b":[2]}"#), json(r#"{"b":[2],"a":1}"#));
    assert_ne!(json("[1,2]"), json("[2,1]"));
    assert_ne!(json("1"), json("1.0"));
    assert_eq!(json("0.0"), json("-0.0"));
    assert_ne!(json(r#"{"a":1}"#), json(r#"{"a":1,"b":2}"#));
    assert_eq!(json(r#"{"a":1}"#).clone(), json(r#"{"a":1}"#));
}

#[test]
fn an_object_keeps_first_places_and_last_values() {
    let mut object = Object::new();
    assert!(object.is_empty());
    object.put("b", Json::unsigned(1));
    object.put("a", Json::Null);
    object.put("b", Json::text("x"));
    assert_eq!(object.len(), 2);
    assert_eq!(object.key(0), "b");
    assert_eq!(object.value(0).as_str(), Some("x"));
    assert!(object.get("a").unwrap().is_null());
    assert!(object.get("c").is_none());
    assert_eq!(render(&Json::Object(object)), r#"{"b":"x","a":null}"#);
}

#[test]
fn a_pointer_step_reads_arrays_and_objects() {
    assert_eq!(json("[7,8]").first(), Some(&json("7")));
    assert_eq!(json(r#"{"0":7}"#).first(), Some(&json("7")));
    assert_eq!(json("[]").first(), None);
    assert_eq!(json("3").first(), None);
    assert_eq!(json("-3").as_unsigned(), None);
    assert_eq!(json("3.0").as_unsigned(), None);
    assert_eq!(json("-3").as_real(), Some(num(-3.0)));
    assert_eq!(json("18446744073709551615").as_real(), Some(num(18446744073709551615.0)));
}

#[test]
fn doubles_compare_as_doubles() {
    let numbers =
        [f64::NEG_INFINITY, -2.5, -0.0, 0.0, f64::MIN_POSITIVE, 1.0, f64::INFINITY, f64::NAN];
    for a in numbers {
        for b in numbers {
            assert_eq!(num(a).less_than(&num(b)), a < b);
            assert_eq!(num(a).at_most(&num(b)), a <= b);
            assert_eq!(num(a) == num(b), a == b);
            assert_eq!(
                f64::from_bits(num(a).lesser(num(b)).bits()).to_bits() << 1,
                if a.is_nan() { b.to_bits() << 1 } else { a.min(b).to_bits() << 1 }
            );
        }
        assert_eq!(num(a).is_nan(), a.is_nan());
        assert_eq!(num(a).is_finite(), a.is_finite());
        assert_eq!(num(a).text(), format!("{a}"));
        assert_eq!(num(a).fixed_text(), format!("{a:.3}"));
    }
    assert!(Real::non_finite(0).is_none());
    assert_eq!(Real::zero(), num(0.0));
    assert_eq!(render(&Json::of_real(&num(f64::NAN))), "null");
    assert_eq!(render(&Json::of_real(&num(2.0))), "2.0");
}

#[test]
fn a_name_map_is_read_in_the_order_of_its_names() {
    let mut map: NameMap<String> = NameMap::new();
    for (name, value) in [("b", "1"), ("é", "2"), ("a", "3"), ("b", "4"), ("", "5"), ("ab", "6")] {
        map.insert(name.to_owned(), value.to_owned());
    }
    let names: Vec<&str> = (0..map.len()).map(|i| map.name(i)).collect();
    assert_eq!(names, ["", "a", "ab", "b", "é"]);
    assert_eq!(map.get("b"), Some(&"4".to_owned()));
    assert_eq!(map.get("c"), None);
    assert_eq!(map.value(1), "3");
    assert!(!map.is_empty());
    assert_eq!(map.clone(), map);
}
