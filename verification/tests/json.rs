use cocore_provider::json::{parse_slice, parse_str, to_bytes, Json};

fn field(key: &str, value: Json) -> (String, Json) {
    (key.to_string(), value)
}

fn written(j: Json) -> String {
    String::from_utf8(to_bytes(j).unwrap()).unwrap()
}

#[test]
fn reads_every_kind_of_value() {
    let j = parse_str("{\"a\":[null,true,7,-7,0.5,\"x\"],\"b\":{\"c\":[]}}").unwrap();
    assert!(matches!(j.at(&["a", "0"]), Some(Json::Null)));
    assert!(matches!(j.at(&["a", "1"]), Some(Json::Bool(true))));
    assert_eq!(j.at(&["a", "2"]).unwrap().as_u64(), Some(7));
    assert_eq!(j.at(&["a", "3"]).unwrap().as_u64(), None);
    assert_eq!(j.at(&["a", "4"]).unwrap().as_u64(), None);
    assert_eq!(parse_str("5.0").unwrap().as_u64(), None);
    assert_eq!(j.at(&["a", "5"]).unwrap().as_str().map(|s| s.as_str()), Some("x"));
    assert_eq!(j.get("b").unwrap().get("c").unwrap().as_array().map(|v| v.len()), Some(0));
    assert!(j.get("c").is_none());
    assert!(Json::Null.get("a").is_none());
    assert!(Json::Null.as_array().is_none());
    assert!(Json::Null.as_str().is_none());
    assert_eq!(Json::Natural(u64::MAX).as_u64(), Some(u64::MAX));
}

#[test]
fn refuses_what_is_no_json() {
    for bad in ["", "{", "nul", "[1,]", "{\"a\":1} x", "'a'"] {
        assert!(parse_str(bad).is_none(), "{bad:?}");
        // What the error says is what serde_json says.
        let error = serde_json::from_slice::<serde_json::Value>(bad.as_bytes()).unwrap_err();
        assert_eq!(parse_slice(bad.as_bytes()).unwrap_err(), error.to_string());
    }
    assert_eq!(
        parse_slice(b"[1,]").unwrap_err(),
        "trailing comma at line 1 column 4"
    );
    assert!(parse_slice(b"\"\xff\"").is_err());
    assert!(parse_slice(b" [1] ").is_ok());
}

#[test]
fn paths_take_places_and_keys() {
    let j = parse_str("[[10,11],{\"0\":20,\"x\":21}]").unwrap();
    let at = |path: &[&str]| j.at(path).and_then(|v| v.as_u64());
    assert_eq!(at(&["0", "1"]), Some(11));
    assert_eq!(at(&["1", "0"]), Some(20));
    assert_eq!(at(&["1", "x"]), Some(21));
    assert!(j.at(&[]).is_some());
    for token in ["2", "00", "+0", "-1", "", "x", "18446744073709551616"] {
        assert!(j.at(&["0", token]).is_none(), "{token:?}");
        // The rule for places is that of serde_json's pointers.
        let v: serde_json::Value = serde_json::from_str("[10,11]").unwrap();
        assert!(v.pointer(&format!("/{token}")).is_none());
    }
    assert!(j.at(&["0", "0", "0"]).is_none());
}

#[test]
fn a_later_field_counts() {
    let j = Json::Object(vec![field("a", Json::Natural(1)), field("a", Json::Natural(2))]);
    assert_eq!(j.get("a").unwrap().as_u64(), Some(2));
    assert_eq!(written(j), "{\"a\":2}");
    let read = parse_str("{\"a\":1,\"a\":2}").unwrap();
    assert_eq!(read.get("a").unwrap().as_u64(), Some(2));
}

#[test]
fn writes_every_kind_of_value() {
    let half = serde_json::Number::from_f64(0.5).unwrap();
    let j = Json::Object(vec![
        field("z", Json::Null),
        field("b", Json::Bool(false)),
        field("n", Json::Natural(u64::MAX)),
        field("h", Json::Number(half)),
        field("t", Json::Text("q\"\n".to_string())),
        field("l", Json::Array(vec![Json::Natural(1), Json::Array(vec![])])),
        field("o", Json::Object(vec![])),
    ]);
    assert_eq!(
        written(j),
        "{\"b\":false,\"h\":0.5,\"l\":[1,[]],\"n\":18446744073709551615,\"o\":{},\"t\":\"q\\\"\\n\",\"z\":null}"
    );
}

#[test]
fn a_natural_held_as_a_number_is_a_natural() {
    let n = Json::Number(serde_json::Number::from(5u64));
    assert_eq!(n.as_u64(), Some(5));
    assert_eq!(written(n), "5");
}
