use lcu_autopick::json::{Json, JsonNumber};

fn from_value(v: &serde_json::Value) -> Json {
    match v {
        serde_json::Value::Null => Json::Null,
        serde_json::Value::Bool(b) => Json::Bool(*b),
        serde_json::Value::Number(n) => {
            if let Some(u) = n.as_u64() {
                Json::Number(JsonNumber::PosInt(u))
            } else if let Some(i) = n.as_i64() {
                Json::Number(JsonNumber::NegInt(i))
            } else {
                Json::Number(JsonNumber::Float(n.to_string()))
            }
        }
        serde_json::Value::String(s) => Json::Str(s.clone()),
        serde_json::Value::Array(a) => Json::Array(a.iter().map(from_value).collect()),
        serde_json::Value::Object(m) => {
            Json::Object(m.iter().map(|(k, v)| (k.clone(), from_value(v))).collect())
        }
    }
}

fn parse(text: &str) -> Json {
    from_value(&serde_json::from_str::<serde_json::Value>(text).unwrap())
}

fn text_of(j: Option<&Json>) -> Option<String> {
    j.and_then(|j| j.as_str()).cloned()
}

#[test]
fn numbers_read_as_serde_json_reads_them() {
    for text in ["5", "-5", "18446744073709551615", "9223372036854775808", "-9223372036854775808", "1.5", "true", "\"5\""] {
        let v: serde_json::Value = serde_json::from_str(text).unwrap();
        let j = from_value(&v);
        assert_eq!(j.as_u64(), v.as_u64(), "{}", text);
        assert_eq!(j.as_i64(), v.as_i64(), "{}", text);
        assert_eq!(j.as_bool(), v.as_bool(), "{}", text);
        assert_eq!(j.as_str().map(|s| s.as_str()), v.as_str(), "{}", text);
    }
}

#[test]
fn member_lookup_finds_the_key() {
    let j = parse(r#"{"a": 1, "b": "two", "c": [1, 2]}"#);
    assert_eq!(j.get("a").and_then(|x| x.as_u64()), Some(1));
    assert_eq!(text_of(j.get("b")), Some("two".to_string()));
    assert_eq!(j.get("c").and_then(|x| x.as_array()).map(|a| a.len()), Some(2));
    assert!(j.get("d").is_none());
    assert!(parse("[1]").get("a").is_none());
    assert!(parse("null").get("a").is_none());
}

#[test]
fn setting_availability_on_an_object_replaces_it() {
    let j = parse(r#"{"availability": "chat", "name": "me"}"#);
    let new = j.set_member("availability", Json::Str("away".to_string())).unwrap();
    assert_eq!(text_of(new.get("availability")), Some("away".to_string()));
    assert_eq!(text_of(new.get("name")), Some("me".to_string()));
    match new {
        Json::Object(m) => {
            assert_eq!(m.len(), 2);
            assert_eq!(m[0].0, "availability");
        }
        _ => panic!("not an object"),
    }
}

#[test]
fn setting_a_new_member_appends_it() {
    let j = parse(r#"{"name": "me"}"#);
    let new = j.set_member("availability", Json::Str("dnd".to_string())).unwrap();
    match &new {
        Json::Object(m) => {
            assert_eq!(m.len(), 2);
            assert_eq!(m[1].0, "availability");
        }
        _ => panic!("not an object"),
    }
    assert_eq!(text_of(new.get("availability")), Some("dnd".to_string()));
    assert_eq!(text_of(new.get("name")), Some("me".to_string()));
}

#[test]
fn setting_a_member_on_null_makes_an_object() {
    let new = Json::Null.set_member("availability", Json::Str("chat".to_string())).unwrap();
    assert_eq!(text_of(new.get("availability")), Some("chat".to_string()));
}

#[test]
fn setting_a_member_on_other_values_is_refused() {
    assert!(parse("[1, 2]").set_member("availability", Json::Null).is_none());
    assert!(parse("3").set_member("availability", Json::Null).is_none());
    assert!(parse("\"x\"").set_member("availability", Json::Null).is_none());
}

#[test]
fn set_then_get_on_serde_json_agrees() {
    let text = r#"{"availability": "chat", "icon": 12, "statusMessage": ""}"#;
    let mut v: serde_json::Value = serde_json::from_str(text).unwrap();
    v["availability"] = serde_json::Value::String("away".to_string());
    let ours = parse(text).set_member("availability", Json::Str("away".to_string())).unwrap();
    for key in ["availability", "icon", "statusMessage", "missing"] {
        assert_eq!(ours.get(key).map(|j| format!("{:?}", j.as_str())), v.get(key).map(|j| format!("{:?}", j.as_str().map(|s| s.to_string()))));
    }
}

#[test]
fn take_member_moves_the_value_out() {
    let j = parse(r#"{"members": [1, 2, 3], "x": 1}"#);
    let m = j.take_member("members").unwrap();
    assert_eq!(m.as_array().map(|a| a.len()), Some(3));
    assert!(parse(r#"{"x": 1}"#).take_member("members").is_none());
}
