use gorldle::json::{Json, JsonNumber};

fn s(t: &str) -> Json {
    Json::String(t.to_string())
}

fn n(v: u64) -> Json {
    Json::Number(JsonNumber::PosInt(v))
}

fn obj(members: Vec<(&str, Json)>) -> Json {
    Json::Object(members.into_iter().map(|(k, v)| (k.to_string(), v)).collect())
}

#[test]
fn equal_values_are_same() {
    let a = obj(vec![("a", n(1)), ("b", Json::Array(vec![s("x"), Json::Null]))]);
    let b = obj(vec![("a", n(1)), ("b", Json::Array(vec![s("x"), Json::Null]))]);
    assert!(a.same(&b));
    assert!(a.same(&a.duplicate()));
}

#[test]
fn different_values_are_not_same() {
    assert!(!n(1).same(&n(2)));
    assert!(!n(1).same(&s("1")));
    assert!(!Json::Array(vec![n(1)]).same(&Json::Array(vec![n(1), n(1)])));
    assert!(!obj(vec![("a", n(1))]).same(&obj(vec![("b", n(1))])));
    assert!(!Json::Number(JsonNumber::NegInt(-1)).same(&Json::Number(JsonNumber::PosInt(1))));
    assert!(!Json::Bool(true).same(&Json::Bool(false)));
}

#[test]
fn member_lookup() {
    let v = obj(vec![("id", n(3)), ("name", s("Axe"))]);
    assert!(v.get("id").unwrap().same(&n(3)));
    assert!(v.get("missing").is_none());
    assert!(n(3).get("id").is_none());
    assert_eq!(v.get("id").unwrap().as_u64(), Some(3));
    assert_eq!(v.get("name").unwrap().as_str(), Some("Axe"));
    assert_eq!(v.get("name").unwrap().as_u64(), None);
    assert_eq!(Json::Number(JsonNumber::NegInt(-3)).as_u64(), None);
    assert!(Json::Array(vec![]).as_array().is_some());
    assert!(s("x").as_array().is_none());
}

#[test]
fn text_matches_serde_json() {
    let v = obj(vec![
        ("a", Json::Array(vec![n(1), Json::Number(JsonNumber::NegInt(-20)), Json::Bool(true), Json::Null])),
        ("b", s("say \"hi\"\n")),
    ]);
    let mut m = serde_json::Map::new();
    m.insert(
        "a".to_string(),
        serde_json::Value::Array(vec![
            serde_json::Value::from(1u64),
            serde_json::Value::from(-20i64),
            serde_json::Value::Bool(true),
            serde_json::Value::Null,
        ]),
    );
    m.insert("b".to_string(), serde_json::Value::from("say \"hi\"\n"));
    let expected = serde_json::Value::Object(m).to_string();
    assert_eq!(v.text(), expected);
    assert_eq!(v.text(), "{\"a\":[1,-20,true,null],\"b\":\"say \\\"hi\\\"\\n\"}");
}

#[test]
fn number_text() {
    assert_eq!(n(0).text(), "0");
    assert_eq!(n(18446744073709551615).text(), "18446744073709551615");
    assert_eq!(Json::Number(JsonNumber::NegInt(-9223372036854775808)).text(), "-9223372036854775808");
    let f = Json::Number(JsonNumber::Float { bits: 2.5f64.to_bits(), text: "2.5".to_string() });
    assert_eq!(f.text(), "2.5");
    assert_eq!(Json::Array(vec![]).text(), "[]");
    assert_eq!(Json::Object(vec![]).text(), "{}");
}


fn float(v: f64) -> Json {
    let text = serde_json::Number::from_f64(v).unwrap().to_string();
    Json::Number(JsonNumber::Float { bits: v.to_bits(), text })
}

#[test]
fn floats_compare_by_value() {
    assert!(float(0.0).same(&float(-0.0)));
    assert!(float(-0.0).same(&float(0.0)));
    assert!(float(2.5).same(&float(2.5)));
    assert!(!float(2.5).same(&float(-2.5)));
    assert!(!float(1.0).same(&n(1)));
    assert!(Json::Array(vec![float(0.0)]).same(&Json::Array(vec![float(-0.0)])));
    assert_eq!(
        serde_json::Value::from(0.0f64) == serde_json::Value::from(-0.0f64),
        float(0.0).same(&float(-0.0))
    );
}

#[test]
fn string_escapes_match_serde_json() {
    let raw = "a\u{1}b\u{1f}\t\u{8}\u{c}\r\n\\\"\u{7f}é";
    let v = s(raw);
    assert_eq!(v.text(), serde_json::Value::from(raw).to_string());
    assert_eq!(v.text(), "\"a\\u0001b\\u001f\\t\\b\\f\\r\\n\\\\\\\"\u{7f}é\"");
}
