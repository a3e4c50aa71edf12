use rust_iss::jsonpick::s_pick;
use serde_json::Value;

fn object(fields: Vec<(&str, Value)>) -> Value {
    let mut m = serde_json::Map::new();
    for (k, v) in fields {
        m.insert(k.to_string(), v);
    }
    Value::Object(m)
}

#[test]
fn test_s_pick() {
    let val: Value = object(vec![
        ("a", Value::String("x".to_string())),
        ("b", Value::Number(serde_json::Number::from(42))),
    ]);
    assert_eq!(s_pick(&val, &["a", "b"]), Some("x".to_string()));
    assert_eq!(s_pick(&val, &["b"]), Some("42".to_string()));
}

#[test]
fn s_pick_takes_the_first_present_key() {
    let val = object(vec![
        ("second", Value::String("later".to_string())),
        ("first", Value::String("sooner".to_string())),
    ]);
    assert_eq!(s_pick(&val, &["missing", "first", "second"]), Some("sooner".to_string()));
}

#[test]
fn s_pick_none_when_no_key_matches() {
    let val = object(vec![("a", Value::String("x".to_string()))]);
    assert_eq!(s_pick(&val, &["b", "c"]), None);
    assert_eq!(s_pick(&val, &[]), None);
}

#[test]
fn s_pick_renders_string_fields_without_quotes() {
    // a string field is shown by its content, not its JSON rendering
    let val = object(vec![("name", Value::String("hubble".to_string()))]);
    assert_eq!(s_pick(&val, &["name"]), Some("hubble".to_string()));
}

#[test]
fn s_pick_renders_non_string_fields_as_json() {
    let val = object(vec![
        ("flag", Value::Bool(true)),
        ("nothing", Value::Null),
    ]);
    assert_eq!(s_pick(&val, &["flag"]), Some("true".to_string()));
    assert_eq!(s_pick(&val, &["nothing"]), Some("null".to_string()));
}
