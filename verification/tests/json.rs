//! JSON values.

use bot_polymarket_rust::json::{read_json, Json};

fn text(s: &str) -> Json {
    Json::Text(s.to_string())
}

#[test]
fn fields_are_found_by_name_and_kind() {
    let j = Json::Object(vec![
        ("a".to_string(), text("x")),
        ("b".to_string(), Json::Array(vec![Json::Bool(true)])),
    ]);
    assert!(j.is_object());
    assert_eq!(j.get_text("a").map(String::as_str), Some("x"));
    assert!(j.get_text("b").is_none());
    assert_eq!(j.get_array("b").map(|v| v.len()), Some(1));
    assert!(j.get("c").is_none());
    assert!(text("x").get("a").is_none());
    assert!(Json::Null.as_array().is_none());
}

#[test]
fn records_are_objects_or_arrays() {
    let fields = vec!["p", "q"];
    let o = Json::Object(vec![
        ("q".to_string(), text("2")),
        ("r".to_string(), Json::Null),
        ("p".to_string(), text("1")),
    ]);
    assert_eq!(o.get_record(&fields), Some(vec!["1".to_string(), "2".to_string()]));
    let a = Json::Array(vec![text("1"), text("2")]);
    assert_eq!(a.get_record(&fields), Some(vec!["1".to_string(), "2".to_string()]));
    assert_eq!(Json::Array(vec![text("1")]).get_record(&fields), None);
    assert_eq!(Json::Array(vec![text("1"), Json::Null]).get_record(&fields), None);
    assert_eq!(text("1").get_record(&fields), None);
}

#[test]
fn every_kind_of_value_is_read() {
    let text = r#"{"n": null, "b": true, "i": -12, "f": 1.50, "t": "a\u0062", "v": [1, ["x"]], "o": {}}"#;
    let j = read_json(text).unwrap();
    assert!(matches!(j.get("n"), Some(Json::Null)));
    assert!(matches!(j.get("b"), Some(Json::Bool(true))));
    assert!(matches!(j.get("i"), Some(Json::Number(n)) if n == "-12"));
    assert!(matches!(j.get("f"), Some(Json::Number(n)) if n == "1.5"));
    assert_eq!(j.get_text("t").map(String::as_str), Some("ab"));
    let v = j.get_array("v").unwrap();
    assert!(matches!(&v[0], Json::Number(n) if n == "1"));
    assert_eq!(v[1].as_array().unwrap()[0].as_text().map(String::as_str), Some("x"));
    assert!(matches!(j.get("o"), Some(Json::Object(e)) if e.is_empty()));
    assert!(read_json("").is_none());
    assert!(read_json("{\"a\": 1,}").is_none());
    assert!(read_json("true false").is_none());
}
