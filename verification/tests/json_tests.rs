use rustfasttext::json::{parse_json, Json};

fn sample() -> Json {
    Json::Object(vec![
        ("a".to_string(), Json::Array(vec![Json::Str("x".to_string()), Json::Null])),
        ("b".to_string(), Json::Bool(true)),
    ])
}

#[test]
fn lookups_by_key_and_index() {
    let v = sample();
    let a = v.get_key("a").unwrap();
    assert_eq!(a.get_index(0).and_then(|x| x.as_str()).map(|s| s.as_str()), Some("x"));
    assert_eq!(a.get_index(1), Some(&Json::Null));
    assert_eq!(a.get_index(2), None);
    assert_eq!(v.get_key("b"), Some(&Json::Bool(true)));
    assert_eq!(v.get_key("c"), None);
    assert_eq!(v.get_index(0), None);
    assert_eq!(a.get_key("a"), None);
    assert_eq!(Json::Number("1".to_string()).as_str(), None);
}

#[test]
fn parse_gives_the_model() {
    assert_eq!(
        parse_json("{\"b\": [1, \"x\", null, true], \"a\": {}}"),
        Some(Json::Object(vec![
            ("a".to_string(), Json::Object(vec![])),
            (
                "b".to_string(),
                Json::Array(vec![
                    Json::Number("1".to_string()),
                    Json::Str("x".to_string()),
                    Json::Null,
                    Json::Bool(true),
                ])
            ),
        ]))
    );
    assert_eq!(parse_json("not json"), None);
    assert_eq!(parse_json("\"s\""), Some(Json::Str("s".to_string())));
}
