use herdr_system_notify_bridge::json::{read, Json};

fn parsed(text: &str) -> Json {
    match read(text) {
        Ok(doc) => doc,
        Err(e) => panic!("{}", e),
    }
}

#[test]
fn read_takes_every_kind_of_value() {
    let doc = parsed("{\"n\":null,\"b\":true,\"i\":12,\"f\":1.5,\"s\":\"a\\n\\u00e9\",\"l\":[\"x\",[]],\"o\":{}}");
    assert!(matches!(doc.get("n"), Some(Json::Null)));
    assert!(matches!(doc.get("b"), Some(Json::Bool(true))));
    assert!(matches!(doc.get("i"), Some(Json::Number(text)) if text == "12"));
    assert!(matches!(doc.get("f"), Some(Json::Number(text)) if text == "1.5"));
    assert_eq!(doc.text_at("s"), Some("a\né"));
    let list = doc.get("l").and_then(|l| l.as_array()).unwrap();
    assert_eq!(list.len(), 2);
    assert_eq!(list[0].as_text(), Some("x"));
    assert!(matches!(&list[1], Json::Array(items) if items.is_empty()));
    assert!(matches!(doc.get("o"), Some(Json::Object(fields)) if fields.is_empty()));
}

#[test]
fn read_reports_what_serde_json_reports() {
    for text in ["", "{", "nope", "{\"a\":1,}", "1 2"] {
        let complaint = serde_json::from_str::<serde_json::Value>(text).unwrap_err().to_string();
        assert_eq!(read(text).err(), Some(complaint));
    }
}

#[test]
fn read_keeps_the_last_of_equal_names() {
    assert_eq!(parsed("{\"a\":\"x\",\"a\":\"y\"}").text_at("a"), Some("y"));
}

#[test]
fn get_takes_the_last_of_equal_names() {
    let doc = Json::Object(vec![
        ("a".to_string(), Json::Text("x".to_string())),
        ("a".to_string(), Json::Text("y".to_string())),
    ]);
    assert_eq!(doc.text_at("a"), Some("y"));
    assert_eq!(doc.into_field("a").unwrap().as_text(), Some("y"));
}

#[test]
fn fields_of_other_values_are_absent() {
    assert!(parsed("[{\"a\":1}]").get("a").is_none());
    assert!(parsed("\"a\"").get("a").is_none());
    assert!(parsed("{}").get("a").is_none());
    assert!(parsed("{\"a\":1}").as_text().is_none());
    assert!(parsed("{\"a\":1}").as_array().is_none());
    assert!(parsed("{\"a\":1}").text_at("a").is_none());
    assert!(parsed("[]").into_field("a").is_none());
    assert!(parsed("{\"b\":1}").into_field("a").is_none());
}

#[test]
fn text_in_agrees_with_a_json_pointer() {
    for text in [
        "{\"error\":{\"code\":\"pane_not_found\"}}",
        "{\"error\":{\"code\":7}}",
        "{\"error\":\"code\"}",
        "{\"error\":[\"code\"]}",
        "{}",
        "[]",
    ] {
        let value: serde_json::Value = serde_json::from_str(text).unwrap();
        let expected = value.pointer("/error/code").and_then(|x| x.as_str());
        assert_eq!(parsed(text).text_in("error", "code"), expected);
    }
}
