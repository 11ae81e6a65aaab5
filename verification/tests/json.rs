use pi_acp::json::Json;

fn parse(text: &str) -> Json {
    Json::parse(text.as_bytes()).unwrap()
}

#[test]
fn parse_reads_what_display_writes() {
    let text = r#"{"a":[1,-2,true,null,"x\ny"],"b":{"c":{}}}"#;
    assert_eq!(parse(text).display(), text);
    assert_eq!(parse(text).to_bytes().unwrap(), text.as_bytes());
}

#[test]
fn parse_says_why_it_fails() {
    let error = Json::parse(b"{").err().unwrap();
    assert_eq!(error, "EOF while parsing an object at line 1 column 1");
}

#[test]
fn a_later_member_replaces_an_earlier_one_in_its_place() {
    assert_eq!(parse(r#"{"a":1,"b":2,"a":3}"#).display(), r#"{"a":3,"b":2}"#);
    let value = Json::object()
        .with("x", Json::integer(1))
        .with("y", Json::text("t"))
        .with("x", Json::Bool(false));
    assert_eq!(value.display(), r#"{"x":false,"y":"t"}"#);
}

#[test]
fn members_are_found_by_their_keys() {
    let value = parse(r#"{"s":"text","n":{"t":"deep","u":5},"b":true,"l":[1,2],"neg":-7}"#);
    assert_eq!(value.str_at("s"), Some("text"));
    assert_eq!(value.str_at("b"), None);
    assert_eq!(value.str_in("n", "t"), Some("deep"));
    assert_eq!(value.str_in("s", "t"), None);
    assert!(value.is_true("b"));
    assert!(!value.is_true("s"));
    assert!(value.has_text("s", "text"));
    assert!(!value.has_text("s", "tex"));
    assert_eq!(value.items_at("l").unwrap().len(), 2);
    assert!(value.items_at("s").is_none());
    assert!(value.get("missing").is_none());
    assert_eq!(value.get_or_null("missing").display(), "null");
    assert_eq!(value.get_in("n", "u").unwrap().as_u64(), Some(5));
    assert_eq!(value.get("neg").unwrap().as_i64(), Some(-7));
    assert_eq!(value.get("neg").unwrap().as_u64(), None);
}

#[test]
fn a_value_that_is_no_object_has_no_members() {
    assert!(parse("[1]").get("0").is_none());
    assert!(parse("\"x\"").get("x").is_none());
    assert_eq!(parse("\"x\"").as_str(), Some("x"));
}

#[test]
fn numbers_keep_their_form() {
    assert_eq!(parse("[1.5,1e3,18446744073709551615]").display(), "[1.5,1000.0,18446744073709551615]");
    assert_eq!(parse("18446744073709551615").as_u64(), Some(u64::MAX));
    assert_eq!(parse("18446744073709551615").as_i64(), None);
    assert_eq!(Json::integer(i64::MIN).as_i64(), Some(i64::MIN));
}

#[test]
fn values_go_through_the_outside_type_unchanged() {
    let text = r#"{"a":[{"b":null},"c"],"d":-0.5}"#;
    let outside: serde_json::Value = serde_json::from_str(text).unwrap();
    assert_eq!(parse(text).to_value(), outside);
    assert_eq!(Json::from_value(outside).display(), text);
    assert_eq!(parse(text).copy().display(), text);
}

#[test]
fn pretty_text_stands_on_several_lines() {
    assert_eq!(parse(r#"{"a":1}"#).to_pretty(), "{\n  \"a\": 1\n}");
}

#[test]
fn an_optional_text_is_null_where_there_is_none() {
    assert_eq!(Json::opt_text(Some("x")).display(), "\"x\"");
    assert_eq!(Json::opt_text(None).display(), "null");
}

#[test]
fn written_text_holds_no_line_feed() {
    let bytes = Json::text("a\nb\r\u{1}").to_bytes().unwrap();
    assert_eq!(bytes, b"\"a\\nb\\r\\u0001\"");
}
