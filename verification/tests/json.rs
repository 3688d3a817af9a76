use poloniex_bot::json::{find_field, Json};

#[test]
fn parse_copies_every_kind_of_value() {
    assert_eq!(Json::parse("null"), Some(Json::Null));
    assert_eq!(Json::parse("true"), Some(Json::Bool(true)));
    assert_eq!(Json::parse("false"), Some(Json::Bool(false)));
    assert_eq!(Json::parse("148"), Some(Json::Number(Some(148))));
    assert_eq!(Json::parse("\"i\""), Some(Json::Text("i".to_string())));
    assert_eq!(Json::parse("[]"), Some(Json::Array(vec![])));
    assert_eq!(Json::parse("{}"), Some(Json::Object(vec![])));
}

#[test]
fn parse_keeps_only_unsigned_integers() {
    assert_eq!(Json::parse("18446744073709551615"), Some(Json::Number(Some(u64::MAX))));
    assert_eq!(Json::parse("-1"), Some(Json::Number(None)));
    assert_eq!(Json::parse("1.5"), Some(Json::Number(None)));
    assert_eq!(Json::parse("1e3"), Some(Json::Number(None)));
    assert_eq!(Json::parse("18446744073709551616"), Some(Json::Number(None)));
}

#[test]
fn parse_copies_nested_values() {
    let parsed = Json::parse("[1010, [\"o\", 1, \"101\"], {\"a\": {\"b\": [null]}}]");
    let expected = Json::Array(vec![
        Json::Number(Some(1010)),
        Json::Array(vec![
            Json::Text("o".to_string()),
            Json::Number(Some(1)),
            Json::Text("101".to_string()),
        ]),
        Json::Object(vec![(
            "a".to_string(),
            Json::Object(vec![("b".to_string(), Json::Array(vec![Json::Null]))]),
        )]),
    ]);
    assert_eq!(parsed, Some(expected));
}

#[test]
fn parse_refuses_what_is_not_json() {
    for text in ["", "[", "[1,]", "{\"a\"}", "nul", "[1] 2", "'a'"] {
        assert_eq!(Json::parse(text), None, "{:?}", text);
    }
}

#[test]
fn parse_keeps_each_key_once() {
    let parsed = Json::parse("{\"a\": 1, \"b\": 2, \"a\": 3}").unwrap();
    let fields = parsed.fields().unwrap();
    assert_eq!(fields.len(), 2);
    assert_eq!(find_field(fields, &"a".to_string()), Some(&Json::Number(Some(3))));
    assert_eq!(find_field(fields, &"b".to_string()), Some(&Json::Number(Some(2))));
    assert_eq!(find_field(fields, &"c".to_string()), None);
}

#[test]
fn accessors_tell_the_kinds_apart() {
    let number = Json::Number(Some(300));
    assert_eq!(number.as_u32(), Some(300));
    assert_eq!(number.as_u8(), None);
    assert_eq!(Json::Number(Some(255)).as_u8(), Some(255));
    assert_eq!(Json::Number(Some(4_294_967_295)).as_u32(), Some(u32::MAX));
    assert_eq!(Json::Number(Some(4_294_967_296)).as_u32(), None);
    assert_eq!(Json::Number(None).as_u32(), None);
    assert_eq!(Json::Text("1".to_string()).as_u32(), None);
    assert_eq!(Json::Text("1".to_string()).as_text(), Some(&"1".to_string()));
    assert_eq!(number.as_text(), None);
    assert_eq!(Json::Array(vec![Json::Null]).items(), Some(&vec![Json::Null]));
    assert_eq!(Json::Null.items(), None);
    assert_eq!(Json::Null.fields(), None);
}
