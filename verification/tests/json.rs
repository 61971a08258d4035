use nvim_vadre::json::{merge_json, parse_json, value_held, Json};
use nvim_vadre::str_map::StrMap;

fn object(members: Vec<(&str, Json)>) -> Json {
    let mut o = Json::object();
    for (k, v) in members {
        o = o.with(k, v);
    }
    o
}

fn merged(mut a: Json, b: Json) -> String {
    merge_json(&mut a, b);
    a.display()
}

#[test]
fn values_are_shown_as_json() {
    let value = object(vec![
        ("z", Json::Null),
        ("a", Json::Array(vec![Json::Bool(true), Json::Bool(false), Json::integer(-3)])),
        ("m", Json::text("quote \" slash \\ line\n ○ \u{1}")),
        ("f", Json::Float("1.5".to_string())),
        ("u", Json::Unsigned(u64::MAX)),
    ]);
    let expected = serde_json::Value::Object(serde_json::Map::from_iter(vec![
        ("z".to_string(), serde_json::Value::Null),
        (
            "a".to_string(),
            serde_json::Value::Array(vec![true.into(), false.into(), (-3).into()]),
        ),
        ("m".to_string(), "quote \" slash \\ line\n ○ \u{1}".into()),
        ("f".to_string(), serde_json::Value::from(1.5)),
        ("u".to_string(), u64::MAX.into()),
    ]));
    assert_eq!(value.display(), expected.to_string());
}

#[test]
fn members_and_items_are_found() {
    let value = object(vec![(
        "params",
        object(vec![(
            "callFrames",
            Json::Array(vec![object(vec![("line", Json::integer(4))])]),
        )]),
    )]);
    let frames = value.get("params").and_then(|p| p.get("callFrames")).unwrap();
    assert_eq!(frames.item(0).and_then(|f| f.get("line")).and_then(|l| l.as_i64()), Some(4));
    assert!(frames.item(1).is_none());
    assert!(frames.get("line").is_none());
    assert!(value.item(0).is_none());
    assert!(value.get("other").is_none());
    assert_eq!(Json::text("x").as_str(), Some("x"));
    assert_eq!(Json::Null.as_str(), None);
}

#[test]
fn integers_fit_or_not() {
    assert_eq!(Json::Unsigned(i64::MAX as u64).as_i64(), Some(i64::MAX));
    assert_eq!(Json::Unsigned(i64::MAX as u64 + 1).as_i64(), None);
    assert_eq!(Json::integer(i64::MIN).as_i64(), Some(i64::MIN));
    assert_eq!(Json::integer(-1).as_u64(), None);
    assert_eq!(Json::Unsigned(u64::MAX).as_u64(), Some(u64::MAX));
    assert_eq!(Json::Float("1.0".to_string()).as_i64(), None);
}

#[test]
fn lists_and_maps_of_texts() {
    let list = Json::text_list(&vec!["a".to_string(), "b".to_string()]);
    assert_eq!(list.display(), "[\"a\",\"b\"]");
    let mut map = StrMap::new();
    map.insert("K".to_string(), "v".to_string());
    assert_eq!(Json::text_map(&map).display(), "{\"K\":\"v\"}");
}

#[test]
fn objects_are_merged_member_by_member() {
    let base = || {
        object(vec![
            ("keep", Json::integer(1)),
            ("drop", Json::integer(2)),
            ("deep", object(vec![("x", Json::integer(1)), ("y", Json::integer(2))])),
        ])
    };
    let over = || {
        object(vec![
            ("drop", Json::Null),
            ("deep", object(vec![("y", Json::integer(3)), ("z", Json::integer(4))])),
            ("new", Json::text("n")),
            ("missing", Json::Null),
        ])
    };
    let expected = "{\"deep\":{\"x\":1,\"y\":3,\"z\":4},\"keep\":1,\"new\":\"n\"}";
    assert_eq!(merged(base(), over()), expected);
    // Once more changes nothing.
    let mut twice = base();
    merge_json(&mut twice, over());
    assert_eq!(merged(twice, over()), expected);
    // Nothing changes nothing.
    assert_eq!(merged(base(), Json::object()), base().display());
    // One member sets that member.
    assert_eq!(
        merged(object(vec![("a", Json::integer(1))]), object(vec![("b", Json::integer(2))])),
        "{\"a\":1,\"b\":2}"
    );
}

#[test]
fn what_is_no_object_is_replaced() {
    assert_eq!(merged(Json::integer(1), Json::text("x")), "\"x\"");
    assert_eq!(merged(Json::object(), Json::Array(vec![])), "[]");
    assert_eq!(
        merged(Json::Null, object(vec![("id", Json::integer(1))])),
        "{\"id\":1}"
    );
    // A null that comes to stand in a new object stays.
    assert_eq!(
        merged(Json::object(), object(vec![("a", object(vec![("b", Json::Null)]))])),
        "{\"a\":{\"b\":null}}"
    );
}

#[test]
fn texts_are_escaped() {
    let shown = |s: &str| Json::text(s).display();
    assert_eq!(shown("a\"b\\c/\u{7f}é"), "\"a\\\"b\\\\c/\u{7f}é\"");
    assert_eq!(shown("\u{8}\t\n\u{c}\r"), "\"\\b\\t\\n\\f\\r\"");
    assert_eq!(shown("\u{0}\u{b}\u{1f} "), "\"\\u0000\\u000b\\u001f \"");
}

fn read(text: &str) -> String {
    parse_json(text).map_or("no JSON".to_string(), |j| j.display())
}

#[test]
fn json_texts_are_read() {
    assert_eq!(read(" null "), "null");
    assert_eq!(read("[true, false]"), "[true,false]");
    assert_eq!(read("{\"b\": [], \"a\": {\"c\": \"\\u0041\\n\"}}"), "{\"a\":{\"c\":\"A\\n\"},\"b\":[]}");
    assert_eq!(read("{\"a\": 1, \"b\": 2, \"a\": 3}"), "{\"a\":3,\"b\":2}");
    assert_eq!(read("{\"é\": 1, \"z\": 2, \"\\ud83d\\ude00\": 3}"), "{\"z\":2,\"é\":1,\"😀\":3}");
}

#[test]
fn numbers_are_told_apart() {
    assert!(matches!(parse_json("0"), Some(Json::Unsigned(0))));
    assert!(matches!(parse_json("18446744073709551615"), Some(Json::Unsigned(u64::MAX))));
    assert!(matches!(parse_json("-1"), Some(Json::Negative(-1))));
    assert!(matches!(parse_json("-9223372036854775808"), Some(Json::Negative(i64::MIN))));
    assert!(matches!(parse_json("1.50"), Some(Json::Float(t)) if t == "1.5"));
    assert!(matches!(parse_json("18446744073709551616"), Some(Json::Float(_))));
}

#[test]
fn other_texts_are_no_json() {
    for text in ["", "nul", "{", "[1,]", "{\"a\":}", "1 2", "'a'", "01", "\"\u{1}\""] {
        assert!(parse_json(text).is_none(), "{}", text);
    }
    let deep = "[".repeat(1000) + &"]".repeat(1000);
    assert!(parse_json(&deep).is_none());
}

#[test]
fn a_text_is_read_as_what_serde_json_reads() {
    let text = "{\"id\":7,\"r\":{\"list\":[null,-2,2.25,\"x\",{}]},\"ok\":true}";
    let value: serde_json::Value = serde_json::from_str(text).unwrap();
    assert_eq!(value_held(&value).display(), value.to_string());
    assert_eq!(read(text), value.to_string());
}
