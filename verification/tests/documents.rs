use llmr::json::{Json, Number};
use llmr::text;

#[test]
fn a_document_reads_as_what_it_says() {
    let read = Json::parse("{\"a\":[1,-2,2.5,true,null,\"x\"],\"b\":{}}").unwrap();
    assert_eq!(
        read,
        Json::object()
            .with(
                "a",
                Json::Array(vec![
                    Json::Unsigned(1),
                    Json::Negative(-2),
                    Json::Float(Number::parse("2.5").unwrap()),
                    Json::Bool(true),
                    Json::Null,
                    Json::text("x"),
                ])
            )
            .with("b", Json::object())
    );
    assert_eq!(
        Json::parse_bytes(b"{\"a\":[1,-2,2.5,true,null,\"x\"],\"b\":{}}"),
        Ok(read)
    );
    assert!(Json::parse("{").is_err());
    assert!(Json::parse_bytes(b"\xff").is_err());
    assert_eq!(
        Json::parse_toml("a = 1\n[b]\nc = \"x\"\n"),
        Ok(Json::object()
            .with("a", Json::Unsigned(1))
            .with("b", Json::object().with("c", Json::text("x"))))
    );
    assert!(Json::parse_toml("a = ").is_err());
}

#[test]
fn a_document_is_written_in_the_order_of_its_names() {
    let written = Json::object()
        .with("b", Json::Array(vec![Json::Null, Json::Negative(-3)]))
        .with("a", Json::text("\"\n"));
    assert_eq!(written.to_text(), "{\"a\":\"\\\"\\n\",\"b\":[null,-3]}");
    assert_eq!(Json::parse(&written.to_text()), Ok(written));
}

#[test]
fn a_later_member_counts() {
    let twice = Json::object()
        .with("a", Json::Unsigned(1))
        .with("a", Json::Unsigned(2));
    assert_eq!(twice.u64_at("a"), Some(2));
    assert_eq!(twice.to_text(), "{\"a\":2}");
    assert_eq!(twice.without("a"), Json::object());
}

#[test]
fn a_pointer_finds_what_it_points_at() {
    let document = Json::parse("{\"a\":{\"b\":[10,{\"c/d\":1}]}}").unwrap();
    assert_eq!(document.pointer(""), Some(document.clone()));
    assert_eq!(document.pointer("/a/b/0"), Some(Json::Unsigned(10)));
    assert_eq!(document.pointer("/a/b/1/c~1d"), Some(Json::Unsigned(1)));
    assert_eq!(document.pointer("/a/x"), None);
    assert_eq!(document.pointer("a"), None);
}

#[test]
fn members_are_read_as_what_is_asked_for_or_not_at_all() {
    let document =
        Json::parse("{\"t\":\"x\",\"n\":3,\"m\":-3,\"f\":1.5,\"l\":[1],\"y\":true,\"z\":null}")
            .unwrap();
    assert_eq!(document.text_at("t"), Some("x"));
    assert_eq!(document.text_at("n"), None);
    assert_eq!(document.u64_at("n"), Some(3));
    assert_eq!(document.u64_at("m"), None);
    assert_eq!(document.u64_at("f"), None);
    assert_eq!(document.array_at("l").map(|l| l.len()), Some(1));
    assert_eq!(document.get("y").and_then(|y| y.as_bool()), Some(true));
    assert!(document.get("z").unwrap().is_null());
    assert_eq!(document.get("q"), None);
    assert_eq!(Json::Null.get("q"), None);
    assert_eq!(
        document
            .get("m")
            .and_then(|m| m.as_number())
            .map(|n| n.as_str().to_string()),
        Some("-3.0".to_string())
    );
}

#[test]
fn a_number_is_kept_as_the_shortest_text_that_reads_back() {
    assert_eq!(Number::parse("0.50").unwrap().as_str(), "0.5");
    assert_eq!(Number::parse("7").unwrap().as_str(), "7.0");
    assert!(Number::parse("NaN").is_none());
    assert!(Number::parse("inf").is_none());
    assert!(Number::parse("ten").is_none());
    assert_eq!(Json::Float(Number::parse("0.7").unwrap()).to_text(), "0.7");
}

#[test]
fn text_is_cut_the_way_it_is_read() {
    assert_eq!(text::trim(" \u{2003}a b\n"), "a b");
    assert_eq!(text::trim_behind(" a \n"), " a");
    assert_eq!(text::trim_end_matches("a//", '/'), "a");
    assert_eq!(text::first_chars("h\u{e9}llo", 2), "h\u{e9}");
    assert_eq!(text::first_line("\n \r\n two\nthree").as_deref(), Some(" two"));
    assert_eq!(text::first_line("\n\t\n"), None);
    assert!(text::blank("\u{a0} "));
    assert_eq!(text::decimal_text(u128::MAX), u128::MAX.to_string());
    assert_eq!(text::signed_text(i64::MIN), i64::MIN.to_string());
    assert_eq!(text::bytes_of("h\u{e9}"), "h\u{e9}".as_bytes());
    assert_eq!(text::bytes_of("\u{1f980}\u{20ac}"), "\u{1f980}\u{20ac}".as_bytes());
}
