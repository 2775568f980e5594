use dutchman::json::{write_json, Json};
use dutchman::jsonparse::parse_json;
use dutchman::roundtrip::reencode;

fn text(s: &str) -> Vec<char> {
    s.chars().collect()
}

fn string(v: &Vec<char>) -> String {
    v.iter().collect()
}

fn obj(fields: Vec<(&str, Json)>) -> Json {
    Json::Obj(fields.into_iter().map(|(k, v)| (text(k), v)).collect())
}

/// Written, read back, and written again: the two renderings agree, so the
/// reader returned the value written.
fn assert_round_trip(j: &Json) {
    let rendered = write_json(j);
    let back = parse_json(&rendered).expect("the writer's output parses");
    assert_eq!(write_json(&back), rendered);
}

#[test]
fn scalars_round_trip() {
    assert_round_trip(&Json::Null);
    assert_round_trip(&Json::Bool(true));
    assert_round_trip(&Json::Bool(false));
    assert_round_trip(&Json::Int(0));
    assert_round_trip(&Json::Int(-1));
    assert_round_trip(&Json::Int(i64::MAX));
    assert_round_trip(&Json::Int(i64::MIN));
    assert_round_trip(&Json::Str(text("")));
    assert_round_trip(&Json::Str(text("plain")));
}

#[test]
fn escapes_and_unicode_round_trip() {
    assert_round_trip(&Json::Str(text("a\"b\\c/d\ne\tf\rg")));
    assert_round_trip(&Json::Str(text("\u{01}\u{1f}\u{08}\u{0c}")));
    assert_round_trip(&Json::Str(text("capitão do Holandês 🫀")));
}

#[test]
fn a_whole_document_round_trips() {
    let doc = obj(vec![
        ("claims", obj(vec![
            ("Alice", obj(vec![
                ("role_name", Json::Str(text("Captain"))),
                ("role_emoji", Json::Str(text("🫀"))),
            ])),
        ])),
        ("scores", Json::Arr(vec![Json::Int(3), Json::Int(-7), Json::Int(0)])),
        ("empty_list", Json::Arr(vec![])),
        ("empty_obj", obj(vec![])),
        ("flag", Json::Bool(true)),
        ("nothing", Json::Null),
    ]);
    assert_round_trip(&doc);
}

#[test]
fn rendering_is_compact_and_ordered() {
    let doc = obj(vec![
        ("a", Json::Arr(vec![Json::Int(1), Json::Int(2)])),
        ("b", Json::Str(text("x"))),
    ]);
    assert_eq!(string(&write_json(&doc)), "{\"a\":[1,2],\"b\":\"x\"}");
}

#[test]
fn the_reader_accepts_whitespace_between_tokens() {
    let src = text(" { \"a\" : [ 1 , 2 ] ,\n\t\"b\" : \"x\" } ");
    let parsed = parse_json(&src).expect("whitespace between tokens is fine");
    assert_eq!(string(&write_json(&parsed)), "{\"a\":[1,2],\"b\":\"x\"}");
}

#[test]
fn the_reader_accepts_alternative_escapes() {
    let src = text("\"a\\/b\\u000ac\\bd\"");
    let parsed = parse_json(&src).expect("known escapes parse");
    match &parsed {
        Json::Str(s) => assert_eq!(string(s), "a/b\nc\u{08}d"),
        _ => panic!("expected a string"),
    }
}

#[test]
fn malformed_documents_are_rejected() {
    assert!(parse_json(&text("")).is_none());
    assert!(parse_json(&text("tru")).is_none());
    assert!(parse_json(&text("nulll")).is_none());
    assert!(parse_json(&text("01")).is_none());
    assert!(parse_json(&text("1 2")).is_none());
    assert!(parse_json(&text("[1,]")).is_none());
    assert!(parse_json(&text("{\"a\":}")).is_none());
    assert!(parse_json(&text("{\"a\" 1}")).is_none());
    assert!(parse_json(&text("\"unterminated")).is_none());
    assert!(parse_json(&text("1.5")).is_none(), "the documents hold integers only");
    assert!(parse_json(&text("99999999999999999999")).is_none(), "out of 64-bit range");
}

#[test]
fn boundary_integers_parse_and_overflow_is_rejected() {
    match parse_json(&text("9223372036854775807")) {
        Some(Json::Int(v)) => assert_eq!(v, i64::MAX),
        _ => panic!("expected the largest integer"),
    }
    match parse_json(&text("-9223372036854775808")) {
        Some(Json::Int(v)) => assert_eq!(v, i64::MIN),
        _ => panic!("expected the smallest integer"),
    }
    assert!(parse_json(&text("9223372036854775808")).is_none());
    assert!(parse_json(&text("-9223372036854775809")).is_none());
}

#[test]
fn read_then_write_unchanged_keeps_the_structured_content() {
    let src = text(" { \"b\" : [ 1 , -2 ] , \"a\" : \"x\\ny\" , \"b\" : null } ");
    let out = reencode(&src).expect("a well-formed document re-encodes");
    assert_eq!(string(&out), "{\"b\":[1,-2],\"a\":\"x\\ny\",\"b\":null}");
    let again = reencode(&out).expect("its own output re-encodes");
    assert_eq!(string(&again), string(&out));
    assert!(reencode(&text("{broken")).is_none());
}
