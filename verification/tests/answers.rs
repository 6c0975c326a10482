use ddns::error::{DdnsError, ErrorKind};
use ddns::json::{parse_json, Json};
use ddns::record::RecordItem;
use ddns::response::{api_error, check_response, parse_record_list, record_from_json, Response};

fn text(s: &str) -> Json {
    Json::Text(s.to_string())
}

fn object(members: Vec<(&str, Json)>) -> Json {
    Json::Object(members.into_iter().map(|(k, v)| (k.to_string(), v)).collect())
}

fn item(id: i64, name: &str, value: &str, remark: &str) -> Json {
    object(vec![
        ("RecordId", Json::Number(Some(id))),
        ("Name", text(name)),
        ("Value", text(value)),
        ("Remark", text(remark)),
    ])
}

fn record(id: i64, name: &str, value: &str, remark: &str) -> RecordItem {
    RecordItem {
        record_id: id,
        name: name.to_string(),
        value: value.to_string(),
        remark: remark.to_string(),
    }
}

#[test]
fn json_text_becomes_a_tree() {
    let doc = parse_json("{\"b\": [1, \"x\", null, true, 1.5], \"a\": {\"n\": -7}}").unwrap();
    assert_eq!(
        doc.get("b"),
        Some(&Json::Array(vec![
            Json::Number(Some(1)),
            text("x"),
            Json::Null,
            Json::Bool(true),
            Json::Number(None),
        ]))
    );
    assert_eq!(doc.get("a").unwrap().get("n").unwrap().as_i64(), Some(-7));
    assert_eq!(doc.get("c"), None);
}

#[test]
fn text_that_is_no_document_gives_none() {
    assert_eq!(parse_json(""), None);
    assert_eq!(parse_json("{\"a\": "), None);
    assert_eq!(parse_json("{} {}"), None);
    assert_eq!(parse_json("not json"), None);
}

#[test]
fn numbers_beyond_64_bits_have_no_integer_value() {
    let doc = parse_json("[9223372036854775807, 9223372036854775808, -9223372036854775808]").unwrap();
    let items = doc.as_array().unwrap();
    assert_eq!(items[0].as_i64(), Some(i64::MAX));
    assert_eq!(items[1].as_i64(), None);
    assert_eq!(items[2].as_i64(), Some(i64::MIN));
}

#[test]
fn accessors_answer_only_for_their_own_kind() {
    let t = text("x");
    assert_eq!(t.as_str(), Some("x"));
    assert_eq!(t.as_i64(), None);
    assert_eq!(t.as_array(), None);
    assert_eq!(t.get("x"), None);
    let n = Json::Number(Some(3));
    assert_eq!(n.as_str(), None);
    assert_eq!(n.as_i64(), Some(3));
    let a = Json::Array(vec![Json::Null]);
    assert_eq!(a.as_array(), Some(&vec![Json::Null]));
    assert_eq!(a.as_str(), None);
}

#[test]
fn the_first_member_with_a_key_is_found() {
    let doc = object(vec![("k", text("first")), ("other", Json::Null), ("k", text("second"))]);
    assert_eq!(doc.get("k"), Some(&text("first")));
    assert_eq!(doc.get("other"), Some(&Json::Null));
    assert_eq!(doc.get("K"), None);
}

#[test]
fn a_list_item_maps_the_provider_field_names() {
    assert_eq!(
        record_from_json(&item(5, "home", "1.2.3.4", "ddns")),
        Ok(record(5, "home", "1.2.3.4", "ddns"))
    );
}

#[test]
fn a_list_item_may_hold_more_than_is_read() {
    let doc = parse_json(
        "{\"RecordId\": 5, \"Name\": \"home\", \"Value\": \"1.2.3.4\", \"Remark\": \"\", \"TTL\": 600, \"Type\": \"A\"}",
    )
    .unwrap();
    assert_eq!(record_from_json(&doc), Ok(record(5, "home", "1.2.3.4", "")));
}

#[test]
fn a_list_item_without_a_required_field_is_refused() {
    let cases = vec![
        object(vec![("Name", text("a")), ("Value", text("b")), ("Remark", text("c"))]),
        object(vec![("RecordId", Json::Number(Some(1))), ("Value", text("b")), ("Remark", text("c"))]),
        object(vec![("RecordId", Json::Number(Some(1))), ("Name", text("a")), ("Remark", text("c"))]),
        object(vec![("RecordId", Json::Number(Some(1))), ("Name", text("a")), ("Value", text("b"))]),
        object(vec![
            ("RecordId", text("1")),
            ("Name", text("a")),
            ("Value", text("b")),
            ("Remark", text("c")),
        ]),
        object(vec![
            ("RecordId", Json::Number(Some(1))),
            ("Name", text("a")),
            ("Value", text("b")),
            ("Remark", Json::Null),
        ]),
        object(vec![
            ("RecordId", Json::Number(None)),
            ("Name", text("a")),
            ("Value", text("b")),
            ("Remark", text("c")),
        ]),
        Json::Null,
    ];
    for case in &cases {
        let failure = record_from_json(case).unwrap_err();
        assert_eq!(failure.kind, ErrorKind::ReconciliationInput);
    }
}

#[test]
fn a_listing_is_read_in_order() {
    let answer = "{\"Response\": {\"RecordCountInfo\": {\"TotalCount\": 2}, \"RecordList\": [{\"RecordId\": 1, \"Name\": \"home\", \"Value\": \"1.2.3.3\", \"Remark\": \"ddns\", \"Line\": \"\u{9ed8}\u{8ba4}\"}, {\"RecordId\": 2, \"Name\": \"@\", \"Value\": \"ns1.example.\", \"Remark\": \"\"}], \"RequestId\": \"abc\"}}";
    assert_eq!(
        parse_record_list(answer),
        Ok(vec![record(1, "home", "1.2.3.3", "ddns"), record(2, "@", "ns1.example.", "")])
    );
}

#[test]
fn an_empty_listing_is_a_listing() {
    assert_eq!(parse_record_list("{\"Response\": {\"RecordList\": []}}"), Ok(vec![]));
    let doc = object(vec![("Response", object(vec![("RecordList", Json::Array(vec![]))]))]);
    assert_eq!(Response::from_json(&doc), Ok(Response { record_list: vec![] }));
}

#[test]
fn a_reported_error_is_surfaced_with_code_and_message() {
    let answer = "{\"Response\": {\"Error\": {\"Code\": \"AuthFailure.SignatureFailure\", \"Message\": \"The provided credentials could not be validated.\"}, \"RequestId\": \"r\"}}";
    let expected = DdnsError {
        kind: ErrorKind::Api,
        code: "AuthFailure.SignatureFailure".to_string(),
        message: "The provided credentials could not be validated.".to_string(),
    };
    assert_eq!(parse_record_list(answer), Err(expected.clone()));
    assert_eq!(check_response(answer), Err(expected.clone()));
    assert_eq!(api_error(&parse_json(answer).unwrap()), Some(expected));
}

#[test]
fn a_reported_error_wins_over_a_record_list() {
    let doc = object(vec![(
        "Response",
        object(vec![
            ("RecordList", Json::Array(vec![item(1, "a", "b", "c")])),
            ("Error", object(vec![("Code", text("LimitExceeded"))])),
        ]),
    )]);
    let failure = Response::from_json(&doc).unwrap_err();
    assert_eq!(failure.kind, ErrorKind::Api);
    assert_eq!(failure.code, "LimitExceeded");
    assert_eq!(failure.message, "");
}

#[test]
fn an_answer_without_a_record_list_is_an_api_failure() {
    for answer in [
        "{}",
        "{\"Response\": {}}",
        "{\"Response\": {\"RecordList\": null}}",
        "{\"Response\": {\"RecordList\": {\"0\": 1}}}",
        "{\"RecordList\": []}",
        "[]",
        "<html>",
        "",
    ] {
        let failure = parse_record_list(answer).unwrap_err();
        assert_eq!(failure.kind, ErrorKind::Api);
        assert_eq!(failure.code, "");
    }
}

#[test]
fn a_listing_with_a_malformed_record_is_an_input_failure() {
    let answer = "{\"Response\": {\"RecordList\": [{\"RecordId\": 1, \"Name\": \"home\", \"Value\": \"1.2.3.3\", \"Remark\": \"ddns\"}, {\"RecordId\": 2, \"Name\": \"x\"}]}}";
    let failure = parse_record_list(answer).unwrap_err();
    assert_eq!(failure.kind, ErrorKind::ReconciliationInput);
}

#[test]
fn an_answer_without_an_error_is_accepted() {
    assert_eq!(check_response("{\"Response\": {\"RecordId\": 162, \"RequestId\": \"ab4f1426\"}}"), Ok(()));
    assert_eq!(check_response("{}"), Ok(()));
}

#[test]
fn an_answer_that_is_no_document_is_an_api_failure() {
    let failure = check_response("Bad Gateway").unwrap_err();
    assert_eq!(failure.kind, ErrorKind::Api);
    assert_eq!(api_error(&Json::Null), None);
}

#[test]
fn error_constructors_set_their_fields() {
    let e = DdnsError::new(ErrorKind::Network, "unreachable");
    assert_eq!(e, DdnsError { kind: ErrorKind::Network, code: "".to_string(), message: "unreachable".to_string() });
    let e = DdnsError::api("Code", "Message");
    assert_eq!(e, DdnsError { kind: ErrorKind::Api, code: "Code".to_string(), message: "Message".to_string() });
}

fn json_string(text: &str) -> String {
    let mut out = String::new();
    ddns::json::push_json_string(&mut out, text);
    out
}

#[test]
fn plain_text_is_quoted_as_it_is() {
    assert_eq!(json_string(""), "\"\"");
    assert_eq!(json_string("home"), "\"home\"");
    assert_eq!(json_string("example.com"), "\"example.com\"");
    assert_eq!(json_string("a b/c'd\u{7f}"), "\"a b/c'd\u{7f}\"");
    assert_eq!(json_string("\u{9ed8}\u{8ba4}"), "\"\u{9ed8}\u{8ba4}\"");
}

#[test]
fn special_characters_are_escaped() {
    assert_eq!(json_string("\""), "\"\\\"\"");
    assert_eq!(json_string("\\"), "\"\\\\\"");
    assert_eq!(json_string("a\"b\\c"), "\"a\\\"b\\\\c\"");
    assert_eq!(json_string("\n"), "\"\\u000a\"");
    assert_eq!(json_string("\u{1f}x\u{0}"), "\"\\u001fx\\u0000\"");
    assert_eq!(json_string(" "), "\" \"");
}

#[test]
fn a_json_string_is_appended_to_what_is_there() {
    let mut out = "{\"k\": ".to_string();
    ddns::json::push_json_string(&mut out, "v\"");
    out.push('}');
    assert_eq!(out, "{\"k\": \"v\\\"\"}");
}

#[test]
fn a_json_string_reads_back_as_the_text() {
    for text in ["", "home", "a\"b", "\\", "\\\"", "\"\\\"", "tab\there", "\r\n", "\u{9ed8}\"\u{8ba4}", "\\u0041"] {
        assert_eq!(parse_json(&json_string(text)), Some(Json::Text(text.to_string())));
    }
}
