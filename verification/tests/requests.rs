use ddns::client::{build_request, ApiRequest, TencentUtils};
use ddns::error::ErrorKind;
use ddns::reconcile::Action;
use ddns::signer::get_auth;

fn client() -> TencentUtils {
    TencentUtils::new("AKIDEXAMPLE".to_string(), "Bx7v3jJt9R5zv".to_string())
}

fn header<'a>(request: &'a ApiRequest, name: &str) -> &'a str {
    let found: Vec<&(String, String)> =
        request.headers.iter().filter(|(n, _)| n == name).collect();
    assert_eq!(found.len(), 1);
    found[0].1.as_str()
}

#[test]
fn list_request_is_complete() {
    let request = client().describe_record_list("example.com", 1546300800000).unwrap();
    assert_eq!(request.endpoint, "https://dnspod.tencentcloudapi.com");
    assert_eq!(request.body, "{\"Domain\": \"example.com\"}");
    let names: Vec<&str> = request.headers.iter().map(|(n, _)| n.as_str()).collect();
    assert_eq!(
        names,
        vec![
            "Host",
            "X-TC-Timestamp",
            "X-TC-Version",
            "X-TC-Action",
            "X-TC-Region",
            "X-TC-Token",
            "Content-Type",
            "Authorization",
        ]
    );
    assert_eq!(header(&request, "Host"), "dnspod.tencentcloudapi.com");
    assert_eq!(header(&request, "X-TC-Timestamp"), "1546300800");
    assert_eq!(header(&request, "X-TC-Version"), "2021-03-23");
    assert_eq!(header(&request, "X-TC-Action"), "DescribeRecordList");
    assert_eq!(header(&request, "X-TC-Region"), "");
    assert_eq!(header(&request, "X-TC-Token"), "");
    assert_eq!(header(&request, "Content-Type"), "application/json; charset=utf-8");
    assert_eq!(
        header(&request, "Authorization"),
        "TC3-HMAC-SHA256 Credential=AKIDEXAMPLE/2019-01-01/dnspod/tc3_request, SignedHeaders=content-type;host, Signature=eb0e2f2ca11fa0a2e404135c162c78e1c0ca2975306969f796010508b37ed652"
    );
}

#[test]
fn create_request_body() {
    let request = client().create_record("example.com", "home", "1.2.3.4", 1546300800000).unwrap();
    assert_eq!(
        request.body,
        "{\"Domain\": \"example.com\", \"SubDomain\": \"home\", \"RecordType\": \"A\", \"RecordLine\": \"\u{9ed8}\u{8ba4}\", \"Value\": \"1.2.3.4\", \"Remark\": \"ddns\"}"
    );
    assert_eq!(header(&request, "X-TC-Action"), "CreateRecord");
    assert_eq!(
        header(&request, "Authorization"),
        get_auth(1546300800000, &request.body, "Bx7v3jJt9R5zv", "AKIDEXAMPLE").unwrap()
    );
}

#[test]
fn update_request_body() {
    let request =
        client().update_record("example.com", "home", "1.2.3.4", 987654321, 1546300800000).unwrap();
    assert_eq!(
        request.body,
        "{\"Domain\": \"example.com\", \"SubDomain\": \"home\", \"RecordType\": \"A\", \"RecordLine\": \"\u{9ed8}\u{8ba4}\", \"Value\": \"1.2.3.4\", \"RecordId\": \"987654321\", \"Remark\": \"ddns\"}"
    );
    assert_eq!(header(&request, "X-TC-Action"), "ModifyRecord");
    assert_eq!(
        header(&request, "Authorization"),
        get_auth(1546300800000, &request.body, "Bx7v3jJt9R5zv", "AKIDEXAMPLE").unwrap()
    );
}

#[test]
fn delete_request_body() {
    let request = client().delete_record("example.com", 42, 1700000000123).unwrap();
    assert_eq!(request.body, "{\"Domain\": \"example.com\", \"RecordId\": \"42\"}");
    assert_eq!(header(&request, "X-TC-Action"), "DeleteRecord");
    assert_eq!(header(&request, "X-TC-Timestamp"), "1700000000");
}

#[test]
fn delete_request_is_signed_with_the_client_credentials() {
    let request = TencentUtils::new("id".to_string(), "secret".to_string())
        .delete_record("example.com", 42, 1700000000123)
        .unwrap();
    assert_eq!(
        header(&request, "Authorization"),
        "TC3-HMAC-SHA256 Credential=id/2023-11-14/dnspod/tc3_request, SignedHeaders=content-type;host, Signature=0e00edcc004bead03f4a4f10ee41b5b8650239f7a33984779656470d49f894fa"
    );
}

#[test]
fn each_step_of_a_plan_has_its_request() {
    let c = client();
    let ts = 1546300800000;
    let create = Action::Create { name: "home".to_string(), value: "1.2.3.4".to_string() };
    assert_eq!(
        c.request_for("example.com", &create, ts).unwrap(),
        c.create_record("example.com", "home", "1.2.3.4", ts).unwrap()
    );
    let update =
        Action::Update { record_id: 7, name: "home".to_string(), value: "1.2.3.4".to_string() };
    assert_eq!(
        c.request_for("example.com", &update, ts).unwrap(),
        c.update_record("example.com", "home", "1.2.3.4", 7, ts).unwrap()
    );
    let delete = Action::Delete { record_id: 7, name: "home".to_string() };
    assert_eq!(
        c.request_for("example.com", &delete, ts).unwrap(),
        c.delete_record("example.com", 7, ts).unwrap()
    );
}

#[test]
fn a_request_that_cannot_be_signed_is_not_built() {
    let failure = client().describe_record_list("example.com", i64::MAX).unwrap_err();
    assert_eq!(failure.kind, ErrorKind::Signature);
    let failure = build_request("DescribeRecordList", "{}", "k", "i", i64::MIN).unwrap_err();
    assert_eq!(failure.kind, ErrorKind::Signature);
}

#[test]
fn negative_record_ids_are_written_with_their_sign() {
    let request = client().delete_record("example.com", -5, 1546300800000).unwrap();
    assert_eq!(request.body, "{\"Domain\": \"example.com\", \"RecordId\": \"-5\"}");
}

fn member<'a>(doc: &'a ddns::json::Json, key: &str) -> &'a str {
    doc.get(key).unwrap().as_str().unwrap()
}

fn member_count(doc: &ddns::json::Json) -> usize {
    match doc {
        ddns::json::Json::Object(members) => members.len(),
        _ => panic!("the body is no object"),
    }
}

#[test]
fn a_quote_and_a_backslash_in_a_name_are_escaped() {
    let request =
        client().create_record("example.com", "a\"b\\c", "1.2.3.4", 1546300800000).unwrap();
    assert_eq!(
        request.body,
        "{\"Domain\": \"example.com\", \"SubDomain\": \"a\\\"b\\\\c\", \"RecordType\": \"A\", \"RecordLine\": \"\u{9ed8}\u{8ba4}\", \"Value\": \"1.2.3.4\", \"Remark\": \"ddns\"}"
    );
    let doc = ddns::json::parse_json(&request.body).unwrap();
    assert_eq!(member_count(&doc), 6);
    assert_eq!(member(&doc, "Domain"), "example.com");
    assert_eq!(member(&doc, "SubDomain"), "a\"b\\c");
    assert_eq!(member(&doc, "RecordType"), "A");
    assert_eq!(member(&doc, "RecordLine"), "\u{9ed8}\u{8ba4}");
    assert_eq!(member(&doc, "Value"), "1.2.3.4");
    assert_eq!(member(&doc, "Remark"), "ddns");
}

#[test]
fn a_value_cannot_add_or_override_a_member() {
    let value = "1.2.3.4\", \"RecordType\": \"TXT";
    let request = client().update_record("example.com", "home", value, 7, 1546300800000).unwrap();
    let doc = ddns::json::parse_json(&request.body).unwrap();
    assert_eq!(member_count(&doc), 7);
    assert_eq!(member(&doc, "Value"), value);
    assert_eq!(member(&doc, "RecordType"), "A");
    assert_eq!(member(&doc, "Remark"), "ddns");
    assert_eq!(member(&doc, "RecordId"), "7");
    assert_eq!(member(&doc, "SubDomain"), "home");
}

#[test]
fn a_domain_with_control_characters_stays_one_member() {
    let domain = "ex\nample\t.com\u{0}\u{1f}";
    let request = client().delete_record(domain, 42, 1546300800000).unwrap();
    assert_eq!(
        request.body,
        "{\"Domain\": \"ex\\u000aample\\u0009.com\\u0000\\u001f\", \"RecordId\": \"42\"}"
    );
    let doc = ddns::json::parse_json(&request.body).unwrap();
    assert_eq!(member_count(&doc), 2);
    assert_eq!(member(&doc, "Domain"), domain);
    assert_eq!(member(&doc, "RecordId"), "42");
    let request = client().describe_record_list("a\"}, {\"b", 1546300800000).unwrap();
    let doc = ddns::json::parse_json(&request.body).unwrap();
    assert_eq!(member_count(&doc), 1);
    assert_eq!(member(&doc, "Domain"), "a\"}, {\"b");
}

#[test]
fn the_signature_covers_the_escaped_body() {
    let request = client().create_record("example.com", "a\"b", "1.2.3.4", 1546300800000).unwrap();
    assert_eq!(
        header(&request, "Authorization"),
        get_auth(1546300800000, &request.body, "Bx7v3jJt9R5zv", "AKIDEXAMPLE").unwrap()
    );
    let plain = client().create_record("example.com", "ab", "1.2.3.4", 1546300800000).unwrap();
    assert_ne!(header(&request, "Authorization"), header(&plain, "Authorization"));
}
