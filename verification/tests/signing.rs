use ddns::digest::{hmac256, print_hex_binary, sha256_hex};
use ddns::error::ErrorKind;
use ddns::signer::{
    authorization, canonical_request, credential_scope, get_auth, sign_with_date, string_to_sign,
    timestamp_seconds,
};
use ddns::text::{decimal_string, str_eq};

#[test]
fn test_hmac256() {
    let key = "TC3Bx7v3jJt9R5zv".as_bytes();
    let msg = "2019-01-01";
    let result = hmac256(key, msg);
    println!("{:?}", print_hex_binary(&result));

    println!("{:?}", sha256_hex("Hello World".as_bytes()));

    let timestamp = chrono::Local::now().timestamp_millis();

    println!("{:?}", timestamp);

    let date = chrono::DateTime::from_timestamp_millis(timestamp).unwrap();

    let date_str = date.format("%Y-%m-%d %H:%M:%S").to_string();

    println!("{:?}", date_str);
}

#[test]
fn secret_date_matches_the_known_vector() {
    let tag = hmac256("TC3Bx7v3jJt9R5zv".as_bytes(), "2019-01-01");
    assert_eq!(tag.len(), 32);
    assert_eq!(
        print_hex_binary(&tag),
        "b8b275f3da507926e5edb16b7985c7f268585263dc04d4d0d05c044d30fd8e85"
    );
}

#[test]
fn hmac_matches_the_published_test_case() {
    let tag = hmac256("Jefe".as_bytes(), "what do ya want for nothing?");
    assert_eq!(
        print_hex_binary(&tag),
        "5bdcc146bf60754e6a042426089575c75a003f089d2739839dec58b964ec3843"
    );
}

#[test]
fn hmac_depends_on_key_and_message() {
    let a = hmac256("key".as_bytes(), "message");
    assert_ne!(a, "key".as_bytes().to_vec());
    assert_ne!(a, "message".as_bytes().to_vec());
    assert_ne!(a, hmac256("kez".as_bytes(), "message"));
    assert_ne!(a, hmac256("key".as_bytes(), "messagf"));
}

#[test]
fn sha256_matches_the_standard_vectors() {
    assert_eq!(
        sha256_hex("".as_bytes()),
        "e3b0c44298fc1c149afbf4c8996fb92427ae41e4649b934ca495991b7852b855"
    );
    assert_eq!(
        sha256_hex("abc".as_bytes()),
        "ba7816bf8f01cfea414140de5dae2223b00361a396177a9cb410ff61f20015ad"
    );
    assert_eq!(
        sha256_hex("Hello World".as_bytes()),
        "a591a6d40bf420404a011733cfb7b190d62c65bf0bcda32b57b277d9ad9f146e"
    );
}

#[test]
fn hex_is_lowercase_two_digits_a_byte() {
    assert_eq!(print_hex_binary(&[]), "");
    assert_eq!(print_hex_binary(&[0x00, 0x0f, 0x10, 0xab, 0xff]), "000f10abff");
    assert_eq!(print_hex_binary(&[0x9a, 0x09, 0xa0]), "9a09a0");
}

#[test]
fn decimal_numerals() {
    assert_eq!(decimal_string(0), "0");
    assert_eq!(decimal_string(7), "7");
    assert_eq!(decimal_string(10), "10");
    assert_eq!(decimal_string(1546300800), "1546300800");
    assert_eq!(decimal_string(-42), "-42");
    assert_eq!(decimal_string(i64::MAX), "9223372036854775807");
    assert_eq!(decimal_string(i64::MIN), "-9223372036854775808");
}

#[test]
fn string_slices_compare_by_content() {
    assert!(str_eq("", ""));
    assert!(str_eq("ddns", "ddns"));
    assert!(!str_eq("ddns", "ddnt"));
    assert!(!str_eq("ddns", "ddn"));
    assert!(str_eq("\u{9ed8}\u{8ba4}", "\u{9ed8}\u{8ba4}"));
    assert!(!str_eq("\u{9ed8}\u{8ba4}", "\u{9ed8}"));
}

#[test]
fn seconds_round_towards_zero() {
    assert_eq!(timestamp_seconds(1546300800999), 1546300800);
    assert_eq!(timestamp_seconds(999), 0);
    assert_eq!(timestamp_seconds(-1), 0);
    assert_eq!(timestamp_seconds(-1000), -1);
    assert_eq!(timestamp_seconds(-1999), -1);
}

#[test]
fn canonical_request_is_fixed_byte_for_byte() {
    let hash = "73d4a2f7a716421f4faa22d17081623d1ab88ee938f59ea2307617470e507ffa";
    let text = canonical_request(hash);
    assert_eq!(
        text,
        "POST\n/\n\ncontent-type:application/json; charset=utf-8\nhost:dnspod.tencentcloudapi.com\n\ncontent-type;host\n73d4a2f7a716421f4faa22d17081623d1ab88ee938f59ea2307617470e507ffa"
    );
}

#[test]
fn canonical_request_has_six_lines_of_text() {
    let text = canonical_request(&sha256_hex("{}".as_bytes()));
    let lines: Vec<&str> = text.split('\n').collect();
    assert_eq!(lines.len(), 8);
    let with_text: Vec<&str> = lines.iter().copied().filter(|l| !l.is_empty()).collect();
    assert_eq!(with_text.len(), 6);
    assert_eq!(lines[2], "");
    assert_eq!(lines[5], "");
    for line in &lines {
        assert_eq!(line.trim(), *line);
    }
    assert!(!text.ends_with('\n'));
    let names: Vec<&str> = vec![
        lines[3].split(':').next().unwrap(),
        lines[4].split(':').next().unwrap(),
    ];
    assert_eq!(names, vec!["content-type", "host"]);
    for name in &names {
        assert_eq!(name.to_lowercase(), *name);
    }
    assert!(names[0] < names[1]);
    assert_eq!(lines[6], "content-type;host");
    assert_eq!(lines[7].len(), 64);
}

#[test]
fn credential_scope_names_day_and_service() {
    assert_eq!(credential_scope("2019-01-01"), "2019-01-01/dnspod/tc3_request");
}

#[test]
fn string_to_sign_has_four_lines() {
    let text = string_to_sign(
        1546300800000,
        "2019-01-01/dnspod/tc3_request",
        "4891aaffe26be957b5041bcd2439c9f8d487bb073042f66e5ee56a4e62a5503f",
    );
    assert_eq!(
        text,
        "TC3-HMAC-SHA256\n1546300800\n2019-01-01/dnspod/tc3_request\n4891aaffe26be957b5041bcd2439c9f8d487bb073042f66e5ee56a4e62a5503f"
    );
}

#[test]
fn authorization_header_layout() {
    assert_eq!(
        authorization("AKID", "2019-01-01/dnspod/tc3_request", "abcd"),
        "TC3-HMAC-SHA256 Credential=AKID/2019-01-01/dnspod/tc3_request, SignedHeaders=content-type;host, Signature=abcd"
    );
}

#[test]
fn signature_for_the_first_day_of_2019() {
    let header =
        get_auth(1546300800000, "{\"Domain\": \"example.com\"}", "Bx7v3jJt9R5zv", "AKIDEXAMPLE")
            .unwrap();
    assert_eq!(
        header,
        "TC3-HMAC-SHA256 Credential=AKIDEXAMPLE/2019-01-01/dnspod/tc3_request, SignedHeaders=content-type;host, Signature=eb0e2f2ca11fa0a2e404135c162c78e1c0ca2975306969f796010508b37ed652"
    );
}

#[test]
fn signature_takes_the_date_from_the_undivided_instant() {
    let header = get_auth(
        1700000000123,
        "{\"Domain\": \"example.com\", \"RecordId\": \"42\"}",
        "secret",
        "id",
    )
    .unwrap();
    assert_eq!(
        header,
        "TC3-HMAC-SHA256 Credential=id/2023-11-14/dnspod/tc3_request, SignedHeaders=content-type;host, Signature=0e00edcc004bead03f4a4f10ee41b5b8650239f7a33984779656470d49f894fa"
    );
}

#[test]
fn signing_with_a_given_date_agrees() {
    let body = "{\"Domain\": \"example.com\"}";
    let direct = sign_with_date(1546300800000, "2019-01-01", body, "Bx7v3jJt9R5zv", "AKIDEXAMPLE");
    assert_eq!(direct, get_auth(1546300800000, body, "Bx7v3jJt9R5zv", "AKIDEXAMPLE").unwrap());
}

#[test]
fn signing_is_deterministic() {
    let first = get_auth(1700000000123, "{}", "key", "id").unwrap();
    let second = get_auth(1700000000123, "{}", "key", "id").unwrap();
    assert_eq!(first, second);
    assert_ne!(first, get_auth(1700000000123, "{ }", "key", "id").unwrap());
    assert_ne!(first, get_auth(1700000000123, "{}", "kez", "id").unwrap());
    assert_ne!(first, get_auth(1700086400123, "{}", "key", "id").unwrap());
}

#[test]
fn a_timestamp_without_a_date_cannot_be_signed() {
    let failure = get_auth(i64::MAX, "{}", "key", "id").unwrap_err();
    assert_eq!(failure.kind, ErrorKind::Signature);
    let failure = get_auth(i64::MIN, "{}", "key", "id").unwrap_err();
    assert_eq!(failure.kind, ErrorKind::Signature);
}

#[test]
fn the_header_ends_with_sixty_four_hexadecimal_digits() {
    let header = get_auth(1700000000123, "{}", "key", "some-id").unwrap();
    assert_eq!(header.len(), 156 + "some-id".len() + "2023-11-14".len());
    let signature = &header[header.len() - 64..];
    assert!(signature.chars().all(|c| c.is_ascii_digit() || ('a'..='f').contains(&c)));
    assert!(header.ends_with(&format!("Signature={}", signature)));
}
