//! The provider's request signature (TC3-HMAC-SHA256).
//!
//! A request is signed in four steps: its body is hashed into a canonical
//! request; the canonical request is hashed into a string to sign, which
//! names the day and the service; a signing key for that day is derived from
//! the secret key; and the string to sign is tagged with the signing key.
//! Every text built here is fixed byte for byte by the protocol.

use vstd::prelude::*;
use vstd::string::StringSliceAdditionalSpecFns;
use vstd::utf8::encode_utf8;

use crate::digest::{
    hex, hmac256, hmac_sha256, is_hex_char, lemma_hex_is_lowercase, print_hex_binary, sha256,
    sha256_hex,
};
use crate::error::{DdnsError, ErrorKind};
use crate::text::{decimal, decimal_string, lemma_decimal_nat_len, lemma_encode_concat, lemma_encode_len_bound};

verus! {

/// The host that every request is sent to.
pub const HOST: &'static str = "dnspod.tencentcloudapi.com";

/// The content type of every request.
pub const CONTENT_TYPE: &'static str = "application/json; charset=utf-8";

/// The name of the service in the credential scope.
pub const SERVICE: &'static str = "dnspod";

/// The name of the signature scheme.
pub const ALGORITHM: &'static str = "TC3-HMAC-SHA256";

/// A sequence of lines as one text: a line feed between each two lines and
/// none after the last.
pub open spec fn join_lines(lines: Seq<Seq<char>>) -> Seq<char>
    decreases lines.len(),
{
    if lines.len() == 0 {
        Seq::empty()
    } else if lines.len() == 1 {
        lines[0]
    } else {
        join_lines(lines.drop_last()) + seq!['\n'] + lines.last()
    }
}

/// A header as the canonical request writes it: the name in lower case, a
/// colon, the value.
pub open spec fn header_line(name: Seq<char>, value: Seq<char>) -> Seq<char> {
    name + seq![':'] + value
}

/// The lines of the canonical request for a body with the given hash: the
/// method, the path, the empty query, the two signed headers by name, the
/// empty line that ends the headers, the names of the signed headers, and
/// the hash of the body.
pub open spec fn canonical_lines(hashed_payload: Seq<char>) -> Seq<Seq<char>> {
    seq![
        "POST"@,
        "/"@,
        Seq::empty(),
        header_line("content-type"@, CONTENT_TYPE@),
        header_line("host"@, HOST@),
        Seq::empty(),
        "content-type"@ + seq![';'] + "host"@,
        hashed_payload,
    ]
}

/// The canonical request for a body with the given hash.
pub open spec fn canonical_request_text(hashed_payload: Seq<char>) -> Seq<char> {
    join_lines(canonical_lines(hashed_payload))
}

/// Builds the canonical request for a body with the given hash.
pub fn canonical_request(hashed_payload: &str) -> (text: String)
    ensures
        text@ == canonical_request_text(hashed_payload@),
{
    let mut out = String::from_str("POST");
    out.push('\n');
    out.append("/");
    out.push('\n');
    out.push('\n');
    out.append("content-type");
    out.push(':');
    out.append(CONTENT_TYPE);
    out.push('\n');
    out.append("host");
    out.push(':');
    out.append(HOST);
    out.push('\n');
    out.push('\n');
    out.append("content-type");
    out.push(';');
    out.append("host");
    out.push('\n');
    out.append(hashed_payload);
    proof {
        let lines = canonical_lines(hashed_payload@);
        reveal_with_fuel(join_lines, 9);
        let l7 = lines;
        let l6 = l7.drop_last();
        let l5 = l6.drop_last();
        let l4 = l5.drop_last();
        let l3 = l4.drop_last();
        let l2 = l3.drop_last();
        let l1 = l2.drop_last();
        let l0 = l1.drop_last();
        assert(l0.len() == 1);
        assert(out@ =~= join_lines(lines));
    }
    out
}

/// The timestamp in whole seconds, as the headers and the string to sign
/// carry it: the milliseconds divided by a thousand, towards zero.
pub open spec fn seconds_of(timestamp: int) -> int {
    if timestamp >= 0 {
        timestamp / 1000
    } else {
        -((-timestamp) / 1000)
    }
}

/// The timestamp in whole seconds.
pub fn timestamp_seconds(timestamp: i64) -> (seconds: i64)
    ensures
        seconds == seconds_of(timestamp as int),
{
    timestamp / 1000
}

/// The credential scope for a day: the date, the service, and the fixed
/// word that ends every scope.
pub open spec fn credential_scope_text(date: Seq<char>) -> Seq<char> {
    date + seq!['/'] + SERVICE@ + seq!['/'] + "tc3_request"@
}

/// Builds the credential scope for the day with the given date.
pub fn credential_scope(date: &str) -> (scope: String)
    ensures
        scope@ == credential_scope_text(date@),
{
    let mut out = String::from_str(date);
    out.push('/');
    out.append(SERVICE);
    out.push('/');
    out.append("tc3_request");
    out
}

/// The string to sign: the scheme, the timestamp in seconds, the credential
/// scope and the hash of the canonical request, one to a line.
pub open spec fn string_to_sign_text(
    timestamp: int,
    scope: Seq<char>,
    hashed_request: Seq<char>,
) -> Seq<char> {
    join_lines(seq![ALGORITHM@, decimal(seconds_of(timestamp)), scope, hashed_request])
}

/// Builds the string to sign.
pub fn string_to_sign(timestamp: i64, scope: &str, hashed_request: &str) -> (text: String)
    ensures
        text@ == string_to_sign_text(timestamp as int, scope@, hashed_request@),
{
    let mut out = String::from_str(ALGORITHM);
    out.push('\n');
    let seconds = decimal_string(timestamp_seconds(timestamp));
    out.append(seconds.as_str());
    out.push('\n');
    out.append(scope);
    out.push('\n');
    out.append(hashed_request);
    proof {
        let lines = seq![
            ALGORITHM@,
            decimal(seconds_of(timestamp as int)),
            scope@,
            hashed_request@,
        ];
        reveal_with_fuel(join_lines, 5);
        let l2 = lines.drop_last();
        let l1 = l2.drop_last();
        let l0 = l1.drop_last();
        assert(l0.len() == 1);
        assert(out@ =~= join_lines(lines));
    }
    out
}

/// The signing key for a day: the secret key behind the prefix `TC3`, then
/// the date, the service and the fixed word, each tagged under the tag
/// before it.
pub open spec fn signing_key(secret_key: Seq<char>, date: Seq<char>) -> Seq<u8> {
    let secret_date = hmac_sha256(encode_utf8("TC3"@ + secret_key), encode_utf8(date));
    let secret_service = hmac_sha256(secret_date, encode_utf8(SERVICE@));
    hmac_sha256(secret_service, encode_utf8("tc3_request"@))
}

/// The signature of a string to sign under a day's signing key, in lowercase
/// hexadecimal.
pub open spec fn signature_text(secret_key: Seq<char>, date: Seq<char>, to_sign: Seq<char>) -> Seq<
    char,
> {
    hex(hmac_sha256(signing_key(secret_key, date), encode_utf8(to_sign)))
}

/// The value of the `Authorization` header.
pub open spec fn authorization_text(
    secret_id: Seq<char>,
    scope: Seq<char>,
    signature: Seq<char>,
) -> Seq<char> {
    ALGORITHM@ + " Credential="@ + secret_id + seq!['/'] + scope
        + ", SignedHeaders=content-type;host, Signature="@ + signature
}

/// Builds the value of the `Authorization` header.
pub fn authorization(secret_id: &str, scope: &str, signature: &str) -> (header: String)
    ensures
        header@ == authorization_text(secret_id@, scope@, signature@),
{
    let mut out = String::from_str(ALGORITHM);
    out.append(" Credential=");
    out.append(secret_id);
    out.push('/');
    out.append(scope);
    out.append(", SignedHeaders=content-type;host, Signature=");
    out.append(signature);
    out
}

/// Whether a header is as long as its parts make it and ends with a
/// signature: 64 lowercase hexadecimal digits.
pub open spec fn has_signature_shape(header: Seq<char>, secret_id: Seq<char>, date: Seq<char>) -> bool {
    &&& header.len() == 156 + secret_id.len() + date.len()
    &&& forall|i: int|
        header.len() - 64 <= i < header.len() ==> is_hex_char(#[trigger] header[i])
}

/// An `Authorization` header for a signature of 64 hexadecimal digits has
/// the shape of one.
pub proof fn lemma_authorization_shape(
    secret_id: Seq<char>,
    date: Seq<char>,
    signature: Seq<char>,
)
    requires
        signature.len() == 64,
        forall|i: int| 0 <= i < signature.len() ==> is_hex_char(#[trigger] signature[i]),
    ensures
        has_signature_shape(
            authorization_text(secret_id, credential_scope_text(date), signature),
            secret_id,
            date,
        ),
{
    reveal_strlit("TC3-HMAC-SHA256");
    reveal_strlit(" Credential=");
    reveal_strlit(", SignedHeaders=content-type;host, Signature=");
    reveal_strlit("dnspod");
    reveal_strlit("tc3_request");
    let header = authorization_text(secret_id, credential_scope_text(date), signature);
    assert(header.len() == 156 + secret_id.len() + date.len());
    assert forall|i: int| header.len() - 64 <= i < header.len() implies is_hex_char(
        #[trigger] header[i],
    ) by {
        assert(header[i] == signature[i - (header.len() - 64)]);
    }
}

/// The longest body, secret key or date, in bytes, that can be signed.
pub const MAX_SIGNED_INPUT: u64 = 0x1000_0000_0000_0000;

/// Whether a text is short enough to be signed.
pub open spec fn fits(text: Seq<char>) -> bool {
    encode_utf8(text).len() <= MAX_SIGNED_INPUT
}

/// The `Authorization` header for a request body signed at `timestamp`,
/// where `date` is the calendar date of that instant.
pub open spec fn authorization_for(
    timestamp: int,
    date: Seq<char>,
    body: Seq<char>,
    secret_key: Seq<char>,
    secret_id: Seq<char>,
) -> Seq<char> {
    let scope = credential_scope_text(date);
    let request = canonical_request_text(hex(sha256(encode_utf8(body))));
    let to_sign = string_to_sign_text(timestamp, scope, hex(sha256(encode_utf8(request))));
    authorization_text(secret_id, scope, signature_text(secret_key, date, to_sign))
}

/// Signs a request body for the instant `timestamp`, in milliseconds, whose
/// calendar date is `date`.
pub fn sign_with_date(
    timestamp: i64,
    date: &str,
    body: &str,
    secret_key: &str,
    secret_id: &str,
) -> (header: String)
    requires
        fits(date@),
        fits(body@),
        fits(secret_key@),
    ensures
        header@ == authorization_for(timestamp as int, date@, body@, secret_key@, secret_id@),
        has_signature_shape(header@, secret_id@, date@),
{
    let hashed_payload = sha256_hex(body.as_bytes());
    let request = canonical_request(hashed_payload.as_str());
    proof {
        lemma_canonical_request_len(hashed_payload@);
        lemma_encode_len_bound(request@);
    }
    let scope = credential_scope(date);
    let hashed_request = sha256_hex(request.as_str().as_bytes());
    let to_sign = string_to_sign(timestamp, scope.as_str(), hashed_request.as_str());
    let mut prefixed = String::from_str("TC3");
    prefixed.append(secret_key);
    proof {
        reveal_strlit("TC3");
        reveal_strlit("tc3_request");
        reveal_strlit("dnspod");
        lemma_encode_concat("TC3"@, secret_key@);
        lemma_encode_len_bound("TC3"@);
        lemma_encode_len_bound(SERVICE@);
        lemma_encode_len_bound("tc3_request"@);
        lemma_string_to_sign_bytes(timestamp as int, date@, hashed_request@);
    }
    let secret_date = hmac256(prefixed.as_str().as_bytes(), date);
    let secret_service = hmac256(secret_date.as_slice(), SERVICE);
    let secret_signing = hmac256(secret_service.as_slice(), "tc3_request");
    let tag = hmac256(secret_signing.as_slice(), to_sign.as_str());
    let signature = print_hex_binary(tag.as_slice());
    proof {
        lemma_hex_is_lowercase(tag@);
        lemma_authorization_shape(secret_id@, date@, signature@);
    }
    authorization(secret_id, scope.as_str(), signature.as_str())
}

/// A canonical request is about a hundred characters longer than the hash
/// in it.
proof fn lemma_canonical_request_len(hashed_payload: Seq<char>)
    ensures
        canonical_request_text(hashed_payload).len() == 104 + hashed_payload.len(),
{
    reveal_strlit("POST");
    reveal_strlit("/");
    reveal_strlit("content-type");
    reveal_strlit("host");
    reveal_strlit("application/json; charset=utf-8");
    reveal_strlit("dnspod.tencentcloudapi.com");
    let lines = canonical_lines(hashed_payload);
    reveal_with_fuel(join_lines, 9);
    let l6 = lines.drop_last();
    let l5 = l6.drop_last();
    let l4 = l5.drop_last();
    let l3 = l4.drop_last();
    let l2 = l3.drop_last();
    let l1 = l2.drop_last();
    let l0 = l1.drop_last();
    assert(l0.len() == 1);
}

/// A string to sign takes few bytes more than the date in it.
proof fn lemma_string_to_sign_bytes(timestamp: int, date: Seq<char>, hashed_request: Seq<char>)
    requires
        i64::MIN <= timestamp <= i64::MAX,
        hashed_request.len() == 64,
    ensures
        encode_utf8(
            string_to_sign_text(timestamp, credential_scope_text(date), hashed_request),
        ).len() <= encode_utf8(date).len() + 1000,
{
    reveal_strlit("TC3-HMAC-SHA256");
    reveal_strlit("tc3_request");
    reveal_strlit("dnspod");
    let number = decimal(seconds_of(timestamp));
    if seconds_of(timestamp) < 0 {
        lemma_decimal_nat_len((-seconds_of(timestamp)) as nat);
    } else {
        lemma_decimal_nat_len(seconds_of(timestamp) as nat);
    }
    let head = ALGORITHM@ + seq!['\n'] + number + seq!['\n'];
    let tail = seq!['/'] + SERVICE@ + seq!['/'] + "tc3_request"@ + seq!['\n'] + hashed_request;
    let lines = seq![ALGORITHM@, number, credential_scope_text(date), hashed_request];
    reveal_with_fuel(join_lines, 5);
    let l2 = lines.drop_last();
    let l1 = l2.drop_last();
    let l0 = l1.drop_last();
    assert(l0.len() == 1);
    let text = string_to_sign_text(timestamp, credential_scope_text(date), hashed_request);
    assert(text =~= head + date + tail);
    lemma_encode_concat(head + date, tail);
    lemma_encode_concat(head, date);
    lemma_encode_len_bound(head);
    lemma_encode_len_bound(tail);
}

/// The calendar date, in UTC and written `YYYY-MM-DD`, of an instant given
/// in milliseconds since the start of 1970, where the calendar reaches that
/// far: what `chrono` returns from `DateTime::from_timestamp_millis`,
/// formatted with `%Y-%m-%d`.
pub uninterp spec fn utc_date(timestamp: i64) -> Option<Seq<char>>;

/// Calls `chrono::DateTime::from_timestamp_millis` and formats the date of
/// the result with `%Y-%m-%d`. Trusted: the result is the date named
/// [`utc_date`], and there is none exactly where `chrono` has none.
#[verifier::external_body]
fn utc_date_string(timestamp: i64) -> (date: Option<String>)
    ensures
        match date {
            Some(d) => utc_date(timestamp) == Some(d@),
            None => utc_date(timestamp) is None,
        },
{
    match chrono::DateTime::from_timestamp_millis(timestamp) {
        Some(instant) => Some(instant.format("%Y-%m-%d").to_string()),
        None => None,
    }
}

/// Whether a request can be signed: the instant has a calendar date, and the
/// date, the body and the secret key are short enough to hash.
pub open spec fn can_sign(timestamp: i64, body: Seq<char>, secret_key: Seq<char>) -> bool {
    utc_date(timestamp) matches Some(date) && fits(date) && fits(body) && fits(secret_key)
}

/// What signing a request comes to: the value of the `Authorization`
/// header, or nothing where the request cannot be signed.
pub open spec fn signed_header(
    timestamp: i64,
    body: Seq<char>,
    secret_key: Seq<char>,
    secret_id: Seq<char>,
) -> Option<Seq<char>> {
    if can_sign(timestamp, body, secret_key) {
        Some(
            authorization_for(
                timestamp as int,
                utc_date(timestamp)->0,
                body,
                secret_key,
                secret_id,
            ),
        )
    } else {
        None
    }
}

/// Whether `result` is what signing the request returns.
pub open spec fn is_signing_result(
    timestamp: i64,
    body: Seq<char>,
    secret_key: Seq<char>,
    secret_id: Seq<char>,
    result: Result<String, DdnsError>,
) -> bool {
    match signed_header(timestamp, body, secret_key, secret_id) {
        Some(header) => result matches Ok(text) && text@ == header,
        None => result matches Err(e) && e.kind == ErrorKind::Signature,
    }
}

/// Signs a request body for the instant `timestamp`, in milliseconds since
/// the start of 1970, and returns the value of the `Authorization` header.
///
/// The result depends on the four arguments alone. Signing fails, with an
/// error of kind `Signature`, exactly where the instant has no calendar date
/// or an input is too long to hash.
pub fn get_auth(timestamp: i64, body: &str, secret_key: &str, secret_id: &str) -> (result: Result<
    String,
    DdnsError,
>)
    ensures
        is_signing_result(timestamp, body@, secret_key@, secret_id@, result),
        result matches Ok(header) ==> has_signature_shape(
            header@,
            secret_id@,
            utc_date(timestamp)->0,
        ),
{
    match utc_date_string(timestamp) {
        None => Err(DdnsError::new(ErrorKind::Signature, "the timestamp has no calendar date")),
        Some(date) => {
            if date.as_str().as_bytes().len() as u64 > MAX_SIGNED_INPUT || body.as_bytes().len() as u64
                > MAX_SIGNED_INPUT || secret_key.as_bytes().len() as u64 > MAX_SIGNED_INPUT {
                Err(DdnsError::new(ErrorKind::Signature, "an input is too long to sign"))
            } else {
                Ok(sign_with_date(timestamp, date.as_str(), body, secret_key, secret_id))
            }
        },
    }
}

/// Signing is deterministic: two results of signing the same body at the
/// same instant with the same credentials both succeed with the same header,
/// or both fail.
pub proof fn lemma_signing_is_deterministic(
    timestamp: i64,
    body: Seq<char>,
    secret_key: Seq<char>,
    secret_id: Seq<char>,
    first: Result<String, DdnsError>,
    second: Result<String, DdnsError>,
)
    requires
        is_signing_result(timestamp, body, secret_key, secret_id, first),
        is_signing_result(timestamp, body, secret_key, secret_id, second),
    ensures
        first is Ok <==> second is Ok,
        first is Ok ==> first->Ok_0@ == second->Ok_0@,
        first is Err ==> first->Err_0.kind == second->Err_0.kind,
{
}

/// Blank characters: the space, the tab and the two line ends.
pub open spec fn is_blank(c: char) -> bool {
    c == ' ' || c == '\t' || c == '\n' || c == '\r'
}

/// A header name in the form that is signed: no capital letter in it.
pub open spec fn is_lowercase(name: Seq<char>) -> bool {
    forall|i: int| 0 <= i < name.len() ==> !('A' <= #[trigger] name[i] && name[i] <= 'Z')
}

/// Whether `a` comes before `b` in the order of the alphabet.
pub open spec fn comes_before(a: Seq<char>, b: Seq<char>) -> bool {
    exists|i: int|
        0 <= i <= a.len() && i <= b.len() && #[trigger] a.take(i) == b.take(i) && if i < a.len() {
            i < b.len() && a[i] < b[i]
        } else {
            i < b.len()
        }
}

/// The form of the canonical request, for a body hash in hexadecimal.
///
/// The request has eight lines. Six hold text: the method, the path, the
/// two headers, the names of the signed headers and the hash. Two are
/// empty: the query, and the line that ends the headers. No line holds a
/// line end, none begins or ends with a blank, and the request ends with
/// the hash, so nothing trails it. The header names are in lower case and
/// in the order of the alphabet, in the header lines as in the list of
/// signed headers.
pub proof fn lemma_canonical_request_shape(hashed_payload: Seq<char>)
    requires
        hashed_payload.len() > 0,
        forall|i: int| 0 <= i < hashed_payload.len() ==> is_hex_char(#[trigger] hashed_payload[i]),
    ensures
        canonical_lines(hashed_payload).len() == 8,
        forall|k: int|
            0 <= k < 8 ==> ((#[trigger] canonical_lines(hashed_payload)[k]).len() == 0 <==> (k == 2
                || k == 5)),
        forall|k: int, i: int|
            0 <= k < 8 && 0 <= i < canonical_lines(hashed_payload)[k].len() ==> {
                let c = #[trigger] canonical_lines(hashed_payload)[k][i];
                c != '\n' && c != '\r'
            },
        forall|k: int|
            0 <= k < 8 && (#[trigger] canonical_lines(hashed_payload)[k]).len() > 0 ==> !is_blank(
                canonical_lines(hashed_payload)[k].first(),
            ) && !is_blank(canonical_lines(hashed_payload)[k].last()),
        canonical_request_text(hashed_payload).len() > 0,
        canonical_request_text(hashed_payload).last() == hashed_payload.last(),
        canonical_lines(hashed_payload)[3] == header_line("content-type"@, CONTENT_TYPE@),
        canonical_lines(hashed_payload)[4] == header_line("host"@, HOST@),
        canonical_lines(hashed_payload)[6] == "content-type"@ + seq![';'] + "host"@,
        is_lowercase("content-type"@),
        is_lowercase("host"@),
        comes_before("content-type"@, "host"@),
{
    reveal_strlit("POST");
    reveal_strlit("/");
    reveal_strlit("content-type");
    reveal_strlit("host");
    reveal_strlit("application/json; charset=utf-8");
    reveal_strlit("dnspod.tencentcloudapi.com");
    let lines = canonical_lines(hashed_payload);
    let name = "content-type"@;
    let host = "host"@;
    assert(name.take(0) =~= host.take(0));
    assert(name[0] == 'c' && host[0] == 'h');
    assert forall|k: int, i: int| 0 <= k < 8 && 0 <= i < lines[k].len() implies {
        let c = #[trigger] lines[k][i];
        c != '\n' && c != '\r'
    } by {
        if k == 7 {
            assert(is_hex_char(hashed_payload[i]));
        }
    }
    assert forall|k: int| 0 <= k < 8 && (#[trigger] lines[k]).len() > 0 implies !is_blank(
        lines[k].first(),
    ) && !is_blank(lines[k].last()) by {
        if k == 7 {
            assert(is_hex_char(hashed_payload[0]));
            assert(is_hex_char(hashed_payload[hashed_payload.len() - 1]));
        }
    }
    reveal_with_fuel(join_lines, 9);
    let l6 = lines.drop_last();
    let l5 = l6.drop_last();
    let l4 = l5.drop_last();
    let l3 = l4.drop_last();
    let l2 = l3.drop_last();
    let l1 = l2.drop_last();
    let l0 = l1.drop_last();
    assert(l0.len() == 1);
}

} // verus!
