//! The four requests of the provider's record API, ready to be sent.
//!
//! Nothing here touches the network. Each request is built whole: the
//! endpoint, the body, and the headers with the signature for the instant at
//! which the caller will send it.

use vstd::prelude::*;

use crate::error::{DdnsError, ErrorKind};
use crate::json::{json_string, push_json_string};
use crate::reconcile::{Action, ActionView};
use crate::signer::{
    authorization_for, can_sign, get_auth, has_signature_shape, seconds_of, timestamp_seconds,
    utc_date, CONTENT_TYPE, HOST,
};
use crate::text::{decimal, decimal_string};

verus! {

/// The address that every request is posted to.
pub const ENDPOINT: &'static str = "https://dnspod.tencentcloudapi.com";

/// The version of the API that the requests are written for.
pub const API_VERSION: &'static str = "2021-03-23";

/// A request to post: where to, with which headers, and the body.
#[derive(Clone, Debug, PartialEq, Eq)]
pub struct ApiRequest {
    pub endpoint: String,
    pub headers: Vec<(String, String)>,
    pub body: String,
}

/// The mathematical content of an [`ApiRequest`].
pub ghost struct RequestView {
    pub endpoint: Seq<char>,
    pub headers: Seq<(Seq<char>, Seq<char>)>,
    pub body: Seq<char>,
}

impl View for ApiRequest {
    type V = RequestView;

    open spec fn view(&self) -> RequestView {
        RequestView {
            endpoint: self.endpoint@,
            headers: Seq::new(
                self.headers@.len(),
                |i: int| (self.headers@[i].0@, self.headers@[i].1@),
            ),
            body: self.body@,
        }
    }
}

/// The headers of a request, in the order in which they are sent: the host,
/// the timestamp in seconds, the version, the action, the empty region and
/// token, the content type and the signature.
pub open spec fn request_headers(action: Seq<char>, timestamp: int, authorization: Seq<char>) -> Seq<
    (Seq<char>, Seq<char>),
> {
    seq![
        ("Host"@, HOST@),
        ("X-TC-Timestamp"@, decimal(seconds_of(timestamp))),
        ("X-TC-Version"@, API_VERSION@),
        ("X-TC-Action"@, action),
        ("X-TC-Region"@, Seq::empty()),
        ("X-TC-Token"@, Seq::empty()),
        ("Content-Type"@, CONTENT_TYPE@),
        ("Authorization"@, authorization),
    ]
}

/// The request for an action and a body, signed with the given credentials
/// for the instant `timestamp`.
pub open spec fn signed_request(
    action: Seq<char>,
    body: Seq<char>,
    timestamp: i64,
    secret_key: Seq<char>,
    secret_id: Seq<char>,
) -> RequestView {
    RequestView {
        endpoint: ENDPOINT@,
        headers: request_headers(
            action,
            timestamp as int,
            authorization_for(
                timestamp as int,
                utc_date(timestamp)->0,
                body,
                secret_key,
                secret_id,
            ),
        ),
        body,
    }
}

fn header(name: &str, value: &str) -> (pair: (String, String))
    ensures
        pair.0@ == name@,
        pair.1@ == value@,
{
    (name.to_owned(), value.to_owned())
}

/// Builds the signed request for an action and a body.
///
/// The request can be built exactly where the body can be signed; otherwise
/// the failure is of kind `Signature`.
pub fn build_request(
    action: &str,
    body: &str,
    secret_key: &str,
    secret_id: &str,
    timestamp: i64,
) -> (result: Result<ApiRequest, DdnsError>)
    ensures
        can_sign(timestamp, body@, secret_key@) ==> (result matches Ok(request) && request@
            == signed_request(action@, body@, timestamp, secret_key@, secret_id@)),
        !can_sign(timestamp, body@, secret_key@) ==> (result matches Err(e) && e.kind
            == ErrorKind::Signature),
        result matches Ok(request) ==> has_signature_shape(
            request@.headers[7].1,
            secret_id@,
            utc_date(timestamp)->0,
        ),
{
    let authorization = match get_auth(timestamp, body, secret_key, secret_id) {
        Ok(authorization) => authorization,
        Err(failure) => { return Err(failure); },
    };
    let seconds = decimal_string(timestamp_seconds(timestamp));
    let mut headers: Vec<(String, String)> = Vec::new();
    headers.push(header("Host", HOST));
    headers.push(header("X-TC-Timestamp", seconds.as_str()));
    headers.push(header("X-TC-Version", API_VERSION));
    headers.push(header("X-TC-Action", action));
    headers.push(header("X-TC-Region", ""));
    headers.push(header("X-TC-Token", ""));
    headers.push(header("Content-Type", CONTENT_TYPE));
    headers.push(header("Authorization", authorization.as_str()));
    let request = ApiRequest { endpoint: ENDPOINT.to_owned(), headers, body: body.to_owned() };
    proof {
        reveal_strlit("");
        let built = request@.headers;
        let wanted = signed_request(action@, body@, timestamp, secret_key@, secret_id@).headers;
        assert(built.len() == 8 && wanted.len() == 8);
        assert(built[0] == wanted[0]);
        assert(built[1] == wanted[1]);
        assert(built[2] == wanted[2]);
        assert(built[3] == wanted[3]);
        assert(built[4] == wanted[4]);
        assert(built[5] == wanted[5]);
        assert(built[6] == wanted[6]);
        assert(built[7] == wanted[7]);
        assert(built =~= wanted);
    }
    Ok(request)
}

/// The body of a request that lists the records of a domain: a JSON object
/// with the domain as its one member.
pub open spec fn list_body(domain: Seq<char>) -> Seq<char> {
    "{\"Domain\": "@ + json_string(domain) + "}"@
}

/// The body of a request that creates an `A` record on the default line,
/// marked as managed. The domain, the name and the value are written as
/// JSON strings, so that none of them can end its member or add another.
pub open spec fn create_body(domain: Seq<char>, sub_domain: Seq<char>, value: Seq<char>) -> Seq<
    char,
> {
    "{\"Domain\": "@ + json_string(domain) + ", \"SubDomain\": "@ + json_string(sub_domain)
        + ", \"RecordType\": \"A\", \"RecordLine\": \"\u{9ed8}\u{8ba4}\", \"Value\": "@
        + json_string(value) + ", \"Remark\": \"ddns\"}"@
}

/// The body of a request that rewrites the record with the given id as an
/// `A` record on the default line, marked as managed. The id is written as
/// a string of decimal digits.
pub open spec fn update_body(
    domain: Seq<char>,
    sub_domain: Seq<char>,
    value: Seq<char>,
    record_id: int,
) -> Seq<char> {
    "{\"Domain\": "@ + json_string(domain) + ", \"SubDomain\": "@ + json_string(sub_domain)
        + ", \"RecordType\": \"A\", \"RecordLine\": \"\u{9ed8}\u{8ba4}\", \"Value\": "@
        + json_string(value) + ", \"RecordId\": \""@ + decimal(record_id)
        + "\", \"Remark\": \"ddns\"}"@
}

/// The body of a request that deletes the record with the given id.
pub open spec fn delete_body(domain: Seq<char>, record_id: int) -> Seq<char> {
    "{\"Domain\": "@ + json_string(domain) + ", \"RecordId\": \""@ + decimal(record_id) + "\"}"@
}

/// The name of the API action that carries out a step of a plan.
pub open spec fn action_name(step: ActionView) -> Seq<char> {
    match step {
        ActionView::Create { .. } => "CreateRecord"@,
        ActionView::Update { .. } => "ModifyRecord"@,
        ActionView::Delete { .. } => "DeleteRecord"@,
    }
}

/// The body of the request that carries out a step of a plan on a domain.
pub open spec fn action_body(domain: Seq<char>, step: ActionView) -> Seq<char> {
    match step {
        ActionView::Create { name, value } => create_body(domain, name, value),
        ActionView::Update { record_id, name, value } => update_body(
            domain,
            name,
            value,
            record_id,
        ),
        ActionView::Delete { record_id, name } => delete_body(domain, record_id),
    }
}

/// The credentials that requests are signed with.
pub struct TencentUtils {
    secret_id: String,
    secret_key: String,
}

impl TencentUtils {
    /// The id of the secret.
    pub closed spec fn secret_id(&self) -> Seq<char> {
        self.secret_id@
    }

    /// The secret key.
    pub closed spec fn secret_key(&self) -> Seq<char> {
        self.secret_key@
    }

    /// Holds the given credentials.
    pub fn new(secret_id: String, secret_key: String) -> (client: Self)
        ensures
            client.secret_id() == secret_id@,
            client.secret_key() == secret_key@,
    {
        Self { secret_id, secret_key }
    }

    /// The request that rewrites a record of the domain.
    pub fn update_record(
        &self,
        domain: &str,
        sub_domain: &str,
        value: &str,
        record_id: i64,
        timestamp: i64,
    ) -> (result: Result<ApiRequest, DdnsError>)
        ensures
            can_sign(
                timestamp,
                update_body(domain@, sub_domain@, value@, record_id as int),
                self.secret_key(),
            ) ==> (result matches Ok(request) && request@ == signed_request(
                "ModifyRecord"@,
                update_body(domain@, sub_domain@, value@, record_id as int),
                timestamp,
                self.secret_key(),
                self.secret_id(),
            )),
            !can_sign(
                timestamp,
                update_body(domain@, sub_domain@, value@, record_id as int),
                self.secret_key(),
            ) ==> (result matches Err(e) && e.kind == ErrorKind::Signature),
    {
        let mut body = String::from_str("{\"Domain\": ");
        push_json_string(&mut body, domain);
        body.append(", \"SubDomain\": ");
        push_json_string(&mut body, sub_domain);
        body.append(", \"RecordType\": \"A\", \"RecordLine\": \"\u{9ed8}\u{8ba4}\", \"Value\": ");
        push_json_string(&mut body, value);
        body.append(", \"RecordId\": \"");
        body.append(decimal_string(record_id).as_str());
        body.append("\", \"Remark\": \"ddns\"}");
        build_request(
            "ModifyRecord",
            body.as_str(),
            self.secret_key.as_str(),
            self.secret_id.as_str(),
            timestamp,
        )
    }

    /// The request that deletes a record of the domain.
    pub fn delete_record(&self, domain: &str, record_id: i64, timestamp: i64) -> (result: Result<
        ApiRequest,
        DdnsError,
    >)
        ensures
            can_sign(timestamp, delete_body(domain@, record_id as int), self.secret_key()) ==> (
            result matches Ok(request) && request@ == signed_request(
                "DeleteRecord"@,
                delete_body(domain@, record_id as int),
                timestamp,
                self.secret_key(),
                self.secret_id(),
            )),
            !can_sign(timestamp, delete_body(domain@, record_id as int), self.secret_key()) ==> (
            result matches Err(e) && e.kind == ErrorKind::Signature),
    {
        let mut body = String::from_str("{\"Domain\": ");
        push_json_string(&mut body, domain);
        body.append(", \"RecordId\": \"");
        body.append(decimal_string(record_id).as_str());
        body.append("\"}");
        build_request(
            "DeleteRecord",
            body.as_str(),
            self.secret_key.as_str(),
            self.secret_id.as_str(),
            timestamp,
        )
    }

    /// The request that creates a record of the domain.
    pub fn create_record(&self, domain: &str, sub_domain: &str, value: &str, timestamp: i64) -> (result:
        Result<ApiRequest, DdnsError>)
        ensures
            can_sign(timestamp, create_body(domain@, sub_domain@, value@), self.secret_key()) ==> (
            result matches Ok(request) && request@ == signed_request(
                "CreateRecord"@,
                create_body(domain@, sub_domain@, value@),
                timestamp,
                self.secret_key(),
                self.secret_id(),
            )),
            !can_sign(timestamp, create_body(domain@, sub_domain@, value@), self.secret_key())
                ==> (result matches Err(e) && e.kind == ErrorKind::Signature),
    {
        let mut body = String::from_str("{\"Domain\": ");
        push_json_string(&mut body, domain);
        body.append(", \"SubDomain\": ");
        push_json_string(&mut body, sub_domain);
        body.append(", \"RecordType\": \"A\", \"RecordLine\": \"\u{9ed8}\u{8ba4}\", \"Value\": ");
        push_json_string(&mut body, value);
        body.append(", \"Remark\": \"ddns\"}");
        build_request(
            "CreateRecord",
            body.as_str(),
            self.secret_key.as_str(),
            self.secret_id.as_str(),
            timestamp,
        )
    }

    /// The request that lists the records of the domain.
    pub fn describe_record_list(&self, domain: &str, timestamp: i64) -> (result: Result<
        ApiRequest,
        DdnsError,
    >)
        ensures
            can_sign(timestamp, list_body(domain@), self.secret_key()) ==> (result matches Ok(
                request,
            ) && request@ == signed_request(
                "DescribeRecordList"@,
                list_body(domain@),
                timestamp,
                self.secret_key(),
                self.secret_id(),
            )),
            !can_sign(timestamp, list_body(domain@), self.secret_key()) ==> (result matches Err(e)
                && e.kind == ErrorKind::Signature),
    {
        let mut body = String::from_str("{\"Domain\": ");
        push_json_string(&mut body, domain);
        body.append("}");
        build_request(
            "DescribeRecordList",
            body.as_str(),
            self.secret_key.as_str(),
            self.secret_id.as_str(),
            timestamp,
        )
    }

    /// The request that carries out one step of a plan on the domain.
    pub fn request_for(&self, domain: &str, step: &Action, timestamp: i64) -> (result: Result<
        ApiRequest,
        DdnsError,
    >)
        ensures
            can_sign(timestamp, action_body(domain@, step@), self.secret_key()) ==> (
            result matches Ok(request) && request@ == signed_request(
                action_name(step@),
                action_body(domain@, step@),
                timestamp,
                self.secret_key(),
                self.secret_id(),
            )),
            !can_sign(timestamp, action_body(domain@, step@), self.secret_key()) ==> (
            result matches Err(e) && e.kind == ErrorKind::Signature),
    {
        match step {
            Action::Create { name, value } => self.create_record(
                domain,
                name.as_str(),
                value.as_str(),
                timestamp,
            ),
            Action::Update { record_id, name, value } => self.update_record(
                domain,
                name.as_str(),
                value.as_str(),
                *record_id,
                timestamp,
            ),
            Action::Delete { record_id, name } => self.delete_record(
                domain,
                *record_id,
                timestamp,
            ),
        }
    }
}

} // verus!
