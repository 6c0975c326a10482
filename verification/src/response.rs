//! The provider's answers: the error it reports, and the record list.

use vstd::prelude::*;

use crate::error::{DdnsError, ErrorKind};
use crate::json::{json_document, parse_json, Json};
use crate::record::{RecordItem, RecordView};

verus! {

/// The record list of a provider answer.
#[derive(Clone, Debug, PartialEq, Eq)]
pub struct Response {
    pub record_list: Vec<RecordItem>,
}

/// The member with the given key of a document that may be missing.
pub open spec fn member_of(parent: Option<Json>, key: Seq<char>) -> Option<Json> {
    match parent {
        Some(doc) => doc.member(key),
        None => None,
    }
}

/// The text of a field, or the empty text where the field is missing or is
/// not a string.
pub open spec fn text_or_empty(field: Option<Json>) -> Seq<char> {
    match field {
        Some(doc) => match doc.text() {
            Some(text) => text,
            None => Seq::empty(),
        },
        None => Seq::empty(),
    }
}

/// The error object of an answer: the member `Error` of its member
/// `Response`, where there is one.
pub open spec fn reported_error(doc: Json) -> Option<Json> {
    member_of(doc.member("Response"@), "Error"@)
}

/// The record that a list item stands for: its members `RecordId`, an
/// integer, and `Name`, `Value` and `Remark`, strings. There is none where
/// one of the four is missing or of another type.
pub open spec fn record_of(item: Json) -> Option<RecordView> {
    let id = member_of(Some(item), "RecordId"@);
    let name = member_of(Some(item), "Name"@);
    let value = member_of(Some(item), "Value"@);
    let remark = member_of(Some(item), "Remark"@);
    if id is Some && id->0.integer() is Some && name is Some && name->0.text() is Some && value is Some
        && value->0.text() is Some && remark is Some && remark->0.text() is Some {
        Some(
            RecordView {
                record_id: id->0.integer()->0 as int,
                name: name->0.text()->0,
                value: value->0.text()->0,
                remark: remark->0.text()->0,
            },
        )
    } else {
        None
    }
}

/// The items of the record list of an answer: the member `RecordList` of its
/// member `Response`, where that is an array.
pub open spec fn listed_items(doc: Json) -> Option<Seq<Json>> {
    match member_of(doc.member("Response"@), "RecordList"@) {
        Some(list) => list.items(),
        None => None,
    }
}

/// What an answer to a listing request amounts to: the records it lists, or
/// the kind of failure it is. An answer that reports an error, or has no
/// record list, is a failure of the provider; a list with an item that is
/// no record is a failure of the input.
pub open spec fn listing_of(doc: Json) -> Result<Seq<RecordView>, ErrorKind> {
    if reported_error(doc) is Some {
        Err(ErrorKind::Api)
    } else {
        match listed_items(doc) {
            None => Err(ErrorKind::Api),
            Some(items) => if forall|i: int|
                0 <= i < items.len() ==> record_of(#[trigger] items[i]) is Some {
                Ok(Seq::new(items.len(), |i: int| record_of(items[i])->0))
            } else {
                Err(ErrorKind::ReconciliationInput)
            },
        }
    }
}

/// What an answer to any request amounts to, for a document: the error that
/// it reports, with the provider's code and message, or none.
pub fn api_error(doc: &Json) -> (failure: Option<DdnsError>)
    ensures
        match reported_error(*doc) {
            Some(report) => failure matches Some(e) && e.kind == ErrorKind::Api && e.code@
                == text_or_empty(report.member("Code"@)) && e.message@ == text_or_empty(
                report.member("Message"@),
            ),
            None => failure is None,
        },
{
    let response = match doc.get("Response") {
        Some(response) => response,
        None => { return None; },
    };
    let report = match response.get("Error") {
        Some(report) => report,
        None => { return None; },
    };
    let code = text_field(report, "Code");
    let message = text_field(report, "Message");
    Some(DdnsError::api(code, message))
}

/// The text of the member with the given key, or the empty text.
fn text_field<'a>(doc: &'a Json, key: &str) -> (text: &'a str)
    ensures
        text@ == text_or_empty(doc.member(key@)),
{
    proof {
        reveal_strlit("");
    }
    match doc.get(key) {
        Some(field) => match field.as_str() {
            Some(text) => text,
            None => "",
        },
        None => "",
    }
}

/// Reads one item of a record list.
pub fn record_from_json(item: &Json) -> (result: Result<RecordItem, DdnsError>)
    ensures
        match record_of(*item) {
            Some(record) => result matches Ok(r) && r@ == record,
            None => result matches Err(e) && e.kind == ErrorKind::ReconciliationInput,
        },
{
    let id = match item.get("RecordId") {
        Some(field) => field.as_i64(),
        None => None,
    };
    let name = match item.get("Name") {
        Some(field) => field.as_str(),
        None => None,
    };
    let value = match item.get("Value") {
        Some(field) => field.as_str(),
        None => None,
    };
    let remark = match item.get("Remark") {
        Some(field) => field.as_str(),
        None => None,
    };
    match (id, name, value, remark) {
        (Some(id), Some(name), Some(value), Some(remark)) => Ok(
            RecordItem {
                record_id: id,
                name: name.to_owned(),
                value: value.to_owned(),
                remark: remark.to_owned(),
            },
        ),
        _ => Err(
            DdnsError::new(ErrorKind::ReconciliationInput, "a listed record lacks a required field"),
        ),
    }
}

impl Response {
    /// Reads the answer to a listing request.
    ///
    /// An error that the provider reports comes back with its code and
    /// message. An answer without a record list is a failure of kind `Api`;
    /// a list with an item that is no record is one of kind
    /// `ReconciliationInput`.
    pub fn from_json(doc: &Json) -> (result: Result<Response, DdnsError>)
        ensures
            match listing_of(*doc) {
                Ok(records) => result matches Ok(r) && r.record_list.deep_view() == records,
                Err(kind) => result matches Err(e) && e.kind == kind,
            },
            reported_error(*doc) matches Some(report) ==> (result matches Err(e) && e.code@
                == text_or_empty(report.member("Code"@)) && e.message@ == text_or_empty(
                report.member("Message"@),
            )),
    {
        match api_error(doc) {
            Some(failure) => { return Err(failure); },
            None => {},
        }
        let list = match doc.get("Response") {
            Some(response) => response.get("RecordList"),
            None => None,
        };
        let items = match list {
            Some(list) => list.as_array(),
            None => None,
        };
        let items = match items {
            Some(items) => items,
            None => {
                return Err(DdnsError::new(ErrorKind::Api, "the answer holds no record list"));
            },
        };
        let mut records: Vec<RecordItem> = Vec::new();
        let mut i: usize = 0;
        while i < items.len()
            invariant
                i <= items.len(),
                records.len() == i,
                reported_error(*doc) is None,
                listed_items(*doc) == Some(items@),
                forall|j: int| 0 <= j < i ==> record_of(#[trigger] items@[j]) == Some(records@[j]@),
            decreases items.len() - i,
        {
            match record_from_json(&items[i]) {
                Ok(record) => records.push(record),
                Err(failure) => { return Err(failure); },
            }
            i += 1;
        }
        assert(records.deep_view() =~= Seq::new(items@.len(), |i: int| record_of(items@[i])->0));
        Ok(Response { record_list: records })
    }
}

/// What a text amounts to as the answer to a listing request. A text that
/// is no JSON document is a failure of the provider.
pub open spec fn listing_of_text(text: Seq<char>) -> Result<Seq<RecordView>, ErrorKind> {
    match json_document(text) {
        Some(doc) => listing_of(doc),
        None => Err(ErrorKind::Api),
    }
}

/// Reads the text of an answer to a listing request.
pub fn parse_record_list(text: &str) -> (result: Result<Vec<RecordItem>, DdnsError>)
    ensures
        match listing_of_text(text@) {
            Ok(records) => result matches Ok(list) && list.deep_view() == records,
            Err(kind) => result matches Err(e) && e.kind == kind,
        },
        json_document(text@) matches Some(doc) ==> (reported_error(doc) matches Some(report) ==> (
        result matches Err(e) && e.code@ == text_or_empty(report.member("Code"@)) && e.message@
            == text_or_empty(report.member("Message"@)))),
{
    match parse_json(text) {
        None => Err(DdnsError::new(ErrorKind::Api, "the answer is not a JSON document")),
        Some(doc) => match Response::from_json(&doc) {
            Ok(response) => Ok(response.record_list),
            Err(failure) => Err(failure),
        },
    }
}

/// Whether a text, as the answer to a request that changes a record, reports
/// success: it is a JSON document that reports no error.
pub open spec fn accepted(text: Seq<char>) -> bool {
    json_document(text) matches Some(doc) && reported_error(doc) is None
}

/// Checks the text of an answer to a request that changes a record.
///
/// The provider reports failures in the body of answers that arrive in good
/// order, so the body is read whatever the transport said.
pub fn check_response(text: &str) -> (result: Result<(), DdnsError>)
    ensures
        accepted(text@) <==> result is Ok,
        result matches Err(e) ==> e.kind == ErrorKind::Api,
        json_document(text@) matches Some(doc) ==> (reported_error(doc) matches Some(report) ==> (
        result matches Err(e) && e.code@ == text_or_empty(report.member("Code"@)) && e.message@
            == text_or_empty(report.member("Message"@)))),
{
    match parse_json(text) {
        None => Err(DdnsError::new(ErrorKind::Api, "the answer is not a JSON document")),
        Some(doc) => match api_error(&doc) {
            Some(failure) => Err(failure),
            None => Ok(()),
        },
    }
}

} // verus!
