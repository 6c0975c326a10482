//! The failure signal shared by every part of the crate.

use vstd::prelude::*;

verus! {

/// What went wrong, by kind.
#[derive(Clone, Copy, Debug, PartialEq, Eq, Structural)]
pub enum ErrorKind {
    /// The signature could not be computed: the timestamp has no calendar
    /// date, or an input is too long to hash.
    Signature,
    /// The provider, or the address service, could not be reached.
    Network,
    /// The provider answered and refused the request, or its answer was not
    /// the envelope it documents.
    Api,
    /// A record in the provider's list lacks a field that the plan needs.
    ReconciliationInput,
}

/// A failure: its kind, the provider's error code where there is one, and a
/// message for the operator.
#[derive(Clone, Debug, PartialEq, Eq)]
pub struct DdnsError {
    pub kind: ErrorKind,
    pub code: String,
    pub message: String,
}

impl DdnsError {
    /// A failure of the given kind with no provider code.
    pub fn new(kind: ErrorKind, message: &str) -> (e: DdnsError)
        ensures
            e.kind == kind,
            e.code@ == Seq::<char>::empty(),
            e.message@ == message@,
    {
        DdnsError { kind, code: String::new(), message: message.to_owned() }
    }

    /// A refusal by the provider, with the code and message it sent.
    pub fn api(code: &str, message: &str) -> (e: DdnsError)
        ensures
            e.kind == ErrorKind::Api,
            e.code@ == code@,
            e.message@ == message@,
    {
        DdnsError { kind: ErrorKind::Api, code: code.to_owned(), message: message.to_owned() }
    }
}

} // verus!
