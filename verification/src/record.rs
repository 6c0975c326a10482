//! The provider's DNS records as this crate sees them.

use vstd::prelude::*;

use crate::text::str_eq;

verus! {

/// One DNS record as the provider lists it.
#[derive(Clone, Debug, PartialEq, Eq)]
pub struct RecordItem {
    pub record_id: i64,
    pub name: String,
    pub value: String,
    pub remark: String,
}

/// The mathematical content of a [`RecordItem`].
pub ghost struct RecordView {
    pub record_id: int,
    pub name: Seq<char>,
    pub value: Seq<char>,
    pub remark: Seq<char>,
}

impl View for RecordItem {
    type V = RecordView;

    open spec fn view(&self) -> RecordView {
        RecordView {
            record_id: self.record_id as int,
            name: self.name@,
            value: self.value@,
            remark: self.remark@,
        }
    }
}

impl DeepView for RecordItem {
    type V = RecordView;

    open spec fn deep_view(&self) -> RecordView {
        self@
    }
}

/// The remark that marks a record as owned by this tool.
pub open spec fn managed_remark() -> Seq<char> {
    "ddns"@
}

/// A record is managed when its remark is the marker; every other record is
/// ignored and never touched.
pub open spec fn is_managed(r: RecordView) -> bool {
    r.remark == managed_remark()
}

impl RecordItem {
    /// Whether this record is owned by this tool.
    pub fn is_managed(&self) -> (b: bool)
        ensures
            b == is_managed(self@),
    {
        str_eq(self.remark.as_str(), "ddns")
    }
}

} // verus!
