//! The plan: which records to create, update and delete so that the provider's
//! managed records match the wanted names at the current address.

use vstd::prelude::*;

use crate::record::{is_managed, RecordItem, RecordView};
use crate::text::str_eq;

verus! {

/// One step of a plan. Each step carries all that is needed to carry it out
/// on its own.
#[derive(Clone, Debug, PartialEq, Eq)]
pub enum Action {
    Create { name: String, value: String },
    Update { record_id: i64, name: String, value: String },
    Delete { record_id: i64, name: String },
}

/// The mathematical content of an [`Action`].
pub ghost enum ActionView {
    Create { name: Seq<char>, value: Seq<char> },
    Update { record_id: int, name: Seq<char>, value: Seq<char> },
    Delete { record_id: int, name: Seq<char> },
}

impl View for Action {
    type V = ActionView;

    open spec fn view(&self) -> ActionView {
        match self {
            Action::Create { name, value } => ActionView::Create { name: name@, value: value@ },
            Action::Update { record_id, name, value } => ActionView::Update {
                record_id: *record_id as int,
                name: name@,
                value: value@,
            },
            Action::Delete { record_id, name } => ActionView::Delete {
                record_id: *record_id as int,
                name: name@,
            },
        }
    }
}

impl DeepView for Action {
    type V = ActionView;

    open spec fn deep_view(&self) -> ActionView {
        self@
    }
}

/// What one remote record asks for: nothing if it is ignored or already
/// right, an update if it is wanted and points elsewhere, a delete if it is
/// managed and no longer wanted.
pub open spec fn change_for(desired: Seq<Seq<char>>, r: RecordView, ip: Seq<char>) -> Option<
    ActionView,
> {
    if !is_managed(r) {
        None
    } else if desired.contains(r.name) {
        if r.value != ip {
            Some(ActionView::Update { record_id: r.record_id, name: r.name, value: ip })
        } else {
            None
        }
    } else {
        Some(ActionView::Delete { record_id: r.record_id, name: r.name })
    }
}

/// The updates and deletes of a plan, in the order of the remote list.
pub open spec fn changes(desired: Seq<Seq<char>>, remote: Seq<RecordView>, ip: Seq<char>) -> Seq<
    ActionView,
>
    decreases remote.len(),
{
    if remote.len() == 0 {
        Seq::empty()
    } else {
        let before = changes(desired, remote.drop_last(), ip);
        match change_for(desired, remote.last(), ip) {
            Some(a) => before.push(a),
            None => before,
        }
    }
}

/// Whether some managed record of the list bears the name.
pub open spec fn has_managed(remote: Seq<RecordView>, name: Seq<char>) -> bool {
    exists|i: int| 0 <= i < remote.len() && is_managed(#[trigger] remote[i]) && remote[i].name == name
}

/// The creates of a plan: one for each wanted name that no managed record
/// bears, in the order in which the names are first given.
pub open spec fn creations(desired: Seq<Seq<char>>, remote: Seq<RecordView>, ip: Seq<char>) -> Seq<
    ActionView,
>
    decreases desired.len(),
{
    if desired.len() == 0 {
        Seq::empty()
    } else {
        let before = creations(desired.drop_last(), remote, ip);
        let name = desired.last();
        if !has_managed(remote, name) && !desired.drop_last().contains(name) {
            before.push(ActionView::Create { name, value: ip })
        } else {
            before
        }
    }
}

/// The plan for a set of wanted names, a remote list and the current address:
/// the changes to existing records first, then the creates.
pub open spec fn plan_for(desired: Seq<Seq<char>>, remote: Seq<RecordView>, ip: Seq<char>) -> Seq<
    ActionView,
> {
    changes(desired, remote, ip) + creations(desired, remote, ip)
}

/// Whether `name` is among the first `upto` wanted names.
fn names_contain(desired: &Vec<String>, upto: usize, name: &str) -> (found: bool)
    requires
        upto <= desired.len(),
    ensures
        found == desired.deep_view().take(upto as int).contains(name@),
{
    let mut i: usize = 0;
    while i < upto
        invariant
            i <= upto <= desired.len(),
            forall|j: int| 0 <= j < i ==> desired[j]@ != name@,
        decreases upto - i,
    {
        if str_eq(desired[i].as_str(), name) {
            assert(desired.deep_view().take(upto as int)[i as int] == name@);
            return true;
        }
        i += 1;
    }
    false
}

/// Whether some managed record of the list bears `name`.
fn managed_has_name(remote: &Vec<RecordItem>, name: &str) -> (found: bool)
    ensures
        found == has_managed(remote.deep_view(), name@),
{
    let mut i: usize = 0;
    while i < remote.len()
        invariant
            i <= remote.len(),
            forall|j: int|
                0 <= j < i ==> !(is_managed(#[trigger] remote.deep_view()[j])
                    && remote.deep_view()[j].name == name@),
        decreases remote.len() - i,
    {
        if remote[i].is_managed() && str_eq(remote[i].name.as_str(), name) {
            assert(is_managed(remote.deep_view()[i as int]));
            return true;
        }
        i += 1;
    }
    false
}

/// Computes the plan that brings the remote list in line with the wanted
/// names at the current address.
///
/// Ignored records play no part. A managed record whose name is wanted is
/// updated if it points elsewhere and left alone otherwise; one whose name is
/// not wanted is deleted. A wanted name that no managed record bears is
/// created, once, however often it is given.
pub fn reconcile(desired: &Vec<String>, remote: &Vec<RecordItem>, current_ip: &str) -> (plan: Vec<
    Action,
>)
    ensures
        plan.deep_view() == plan_for(desired.deep_view(), remote.deep_view(), current_ip@),
{
    let ghost want = desired.deep_view();
    let ghost have = remote.deep_view();
    let ghost ip = current_ip@;
    let mut plan: Vec<Action> = Vec::new();
    let mut i: usize = 0;
    while i < remote.len()
        invariant
            i <= remote.len(),
            want == desired.deep_view(),
            have == remote.deep_view(),
            ip == current_ip@,
            plan.deep_view() == changes(want, have.take(i as int), ip),
        decreases remote.len() - i,
    {
        let item = &remote[i];
        proof {
            assert(have.take(i + 1).drop_last() =~= have.take(i as int));
            assert(have.take(i + 1).last() == item@);
            assert(want.take(desired.len() as int) =~= want);
        }
        let ghost before = plan.deep_view();
        if item.is_managed() {
            if names_contain(desired, desired.len(), item.name.as_str()) {
                if !str_eq(item.value.as_str(), current_ip) {
                    plan.push(
                        Action::Update {
                            record_id: item.record_id,
                            name: item.name.clone(),
                            value: current_ip.to_owned(),
                        },
                    );
                    assert(plan.deep_view() =~= before.push(change_for(want, item@, ip).unwrap()));
                }
            } else {
                plan.push(Action::Delete { record_id: item.record_id, name: item.name.clone() });
                assert(plan.deep_view() =~= before.push(change_for(want, item@, ip).unwrap()));
            }
        }
        i += 1;
    }
    assert(have.take(remote.len() as int) =~= have);
    let ghost changed = plan.deep_view();
    let mut k: usize = 0;
    while k < desired.len()
        invariant
            k <= desired.len(),
            want == desired.deep_view(),
            have == remote.deep_view(),
            ip == current_ip@,
            changed == changes(want, have, ip),
            plan.deep_view() == changed + creations(want.take(k as int), have, ip),
        decreases desired.len() - k,
    {
        let name = &desired[k];
        proof {
            assert(want.take(k + 1).drop_last() =~= want.take(k as int));
            assert(want.take(k + 1).last() == name@);
        }
        let ghost before = plan.deep_view();
        if !managed_has_name(remote, name.as_str()) && !names_contain(desired, k, name.as_str()) {
            plan.push(Action::Create { name: name.clone(), value: current_ip.to_owned() });
            assert(plan.deep_view() =~= before.push(
                ActionView::Create { name: name@, value: ip },
            ));
        }
        k += 1;
    }
    assert(want.take(desired.len() as int) =~= want);
    plan
}

} // verus!
