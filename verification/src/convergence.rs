//! What a plan does to the remote list, and why carrying one out leaves
//! nothing more to do.

use vstd::prelude::*;

use crate::plan_laws::{
    distinct_ids, lemma_changes_members, lemma_creations_members, lemma_filter_members,
};
use crate::reconcile::{change_for, changes, creations, has_managed, plan_for, ActionView};
use crate::record::{is_managed, managed_remark, RecordView};

verus! {

/// The record that the provider holds after a create or an update.
pub open spec fn written_record(record_id: int, name: Seq<char>, value: Seq<char>) -> RecordView {
    RecordView { record_id, name, value, remark: managed_remark() }
}

/// The remote list after one action has been carried out. A create adds a
/// managed record under the id that the provider gives it; an update rewrites
/// the record with its id; a delete removes the record with its id.
pub open spec fn apply_action(state: Seq<RecordView>, a: ActionView, new_id: int) -> Seq<
    RecordView,
> {
    match a {
        ActionView::Create { name, value } => state.push(written_record(new_id, name, value)),
        ActionView::Update { record_id, name, value } => state.map_values(
            |r: RecordView|
                if r.record_id == record_id {
                    written_record(record_id, name, value)
                } else {
                    r
                },
        ),
        ActionView::Delete { record_id, name } => state.filter(
            |r: RecordView| r.record_id != record_id,
        ),
    }
}

/// The remote list after a whole plan has been carried out in order. `ids`
/// stands for the provider's choice of an id for each new record, given the
/// list at that moment.
pub open spec fn apply_plan(
    state: Seq<RecordView>,
    plan: Seq<ActionView>,
    ids: spec_fn(Seq<RecordView>) -> int,
) -> Seq<RecordView>
    decreases plan.len(),
{
    if plan.len() == 0 {
        state
    } else {
        let before = apply_plan(state, plan.drop_last(), ids);
        apply_action(before, plan.last(), ids(before))
    }
}

/// Nothing is left to do: every managed record is wanted and points at the
/// address, and every wanted name has a managed record.
pub open spec fn converged(desired: Seq<Seq<char>>, remote: Seq<RecordView>, ip: Seq<char>) -> bool {
    &&& forall|i: int|
        0 <= i < remote.len() && is_managed(#[trigger] remote[i]) ==> desired.contains(
            remote[i].name,
        ) && remote[i].value == ip
    &&& forall|k: int| 0 <= k < desired.len() ==> has_managed(remote, #[trigger] desired[k])
}

pub open spec fn is_delete_of(a: ActionView, id: int) -> bool {
    a matches ActionView::Delete { record_id, .. } && record_id == id
}

pub open spec fn is_update_of(a: ActionView, id: int) -> bool {
    a matches ActionView::Update { record_id, .. } && record_id == id
}

/// The plan deletes the record with this id.
pub open spec fn deletes(plan: Seq<ActionView>, id: int) -> bool {
    exists|j: int| 0 <= j < plan.len() && is_delete_of(#[trigger] plan[j], id)
}

/// The plan updates the record with this id.
pub open spec fn updates(plan: Seq<ActionView>, id: int) -> bool {
    exists|j: int| 0 <= j < plan.len() && is_update_of(#[trigger] plan[j], id)
}

/// The action leaves behind a record with the id, name and value of `x`.
pub open spec fn writes(a: ActionView, x: RecordView) -> bool {
    match a {
        ActionView::Create { name, value } => name == x.name && value == x.value,
        ActionView::Update { record_id, name, value } => record_id == x.record_id && name == x.name
            && value == x.value,
        ActionView::Delete { .. } => false,
    }
}

/// Some action of the plan wrote the record `x`.
pub open spec fn written_by(plan: Seq<ActionView>, x: RecordView) -> bool {
    x.remark == managed_remark() && exists|j: int|
        0 <= j < plan.len() && writes(#[trigger] plan[j], x)
}

/// Where a record of the list after a plan comes from: it was there before
/// and the plan left it alone, or an action of the plan wrote it.
pub proof fn lemma_origin(
    state: Seq<RecordView>,
    plan: Seq<ActionView>,
    ids: spec_fn(Seq<RecordView>) -> int,
    x: RecordView,
)
    requires
        apply_plan(state, plan, ids).contains(x),
    ensures
        (state.contains(x) && !updates(plan, x.record_id) && !deletes(plan, x.record_id))
            || written_by(plan, x),
    decreases plan.len(),
{
    if plan.len() > 0 {
        let front = plan.drop_last();
        let a = plan.last();
        let before = apply_plan(state, front, ids);
        let after = apply_action(before, a, ids(before));
        let i = choose|i: int| 0 <= i < after.len() && after[i] == x;
        let was_there = match a {
            ActionView::Create { name, value } => i < before.len(),
            ActionView::Update { record_id, name, value } => before[i].record_id != record_id,
            ActionView::Delete { record_id, name } => true,
        };
        if was_there {
            match a {
                ActionView::Create { name, value } => {
                    assert(before[i] == x);
                },
                ActionView::Update { record_id, name, value } => {
                    assert(before[i] == x);
                },
                ActionView::Delete { record_id, name } => {
                    lemma_filter_members(before, |r: RecordView| r.record_id != record_id, x);
                },
            }
            assert(before.contains(x));
            assert(!is_update_of(a, x.record_id));
            assert(!is_delete_of(a, x.record_id));
            lemma_origin(state, front, ids, x);
            if written_by(front, x) {
                let j = choose|j: int| 0 <= j < front.len() && writes(#[trigger] front[j], x);
                assert(writes(plan[j], x));
            } else {
                if updates(plan, x.record_id) {
                    let j = choose|j: int|
                        0 <= j < plan.len() && is_update_of(#[trigger] plan[j], x.record_id);
                    assert(is_update_of(front[j], x.record_id));
                }
                if deletes(plan, x.record_id) {
                    let j = choose|j: int|
                        0 <= j < plan.len() && is_delete_of(#[trigger] plan[j], x.record_id);
                    assert(is_delete_of(front[j], x.record_id));
                }
            }
        } else {
            assert(writes(plan[plan.len() - 1], x));
        }
    }
}

/// A record that the plan does not delete is still there afterwards, under
/// the same id: untouched, or as an update of the plan wrote it.
pub proof fn lemma_survivor(
    state: Seq<RecordView>,
    plan: Seq<ActionView>,
    ids: spec_fn(Seq<RecordView>) -> int,
    t: RecordView,
) -> (x: RecordView)
    requires
        state.contains(t),
        !deletes(plan, t.record_id),
    ensures
        apply_plan(state, plan, ids).contains(x),
        x.record_id == t.record_id,
        x == t || (x.remark == managed_remark() && exists|j: int|
            0 <= j < plan.len() && is_update_of(#[trigger] plan[j], t.record_id) && writes(
                plan[j],
                x,
            )),
    decreases plan.len(),
{
    if plan.len() == 0 {
        t
    } else {
        let front = plan.drop_last();
        let a = plan.last();
        let before = apply_plan(state, front, ids);
        let after = apply_action(before, a, ids(before));
        if deletes(front, t.record_id) {
            let j = choose|j: int|
                0 <= j < front.len() && is_delete_of(#[trigger] front[j], t.record_id);
            assert(is_delete_of(plan[j], t.record_id));
        }
        assert(!is_delete_of(plan[plan.len() - 1], t.record_id));
        let y = lemma_survivor(state, front, ids, t);
        let i = choose|i: int| 0 <= i < before.len() && before[i] == y;
        if y != t {
            let j = choose|j: int|
                0 <= j < front.len() && is_update_of(#[trigger] front[j], t.record_id) && writes(
                    front[j],
                    y,
                );
            assert(is_update_of(plan[j], t.record_id) && writes(plan[j], y));
        }
        match a {
            ActionView::Create { name, value } => {
                assert(after[i] == y);
                y
            },
            ActionView::Update { record_id, name, value } => {
                if record_id == t.record_id {
                    let x = written_record(record_id, name, value);
                    assert(after[i] == x);
                    assert(is_update_of(plan[plan.len() - 1], t.record_id) && writes(
                        plan[plan.len() - 1],
                        x,
                    ));
                    x
                } else {
                    assert(after[i] == y);
                    y
                }
            },
            ActionView::Delete { record_id, name } => {
                lemma_filter_members(before, |r: RecordView| r.record_id != record_id, y);
                y
            },
        }
    }
}

/// A record that the plan creates is there afterwards, if only creates
/// follow that step.
pub proof fn lemma_created_stays(
    state: Seq<RecordView>,
    plan: Seq<ActionView>,
    ids: spec_fn(Seq<RecordView>) -> int,
    at: int,
) -> (x: RecordView)
    requires
        0 <= at < plan.len(),
        forall|k: int| at <= k < plan.len() ==> #[trigger] plan[k] is Create,
    ensures
        apply_plan(state, plan, ids).contains(x),
        x.remark == managed_remark(),
        writes(plan[at], x),
    decreases plan.len(),
{
    let front = plan.drop_last();
    let before = apply_plan(state, front, ids);
    let after = apply_action(before, plan.last(), ids(before));
    assert(plan[plan.len() - 1] is Create);
    if at == plan.len() - 1 {
        let x = after[before.len() as int];
        assert(after.contains(x));
        x
    } else {
        assert forall|k: int| at <= k < front.len() implies #[trigger] front[k] is Create by {
            assert(plan[k] is Create);
        }
        let x = lemma_created_stays(state, front, ids, at);
        let i = choose|i: int| 0 <= i < before.len() && before[i] == x;
        assert(after[i] == x);
        x
    }
}

/// Where nothing is left to do, the plan is empty.
pub proof fn lemma_converged_plan_is_empty(
    desired: Seq<Seq<char>>,
    remote: Seq<RecordView>,
    ip: Seq<char>,
)
    requires
        converged(desired, remote, ip),
    ensures
        plan_for(desired, remote, ip) == Seq::<ActionView>::empty(),
{
    let c = changes(desired, remote, ip);
    let k = creations(desired, remote, ip);
    lemma_changes_members(desired, remote, ip);
    lemma_creations_members(desired, remote, ip);
    if c.len() > 0 {
        let i = choose|i: int|
            0 <= i < remote.len() && change_for(desired, #[trigger] remote[i], ip) == Some(c[0]);
        assert(false);
    }
    if k.len() > 0 {
        let name = k[0]->Create_name;
        let j = choose|j: int| 0 <= j < desired.len() && desired[j] == name;
        assert(has_managed(remote, desired[j]));
        assert(false);
    }
    assert(c + k =~= Seq::<ActionView>::empty());
}

/// Reconciling is idempotent: once a plan has been carried out on a remote
/// list whose records have distinct ids, whatever ids the provider gave the
/// new records, the plan for the resulting list is empty.
pub proof fn lemma_reconcile_idempotent(
    desired: Seq<Seq<char>>,
    remote: Seq<RecordView>,
    ip: Seq<char>,
    ids: spec_fn(Seq<RecordView>) -> int,
)
    requires
        distinct_ids(remote),
    ensures
        converged(desired, apply_plan(remote, plan_for(desired, remote, ip), ids), ip),
        plan_for(desired, apply_plan(remote, plan_for(desired, remote, ip), ids), ip) == Seq::<
            ActionView,
        >::empty(),
{
    let c = changes(desired, remote, ip);
    let k = creations(desired, remote, ip);
    let plan = plan_for(desired, remote, ip);
    let after = apply_plan(remote, plan, ids);
    lemma_changes_members(desired, remote, ip);
    lemma_creations_members(desired, remote, ip);
    // Each step of the plan is a change that a managed record asks for, or a
    // create of a wanted name at the address.
    assert forall|j: int| 0 <= j < plan.len() implies (j < c.len() && plan[j] == c[j]) || (j
        >= c.len() && plan[j] == k[j - c.len()]) by {}
    assert forall|i: int| 0 <= i < after.len() && is_managed(#[trigger] after[i]) implies (
    desired.contains(after[i].name) && after[i].value == ip) by {
        let x = after[i];
        lemma_origin(remote, plan, ids, x);
        if written_by(plan, x) {
            let j = choose|j: int| 0 <= j < plan.len() && writes(#[trigger] plan[j], x);
            if j < c.len() {
                let m = choose|m: int|
                    0 <= m < remote.len() && change_for(desired, #[trigger] remote[m], ip) == Some(
                        c[j],
                    );
            } else {
                assert(plan[j] == k[j - c.len()]);
            }
        } else {
            let m = choose|m: int| 0 <= m < remote.len() && remote[m] == x;
            if change_for(desired, remote[m], ip) is Some {
                let a = change_for(desired, remote[m], ip)->0;
                let j = choose|j: int| 0 <= j < c.len() && c[j] == a;
                assert(plan[j] == a);
                assert(is_update_of(plan[j], x.record_id) || is_delete_of(plan[j], x.record_id));
            }
        }
    }
    assert forall|n: int| 0 <= n < desired.len() implies has_managed(
        after,
        #[trigger] desired[n],
    ) by {
        let name = desired[n];
        if has_managed(remote, name) {
            let m = choose|m: int|
                0 <= m < remote.len() && is_managed(#[trigger] remote[m]) && remote[m].name
                    == name;
            let t = remote[m];
            assert(desired.contains(t.name));
            // Any step that touches the id of `t` was asked for by `t` itself.
            assert forall|j: int|
                0 <= j < plan.len() && (is_delete_of(#[trigger] plan[j], t.record_id)
                    || is_update_of(plan[j], t.record_id)) implies change_for(desired, t, ip)
                == Some(plan[j]) by {
                if j < c.len() {
                    let m2 = choose|m2: int|
                        0 <= m2 < remote.len() && change_for(desired, #[trigger] remote[m2], ip)
                            == Some(c[j]);
                    assert(remote[m2].record_id == t.record_id);
                    assert(m2 == m);
                } else {
                    assert(plan[j] == k[j - c.len()]);
                }
            }
            assert(!deletes(plan, t.record_id));
            let x = lemma_survivor(remote, plan, ids, t);
            let i = choose|i: int| 0 <= i < after.len() && after[i] == x;
            assert(is_managed(after[i]) && after[i].name == name);
        } else {
            let a = ActionView::Create { name, value: ip };
            let q = choose|q: int| 0 <= q < k.len() && k[q] == a;
            assert forall|j: int| c.len() + q <= j < plan.len() implies #[trigger] plan[j] is Create by {
                assert(plan[j] == k[j - c.len()]);
            }
            let x = lemma_created_stays(remote, plan, ids, c.len() + q);
            let i = choose|i: int| 0 <= i < after.len() && after[i] == x;
            assert(is_managed(after[i]) && after[i].name == name);
        }
    }
    lemma_converged_plan_is_empty(desired, after, ip);
}

} // verus!
