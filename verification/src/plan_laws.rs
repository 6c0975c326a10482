//! What holds of every plan: where its steps come from, the order they stand
//! in, and that ignored records and the spelling of the wanted set play no
//! part.

use vstd::prelude::*;

use crate::reconcile::{change_for, changes, creations, has_managed, plan_for, ActionView};
use crate::record::{is_managed, RecordView};

verus! {

/// What is in a filtered sequence: the members that pass.
pub proof fn lemma_filter_members<A>(s: Seq<A>, p: spec_fn(A) -> bool, x: A)
    ensures
        s.filter(p).contains(x) <==> (s.contains(x) && p(x)),
    decreases s.len(),
{
    reveal(Seq::filter);
    if s.len() > 0 {
        let front = s.drop_last();
        lemma_filter_members(front, p, x);
        if s.contains(x) {
            let i = choose|i: int| 0 <= i < s.len() && s[i] == x;
            if i < s.len() - 1 {
                assert(front[i] == x);
            }
        }
        if front.contains(x) {
            let i = choose|i: int| 0 <= i < front.len() && front[i] == x;
            assert(s[i] == x);
        }
        if p(s.last()) {
            let kept = front.filter(p);
            let all = kept.push(s.last());
            if all.contains(x) {
                let i = choose|i: int| 0 <= i < all.len() && all[i] == x;
                if i < kept.len() {
                    assert(kept[i] == x);
                }
            }
            if kept.contains(x) {
                let i = choose|i: int| 0 <= i < kept.len() && kept[i] == x;
                assert(all[i] == x);
            }
            if x == s.last() {
                assert(all[kept.len() as int] == x);
                assert(s[s.len() - 1] == x);
            }
        }
    }
}

/// Every change of a plan is what some record of the list asks for, and what
/// a record asks for is among the changes.
pub proof fn lemma_changes_members(desired: Seq<Seq<char>>, remote: Seq<RecordView>, ip: Seq<char>)
    ensures
        forall|k: int|
            0 <= k < changes(desired, remote, ip).len() ==> exists|i: int|
                0 <= i < remote.len() && change_for(desired, #[trigger] remote[i], ip) == Some(
                    #[trigger] changes(desired, remote, ip)[k],
                ),
        forall|i: int|
            0 <= i < remote.len() && change_for(desired, #[trigger] remote[i], ip) is Some
                ==> changes(desired, remote, ip).contains(change_for(desired, remote[i], ip)->0),
    decreases remote.len(),
{
    if remote.len() > 0 {
        let front = remote.drop_last();
        lemma_changes_members(desired, front, ip);
        let early = changes(desired, front, ip);
        let all = changes(desired, remote, ip);
        assert forall|k: int| 0 <= k < all.len() implies exists|i: int|
            0 <= i < remote.len() && change_for(desired, #[trigger] remote[i], ip) == Some(
                #[trigger] all[k],
            ) by {
            if k < early.len() {
                assert(all[k] == early[k]);
                let i = choose|i: int|
                    0 <= i < front.len() && change_for(desired, #[trigger] front[i], ip) == Some(
                        early[k],
                    );
                assert(remote[i] == front[i]);
            } else {
                assert(change_for(desired, remote[remote.len() - 1], ip) == Some(all[k]));
            }
        }
        assert forall|i: int|
            0 <= i < remote.len() && change_for(
                desired,
                #[trigger] remote[i],
                ip,
            ) is Some implies all.contains(change_for(desired, remote[i], ip)->0) by {
            let a = change_for(desired, remote[i], ip)->0;
            if i < front.len() {
                assert(front[i] == remote[i]);
                let k = choose|k: int| 0 <= k < early.len() && early[k] == a;
                assert(all[k] == a);
            } else {
                assert(all[all.len() - 1] == a);
            }
        }
    }
}

/// Every create of a plan is for a wanted name that no managed record bears,
/// at the current address, and every such name has its create.
pub proof fn lemma_creations_members(
    desired: Seq<Seq<char>>,
    remote: Seq<RecordView>,
    ip: Seq<char>,
)
    ensures
        forall|k: int|
            0 <= k < creations(desired, remote, ip).len() ==> {
                let a = #[trigger] creations(desired, remote, ip)[k];
                &&& a matches ActionView::Create { name, value }
                &&& value == ip
                &&& desired.contains(name)
                &&& !has_managed(remote, name)
            },
        forall|n: int|
            0 <= n < desired.len() && !has_managed(remote, #[trigger] desired[n]) ==> creations(
                desired,
                remote,
                ip,
            ).contains(ActionView::Create { name: desired[n], value: ip }),
    decreases desired.len(),
{
    if desired.len() > 0 {
        let front = desired.drop_last();
        lemma_creations_members(front, remote, ip);
        let early = creations(front, remote, ip);
        let all = creations(desired, remote, ip);
        assert forall|k: int| 0 <= k < all.len() implies {
            let a = #[trigger] all[k];
            &&& a matches ActionView::Create { name, value }
            &&& value == ip
            &&& desired.contains(name)
            &&& !has_managed(remote, name)
        } by {
            if k < early.len() {
                assert(all[k] == early[k]);
                let name = early[k]->Create_name;
                let j = choose|j: int| 0 <= j < front.len() && front[j] == name;
                assert(desired[j] == name);
            } else {
                assert(desired[desired.len() - 1] == desired.last());
            }
        }
        assert forall|n: int|
            0 <= n < desired.len() && !has_managed(
                remote,
                #[trigger] desired[n],
            ) implies all.contains(ActionView::Create { name: desired[n], value: ip }) by {
            let a = ActionView::Create { name: desired[n], value: ip };
            if n < front.len() {
                assert(front[n] == desired[n]);
                let k = choose|k: int| 0 <= k < early.len() && early[k] == a;
                assert(all[k] == a);
            } else if front.contains(desired[n]) {
                let m = choose|m: int| 0 <= m < front.len() && front[m] == desired[n];
                assert(!has_managed(remote, front[m]));
                let k = choose|k: int| 0 <= k < early.len() && early[k] == a;
                assert(all[k] == a);
            } else {
                assert(all[all.len() - 1] == a);
            }
        }
    }
}


/// The record id that a step refers to, if it refers to one.
pub open spec fn action_id(a: ActionView) -> Option<int> {
    match a {
        ActionView::Create { .. } => None,
        ActionView::Update { record_id, .. } => Some(record_id),
        ActionView::Delete { record_id, .. } => Some(record_id),
    }
}

/// No two records of the list share an id.
pub open spec fn distinct_ids(remote: Seq<RecordView>) -> bool {
    forall|i: int, j: int|
        0 <= i < j < remote.len() ==> (#[trigger] remote[i]).record_id != (
        #[trigger] remote[j]).record_id
}

/// The managed records of a list, in order.
pub open spec fn managed_part(remote: Seq<RecordView>) -> Seq<RecordView> {
    remote.filter(|r: RecordView| is_managed(r))
}

/// The ignored records of a list, in order.
pub open spec fn ignored_part(remote: Seq<RecordView>) -> Seq<RecordView> {
    remote.filter(|r: RecordView| !is_managed(r))
}

/// A plan has its updates and deletes first and its creates after them.
pub proof fn lemma_changes_before_creates(
    desired: Seq<Seq<char>>,
    remote: Seq<RecordView>,
    ip: Seq<char>,
)
    ensures
        forall|j: int|
            0 <= j < plan_for(desired, remote, ip).len() ==> (#[trigger] plan_for(
                desired,
                remote,
                ip,
            )[j] is Create <==> j >= changes(desired, remote, ip).len()),
{
    let c = changes(desired, remote, ip);
    let k = creations(desired, remote, ip);
    let plan = plan_for(desired, remote, ip);
    lemma_changes_members(desired, remote, ip);
    lemma_creations_members(desired, remote, ip);
    assert forall|j: int| 0 <= j < plan.len() implies (#[trigger] plan[j] is Create <==> j
        >= c.len()) by {
        if j < c.len() {
            assert(plan[j] == c[j]);
            let i = choose|i: int|
                0 <= i < remote.len() && change_for(desired, #[trigger] remote[i], ip) == Some(
                    c[j],
                );
        } else {
            assert(plan[j] == k[j - c.len()]);
        }
    }
}

/// Where the records of the list have distinct ids, no two steps of the plan
/// refer to the same record id.
pub proof fn lemma_steps_have_distinct_ids(
    desired: Seq<Seq<char>>,
    remote: Seq<RecordView>,
    ip: Seq<char>,
)
    requires
        distinct_ids(remote),
    ensures
        forall|i: int, j: int|
            0 <= i < j < plan_for(desired, remote, ip).len() && action_id(
                #[trigger] plan_for(desired, remote, ip)[i],
            ) is Some ==> action_id(#[trigger] plan_for(desired, remote, ip)[j]) != action_id(
                plan_for(desired, remote, ip)[i],
            ),
{
    let c = changes(desired, remote, ip);
    let k = creations(desired, remote, ip);
    let plan = plan_for(desired, remote, ip);
    lemma_changes_have_distinct_ids(desired, remote, ip);
    lemma_creations_members(desired, remote, ip);
    assert forall|i: int, j: int|
        0 <= i < j < plan.len() && action_id(#[trigger] plan[i]) is Some implies action_id(
        #[trigger] plan[j],
    ) != action_id(plan[i]) by {
        if j < c.len() {
            assert(plan[i] == c[i] && plan[j] == c[j]);
        } else {
            assert(plan[j] == k[j - c.len()]);
        }
    }
}

proof fn lemma_changes_have_distinct_ids(
    desired: Seq<Seq<char>>,
    remote: Seq<RecordView>,
    ip: Seq<char>,
)
    requires
        distinct_ids(remote),
    ensures
        forall|i: int, j: int|
            0 <= i < j < changes(desired, remote, ip).len() ==> action_id(
                #[trigger] changes(desired, remote, ip)[i],
            ) != action_id(#[trigger] changes(desired, remote, ip)[j]),
    decreases remote.len(),
{
    if remote.len() > 0 {
        let front = remote.drop_last();
        let early = changes(desired, front, ip);
        let all = changes(desired, remote, ip);
        assert(distinct_ids(front)) by {
            assert forall|i: int, j: int| 0 <= i < j < front.len() implies (
            #[trigger] front[i]).record_id != (#[trigger] front[j]).record_id by {
                assert(remote[i].record_id != remote[j].record_id);
            }
        }
        lemma_changes_have_distinct_ids(desired, front, ip);
        lemma_changes_members(desired, front, ip);
        assert forall|i: int, j: int| 0 <= i < j < all.len() implies action_id(
            #[trigger] all[i],
        ) != action_id(#[trigger] all[j]) by {
            assert(all[i] == early[i]);
            if j < early.len() {
                assert(all[j] == early[j]);
            } else {
                let m = choose|m: int|
                    0 <= m < front.len() && change_for(desired, #[trigger] front[m], ip) == Some(
                        early[i],
                    );
                assert(remote[m].record_id != remote[remote.len() - 1].record_id);
            }
        }
    }
}

/// Every record of a list is managed or ignored and never both: it stands in
/// exactly one of the two parts of the list.
pub proof fn lemma_partition(remote: Seq<RecordView>, r: RecordView)
    ensures
        managed_part(remote).contains(r) <==> remote.contains(r) && is_managed(r),
        ignored_part(remote).contains(r) <==> remote.contains(r) && !is_managed(r),
        remote.contains(r) ==> (managed_part(remote).contains(r) != ignored_part(remote).contains(
            r,
        )),
{
    lemma_filter_members(remote, |r: RecordView| is_managed(r), r);
    lemma_filter_members(remote, |r: RecordView| !is_managed(r), r);
}

/// Ignored records play no part in a plan: each update and delete is asked
/// for by a managed record, whose id and name it carries, and the plan for a
/// list is the plan for its managed part.
pub proof fn lemma_ignored_never_touched(
    desired: Seq<Seq<char>>,
    remote: Seq<RecordView>,
    ip: Seq<char>,
)
    ensures
        forall|k: int|
            0 <= k < changes(desired, remote, ip).len() ==> exists|i: int|
                0 <= i < remote.len() && is_managed(#[trigger] remote[i]) && change_for(
                    desired,
                    remote[i],
                    ip,
                ) == Some(#[trigger] changes(desired, remote, ip)[k]) && action_id(
                    changes(desired, remote, ip)[k],
                ) == Some(remote[i].record_id),
        plan_for(desired, remote, ip) == plan_for(desired, managed_part(remote), ip),
{
    let c = changes(desired, remote, ip);
    lemma_changes_members(desired, remote, ip);
    assert forall|k: int| 0 <= k < c.len() implies exists|i: int|
        0 <= i < remote.len() && is_managed(#[trigger] remote[i]) && change_for(
            desired,
            remote[i],
            ip,
        ) == Some(#[trigger] c[k]) && action_id(c[k]) == Some(remote[i].record_id) by {
        let i = choose|i: int|
            0 <= i < remote.len() && change_for(desired, #[trigger] remote[i], ip) == Some(c[k]);
        assert(is_managed(remote[i]));
    }
    lemma_changes_of_managed_part(desired, remote, ip);
    lemma_creations_of_managed_part(desired, remote, ip);
}

proof fn lemma_changes_of_managed_part(
    desired: Seq<Seq<char>>,
    remote: Seq<RecordView>,
    ip: Seq<char>,
)
    ensures
        changes(desired, remote, ip) == changes(desired, managed_part(remote), ip),
    decreases remote.len(),
{
    reveal(Seq::filter);
    if remote.len() > 0 {
        let front = remote.drop_last();
        lemma_changes_of_managed_part(desired, front, ip);
        if is_managed(remote.last()) {
            let part = managed_part(remote);
            assert(part == managed_part(front).push(remote.last()));
            assert(part.drop_last() =~= managed_part(front));
        }
    }
}

proof fn lemma_creations_of_managed_part(
    desired: Seq<Seq<char>>,
    remote: Seq<RecordView>,
    ip: Seq<char>,
)
    ensures
        creations(desired, remote, ip) == creations(desired, managed_part(remote), ip),
    decreases desired.len(),
{
    if desired.len() > 0 {
        lemma_creations_of_managed_part(desired.drop_last(), remote, ip);
        let name = desired.last();
        let part = managed_part(remote);
        if has_managed(remote, name) {
            let i = choose|i: int|
                0 <= i < remote.len() && is_managed(#[trigger] remote[i]) && remote[i].name
                    == name;
            lemma_partition(remote, remote[i]);
            let j = choose|j: int| 0 <= j < part.len() && part[j] == remote[i];
            assert(is_managed(part[j]) && part[j].name == name);
        }
        if has_managed(part, name) {
            let j = choose|j: int|
                0 <= j < part.len() && is_managed(#[trigger] part[j]) && part[j].name == name;
            lemma_partition(remote, part[j]);
            let i = choose|i: int| 0 <= i < remote.len() && remote[i] == part[j];
            assert(is_managed(remote[i]) && remote[i].name == name);
        }
    }
}

/// The wanted names count as a set: two spellings of the same set give the
/// same updates and deletes and the same creates, each create once, whatever
/// the order and however often a name is given.
pub proof fn lemma_desired_is_a_set(
    first: Seq<Seq<char>>,
    second: Seq<Seq<char>>,
    remote: Seq<RecordView>,
    ip: Seq<char>,
)
    requires
        forall|name: Seq<char>| first.contains(name) <==> second.contains(name),
    ensures
        changes(first, remote, ip) == changes(second, remote, ip),
        forall|a: ActionView|
            creations(first, remote, ip).contains(a) <==> creations(second, remote, ip).contains(a),
        creations(first, remote, ip).no_duplicates(),
{
    lemma_changes_same_set(first, second, remote, ip);
    lemma_creations_members(first, remote, ip);
    lemma_creations_members(second, remote, ip);
    let a = creations(first, remote, ip);
    let b = creations(second, remote, ip);
    assert forall|x: ActionView| a.contains(x) <==> b.contains(x) by {
        if a.contains(x) {
            let k = choose|k: int| 0 <= k < a.len() && a[k] == x;
            let name = a[k]->Create_name;
            assert(second.contains(name));
            let n = choose|n: int| 0 <= n < second.len() && second[n] == name;
            assert(!has_managed(remote, second[n]));
        }
        if b.contains(x) {
            let k = choose|k: int| 0 <= k < b.len() && b[k] == x;
            let name = b[k]->Create_name;
            assert(first.contains(name));
            let n = choose|n: int| 0 <= n < first.len() && first[n] == name;
            assert(!has_managed(remote, first[n]));
        }
    }
    lemma_creations_once(first, remote, ip);
}

proof fn lemma_changes_same_set(
    first: Seq<Seq<char>>,
    second: Seq<Seq<char>>,
    remote: Seq<RecordView>,
    ip: Seq<char>,
)
    requires
        forall|name: Seq<char>| first.contains(name) <==> second.contains(name),
    ensures
        changes(first, remote, ip) == changes(second, remote, ip),
    decreases remote.len(),
{
    if remote.len() > 0 {
        lemma_changes_same_set(first, second, remote.drop_last(), ip);
    }
}

proof fn lemma_creations_once(desired: Seq<Seq<char>>, remote: Seq<RecordView>, ip: Seq<char>)
    ensures
        creations(desired, remote, ip).no_duplicates(),
    decreases desired.len(),
{
    if desired.len() > 0 {
        let front = desired.drop_last();
        lemma_creations_once(front, remote, ip);
        lemma_creations_members(front, remote, ip);
        let early = creations(front, remote, ip);
        let all = creations(desired, remote, ip);
        assert forall|i: int, j: int| 0 <= i < all.len() && 0 <= j < all.len() && i != j implies all[i]
            != all[j] by {
            if i < early.len() && j < early.len() {
                assert(early[i] != early[j]);
            } else if i < early.len() {
                assert(front.contains(early[i]->Create_name));
            } else {
                assert(front.contains(early[j]->Create_name));
            }
        }
    }
}

} // verus!
