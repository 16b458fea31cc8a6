//! The invariant of the pipeline holds of the first state and is kept by
//! every step, with the lemmas on counting permits and records that the
//! proof needs.

use crate::model::{
    aggregate, cancel_all, delivered_bag, delivered_total, fetching, first_fetch_failure, first_in,
    permits_held, steps_left, task_steps_left, total_records, FailurePolicy, PipelineView,
    TaskState, Transition,
};
use crate::record::QuoteView;
use vstd::multiset::Multiset;
use vstd::prelude::*;
use vstd::seq_lib::lemma_multiset_commutative;

verus! {

/// Changing one task changes the number of held permits by what that task
/// holds before and after.
pub proof fn lemma_permits_update(tasks: Seq<TaskState>, i: int, state: TaskState)
    requires
        0 <= i < tasks.len(),
    ensures
        permits_held(tasks.update(i, state)) + (if tasks[i].holds_permit() {
            1nat
        } else {
            0nat
        }) == permits_held(tasks) + (if state.holds_permit() {
            1nat
        } else {
            0nat
        }),
    decreases tasks.len(),
{
    let updated = tasks.update(i, state);
    if i == tasks.len() - 1 {
        assert(updated.drop_last() =~= tasks.drop_last());
    } else {
        assert(updated.drop_last() =~= tasks.drop_last().update(i, state));
        lemma_permits_update(tasks.drop_last(), i, state);
    }
}

/// Two task lists that agree on who holds a permit hold equally many.
pub proof fn lemma_permits_pointwise(a: Seq<TaskState>, b: Seq<TaskState>)
    requires
        a.len() == b.len(),
        forall|i: int| 0 <= i < a.len() ==> a[i].holds_permit() == b[i].holds_permit(),
    ensures
        permits_held(a) == permits_held(b),
    decreases a.len(),
{
    if a.len() > 0 {
        lemma_permits_pointwise(a.drop_last(), b.drop_last());
    }
}

/// Every fetching task holds a permit.
pub proof fn lemma_fetching_le_permits(tasks: Seq<TaskState>)
    ensures
        fetching(tasks) <= permits_held(tasks) <= tasks.len(),
    decreases tasks.len(),
{
    if tasks.len() > 0 {
        lemma_fetching_le_permits(tasks.drop_last());
    }
}

/// Where no task holds a permit, none is held; and where none is held, no
/// task holds one.
pub proof fn lemma_permits_zero(tasks: Seq<TaskState>)
    ensures
        permits_held(tasks) == 0 <==> forall|i: int|
            0 <= i < tasks.len() ==> !(#[trigger] tasks[i]).holds_permit(),
    decreases tasks.len(),
{
    if tasks.len() > 0 {
        lemma_permits_zero(tasks.drop_last());
        if permits_held(tasks) == 0 {
            assert forall|i: int| 0 <= i < tasks.len() implies !(#[trigger] tasks[i]).holds_permit() by {
                if i < tasks.len() - 1 {
                    assert(tasks.drop_last()[i] == tasks[i]);
                }
            }
        } else {
            if forall|i: int| 0 <= i < tasks.len() ==> !(#[trigger] tasks[i]).holds_permit() {
                assert forall|i: int| 0 <= i < tasks.drop_last().len() implies !(
                #[trigger] tasks.drop_last()[i]).holds_permit() by {
                    assert(tasks.drop_last()[i] == tasks[i]);
                }
                assert(!tasks.last().holds_permit());
                assert(false);
            }
        }
    }
}

/// Where no task is fetching, none is counted; and the other way round.
pub proof fn lemma_fetching_zero(tasks: Seq<TaskState>)
    ensures
        fetching(tasks) == 0 <==> forall|i: int|
            0 <= i < tasks.len() ==> !((#[trigger] tasks[i]) is Fetching),
    decreases tasks.len(),
{
    if tasks.len() > 0 {
        lemma_fetching_zero(tasks.drop_last());
        if fetching(tasks) == 0 {
            assert forall|i: int| 0 <= i < tasks.len() implies !((#[trigger] tasks[i]) is Fetching) by {
                if i < tasks.len() - 1 {
                    assert(tasks.drop_last()[i] == tasks[i]);
                }
            }
        } else {
            if forall|i: int| 0 <= i < tasks.len() ==> !((#[trigger] tasks[i]) is Fetching) {
                assert forall|i: int| 0 <= i < tasks.drop_last().len() implies !((
                #[trigger] tasks.drop_last()[i]) is Fetching) by {
                    assert(tasks.drop_last()[i] == tasks[i]);
                }
                assert(!(tasks.last() is Fetching));
                assert(false);
            }
        }
    }
}

/// What `first_in` finds is in the wanted state and no earlier task is; where
/// it finds nothing, no task is in the wanted state.
pub proof fn lemma_first_in(tasks: Seq<TaskState>, wanted: TaskState)
    requires
        tasks.len() <= usize::MAX,
    ensures
        match first_in(tasks, wanted) {
            Some(i) => i < tasks.len() && tasks[i as int] == wanted && forall|j: int|
                0 <= j < i ==> tasks[j] != wanted,
            None => forall|j: int| 0 <= j < tasks.len() ==> tasks[j] != wanted,
        },
    decreases tasks.len(),
{
    if tasks.len() > 0 {
        lemma_first_in(tasks.drop_last(), wanted);
        match first_in(tasks.drop_last(), wanted) {
            Some(i) => {
                assert forall|j: int| 0 <= j < i implies tasks[j] != wanted by {
                    assert(tasks.drop_last()[j] == tasks[j]);
                }
                assert(tasks.drop_last()[i as int] == tasks[i as int]);
            },
            None => {
                assert forall|j: int| 0 <= j < tasks.len() - 1 implies tasks[j] != wanted by {
                    assert(tasks.drop_last()[j] == tasks[j]);
                }
            },
        }
    }
}

/// A failed fetch found among the first tasks is the one found among all.
pub proof fn lemma_first_failure_prefix(tasks: Seq<TaskState>, first_page: nat, k: int)
    requires
        0 <= k <= tasks.len(),
        first_fetch_failure(tasks.take(k), first_page) is Some,
    ensures
        first_fetch_failure(tasks, first_page) == first_fetch_failure(tasks.take(k), first_page),
    decreases tasks.len(),
{
    if k == tasks.len() {
        assert(tasks.take(k) =~= tasks);
    } else {
        assert(tasks.drop_last().take(k) =~= tasks.take(k));
        lemma_first_failure_prefix(tasks.drop_last(), first_page, k);
    }
}

/// The records of the delivered tasks depend only on which tasks are
/// delivered and on their batches.
pub proof fn lemma_delivered_pointwise(
    a: Seq<TaskState>,
    a_batches: Seq<Seq<QuoteView>>,
    b: Seq<TaskState>,
    b_batches: Seq<Seq<QuoteView>>,
)
    requires
        a.len() == b.len(),
        forall|i: int| 0 <= i < a.len() ==> (a[i] is Delivered) == (b[i] is Delivered),
        forall|i: int| 0 <= i < a.len() && a[i] is Delivered ==> a_batches[i] == b_batches[i],
    ensures
        delivered_bag(a, a_batches) == delivered_bag(b, b_batches),
        delivered_total(a, a_batches) == delivered_total(b, b_batches),
    decreases a.len(),
{
    if a.len() > 0 {
        lemma_delivered_pointwise(a.drop_last(), a_batches, b.drop_last(), b_batches);
    }
}

/// A task that becomes delivered adds its batch to the delivered records.
pub proof fn lemma_delivered_update(tasks: Seq<TaskState>, batches: Seq<Seq<QuoteView>>, i: int)
    requires
        0 <= i < tasks.len(),
        !(tasks[i] is Delivered),
    ensures
        delivered_bag(tasks.update(i, TaskState::Delivered), batches) == delivered_bag(
            tasks,
            batches,
        ).add(batches[i].to_multiset()),
        delivered_total(tasks.update(i, TaskState::Delivered), batches) == delivered_total(
            tasks,
            batches,
        ) + batches[i].len(),
    decreases tasks.len(),
{
    broadcast use vstd::multiset::group_multiset_axioms;

    let updated = tasks.update(i, TaskState::Delivered);
    if i == tasks.len() - 1 {
        assert(updated.drop_last() =~= tasks.drop_last());
    } else {
        assert(updated.drop_last() =~= tasks.drop_last().update(i, TaskState::Delivered));
        lemma_delivered_update(tasks.drop_last(), batches, i);
        let rest = delivered_bag(tasks.drop_last(), batches);
        let own = batches[i].to_multiset();
        let last = batches[tasks.len() - 1].to_multiset();
        assert(rest.add(own).add(last) =~= rest.add(last).add(own));
    }
}

/// The delivered records are as many as the batches of the delivered tasks hold.
pub proof fn lemma_delivered_len(tasks: Seq<TaskState>, batches: Seq<Seq<QuoteView>>)
    ensures
        delivered_bag(tasks, batches).len() == delivered_total(tasks, batches),
    decreases tasks.len(),
{
    broadcast use vstd::multiset::group_multiset_axioms;

    if tasks.len() > 0 {
        lemma_delivered_len(tasks.drop_last(), batches);
        batches[tasks.len() - 1].to_multiset_ensures();
    }
}

/// The batch of a delivered task is among the delivered records.
pub proof fn lemma_delivered_includes(tasks: Seq<TaskState>, batches: Seq<Seq<QuoteView>>, k: int)
    requires
        0 <= k < tasks.len(),
        tasks[k] is Delivered,
    ensures
        batches[k].to_multiset().subset_of(delivered_bag(tasks, batches)),
    decreases tasks.len(),
{
    broadcast use vstd::multiset::group_multiset_axioms;

    if k < tasks.len() - 1 {
        lemma_delivered_includes(tasks.drop_last(), batches, k);
    }
}

/// The aggregate depends only on the batches of the tasks in the order.
pub proof fn lemma_aggregate_pointwise(
    order: Seq<usize>,
    a_batches: Seq<Seq<QuoteView>>,
    b_batches: Seq<Seq<QuoteView>>,
)
    requires
        forall|k: int|
            0 <= k < order.len() ==> a_batches[(#[trigger] order[k]) as int] == b_batches[order[k] as int],
    ensures
        aggregate(order, a_batches) == aggregate(order, b_batches),
    decreases order.len(),
{
    if order.len() > 0 {
        assert forall|k: int| 0 <= k < order.drop_last().len() implies a_batches[(
        #[trigger] order.drop_last()[k]) as int] == b_batches[order.drop_last()[k] as int] by {
            assert(order.drop_last()[k] == order[k]);
        }
        lemma_aggregate_pointwise(order.drop_last(), a_batches, b_batches);
    }
}

/// A task appended to the order appends its batch to the aggregate.
pub proof fn lemma_aggregate_push(order: Seq<usize>, batches: Seq<Seq<QuoteView>>, i: usize)
    ensures
        aggregate(order.push(i), batches) == aggregate(order, batches) + batches[i as int],
        aggregate(order.push(i), batches).to_multiset() == aggregate(
            order,
            batches,
        ).to_multiset().add(batches[i as int].to_multiset()),
{
    assert(order.push(i).drop_last() =~= order);
    lemma_multiset_commutative(aggregate(order, batches), batches[i as int]);
}

/// The aggregate of two orders in a row is the two aggregates in a row.
pub proof fn lemma_aggregate_concat(
    first: Seq<usize>,
    second: Seq<usize>,
    batches: Seq<Seq<QuoteView>>,
)
    ensures
        aggregate(first + second, batches) == aggregate(first, batches) + aggregate(second, batches),
    decreases second.len(),
{
    if second.len() == 0 {
        assert(first + second =~= first);
        assert(aggregate(first, batches) + aggregate(second, batches) =~= aggregate(first, batches));
    } else {
        assert((first + second).drop_last() =~= first + second.drop_last());
        lemma_aggregate_concat(first, second.drop_last(), batches);
        assert(aggregate(first + second, batches) =~= aggregate(first, batches) + aggregate(
            second,
            batches,
        ));
    }
}

/// Changing one task changes the steps that are left by what that task has
/// left before and after.
pub proof fn lemma_steps_update(tasks: Seq<TaskState>, i: int, state: TaskState)
    requires
        0 <= i < tasks.len(),
    ensures
        task_steps_left(tasks.update(i, state)) + steps_left(tasks[i]) == task_steps_left(tasks)
            + steps_left(state),
    decreases tasks.len(),
{
    let updated = tasks.update(i, state);
    if i == tasks.len() - 1 {
        assert(updated.drop_last() =~= tasks.drop_last());
    } else {
        assert(updated.drop_last() =~= tasks.drop_last().update(i, state));
        lemma_steps_update(tasks.drop_last(), i, state);
    }
}

/// Cancellation leaves no task more steps than it had.
pub proof fn lemma_steps_cancel(tasks: Seq<TaskState>)
    ensures
        task_steps_left(cancel_all(tasks)) <= task_steps_left(tasks),
    decreases tasks.len(),
{
    if tasks.len() > 0 {
        assert(cancel_all(tasks).drop_last() =~= cancel_all(tasks.drop_last()));
        lemma_steps_cancel(tasks.drop_last());
    }
}

/// Where no task is delivered, there are no delivered records.
pub proof fn lemma_delivered_none(tasks: Seq<TaskState>, batches: Seq<Seq<QuoteView>>)
    requires
        forall|i: int| 0 <= i < tasks.len() ==> !(tasks[i] is Delivered),
    ensures
        delivered_bag(tasks, batches) == Multiset::<QuoteView>::empty(),
        delivered_total(tasks, batches) == 0,
    decreases tasks.len(),
{
    if tasks.len() > 0 {
        lemma_delivered_none(tasks.drop_last(), batches);
    }
}

/// Where every task is delivered, the delivered records are as many as all
/// batches hold.
pub proof fn lemma_delivered_all(tasks: Seq<TaskState>, batches: Seq<Seq<QuoteView>>)
    requires
        batches.len() == tasks.len(),
        forall|i: int| 0 <= i < tasks.len() ==> tasks[i] is Delivered,
    ensures
        delivered_total(tasks, batches) == total_records(batches),
    decreases tasks.len(),
{
    if tasks.len() > 0 {
        lemma_delivered_all(tasks.drop_last(), batches.drop_last());
        lemma_delivered_pointwise(tasks.drop_last(), batches, tasks.drop_last(), batches.drop_last());
    }
}

/// The initial state meets the invariant.
pub proof fn lemma_init_inv(first_page: nat, pages: nat, limit: nat, policy: FailurePolicy)
    ensures
        PipelineView::init(first_page, pages, limit, policy).inv(),
{
    broadcast use vstd::multiset::group_multiset_axioms;

    let v = PipelineView::init(first_page, pages, limit, policy);
    lemma_permits_zero(v.tasks);
    lemma_delivered_none(v.tasks, v.batches);
    assert(v.received + v.channel =~= Seq::<usize>::empty());
    Seq::<QuoteView>::empty().to_multiset_ensures();
    assert(aggregate(v.received + v.channel, v.batches).to_multiset()
        =~= Multiset::<QuoteView>::empty());
}

/// Moving one task between states that are not `Delivered` keeps the
/// invariant, as long as the permits still suffice.
proof fn lemma_with_task_inv(v: PipelineView, i: usize, state: TaskState)
    requires
        v.inv(),
        i < v.tasks.len(),
        !(v.tasks[i as int] is Delivered),
        !(state is Delivered),
        permits_held(v.tasks.update(i as int, state)) <= v.limit,
        v.cancelled ==> !(state is Scheduled) && !(state is WaitingForPermit),
    ensures
        v.with_task(i, state).inv(),
{
    let w = v.with_task(i, state);
    lemma_delivered_pointwise(v.tasks, v.batches, w.tasks, w.batches);
}

/// Cancellation keeps the invariant.
proof fn lemma_cancel_inv(v: PipelineView)
    requires
        v.inv(),
    ensures
        v.cancel().inv(),
{
    let w = v.cancel();
    assert(w.tasks.len() == v.tasks.len());
    lemma_permits_pointwise(v.tasks, w.tasks);
    lemma_delivered_pointwise(v.tasks, v.batches, w.tasks, w.batches);
}

/// Every step keeps the invariant.
pub proof fn lemma_apply_inv(v: PipelineView, step: Transition)
    requires
        v.inv(),
    ensures
        v.apply(step).inv(),
{
    if v.enabled(step) {
        match step {
            Transition::Enqueue(i) => {
                lemma_permits_update(v.tasks, i as int, TaskState::WaitingForPermit);
                lemma_with_task_inv(v, i, TaskState::WaitingForPermit);
            },
            Transition::Grant(i) => {
                lemma_permits_update(v.tasks, i as int, TaskState::Fetching);
                lemma_with_task_inv(v, i, TaskState::Fetching);
            },
            Transition::Fetched(i, outcome) => {
                if v.cancelled {
                    let state = TaskState::Failed(crate::model::Failure::Cancelled);
                    lemma_permits_update(v.tasks, i as int, state);
                    lemma_with_task_inv(v, i, state);
                } else {
                    match outcome {
                        Ok(records) => {
                            lemma_permits_update(v.tasks, i as int, TaskState::Parsing);
                            lemma_with_task_inv(v, i, TaskState::Parsing);
                            let mid = v.with_task(i, TaskState::Parsing);
                            let w = v.apply(step);
                            lemma_aggregate_pointwise(mid.received + mid.channel, mid.batches, w.batches);
                            lemma_delivered_pointwise(mid.tasks, mid.batches, w.tasks, w.batches);
                        },
                        Err(error) => {
                            let state = TaskState::Failed(crate::model::Failure::Fetch(error));
                            lemma_permits_update(v.tasks, i as int, state);
                            lemma_with_task_inv(v, i, state);
                            lemma_cancel_inv(v.with_task(i, state));
                        },
                    }
                }
            },
            Transition::Deliver(i) => {
                if v.cancelled {
                    let state = TaskState::Failed(crate::model::Failure::ChannelClosed);
                    lemma_permits_update(v.tasks, i as int, state);
                    lemma_with_task_inv(v, i, state);
                } else {
                    let w = v.apply(step);
                    lemma_permits_update(v.tasks, i as int, TaskState::Delivered);
                    lemma_delivered_update(v.tasks, v.batches, i as int);
                    assert(w.received + w.channel =~= (v.received + v.channel).push(i));
                    lemma_aggregate_push(v.received + v.channel, v.batches, i);
                }
            },
            Transition::Receive => {
                let w = v.apply(step);
                assert(w.received + w.channel =~= v.received + v.channel);
            },
            Transition::Cancel => {
                lemma_cancel_inv(v);
            },
        }
    }
}

} // verus!
