//! What holds of every run of the pipeline, whatever the order of its steps.

use crate::extract::{extracted, page_fields, FieldMatchesView, SelectorRules};
use crate::model::{
    aggregate, delivered_bag, delivered_total, fetching, may_follow, total_records, Action,
    Failure, FailurePolicy, PipelineView, TaskState, Transition,
};
use crate::preservation::{
    lemma_aggregate_concat, lemma_apply_inv, lemma_delivered_all, lemma_delivered_includes,
    lemma_delivered_len, lemma_fetching_le_permits, lemma_fetching_zero, lemma_first_in,
    lemma_init_inv, lemma_permits_zero, lemma_steps_cancel, lemma_steps_update,
};
use crate::record::QuoteView;
use vstd::prelude::*;

verus! {

/// A run keeps the invariant.
pub proof fn lemma_run_inv(v: PipelineView, steps: Seq<Transition>)
    requires
        v.inv(),
    ensures
        v.run(steps).inv(),
    decreases steps.len(),
{
    if steps.len() > 0 {
        lemma_run_inv(v, steps.drop_last());
        lemma_apply_inv(v.run(steps.drop_last()), steps.last());
    }
}

/// Concurrency bound: in every state that a run reaches, whatever its steps
/// and their order, no more tasks are fetching than there are permits.
pub proof fn law_concurrency_bound(
    first_page: nat,
    pages: nat,
    limit: nat,
    policy: FailurePolicy,
    steps: Seq<Transition>,
)
    ensures
        fetching(PipelineView::init(first_page, pages, limit, policy).run(steps).tasks) <= limit,
{
    let start = PipelineView::init(first_page, pages, limit, policy);
    lemma_init_inv(first_page, pages, limit, policy);
    lemma_run_inv(start, steps);
    lemma_run_keeps_setup(start, steps);
    lemma_fetching_le_permits(start.run(steps).tasks);
}

/// No step changes the limit, the policy, the first page or the number of
/// tasks.
pub proof fn lemma_run_keeps_setup(v: PipelineView, steps: Seq<Transition>)
    requires
        v.batches.len() == v.tasks.len(),
    ensures
        v.run(steps).limit == v.limit,
        v.run(steps).policy == v.policy,
        v.run(steps).first_page == v.first_page,
        v.run(steps).tasks.len() == v.tasks.len(),
        v.run(steps).batches.len() == v.tasks.len(),
    decreases steps.len(),
{
    if steps.len() > 0 {
        lemma_run_keeps_setup(v, steps.drop_last());
    }
}

/// Extraction is a function of the markup and the rules: two extractions of
/// the same markup give equal records in equal order.
pub proof fn law_extraction_repeatable(
    markup: Seq<char>,
    rules: SelectorRules,
    first: Seq<QuoteView>,
    second: Seq<QuoteView>,
)
    requires
        first == extracted(markup, rules),
        second == extracted(markup, rules),
    ensures
        first == second,
{
}

/// The records of a page are as many as its well-formed containers.
pub proof fn law_one_record_per_well_formed_container(markup: Seq<char>, rules: SelectorRules)
    ensures
        extracted(markup, rules).len() == page_fields(markup, rules).filter(
            |m: FieldMatchesView| m.well_formed(),
        ).len(),
        extracted(markup, rules).len() <= page_fields(markup, rules).len(),
        (forall|k: int|
            0 <= k < page_fields(markup, rules).len() ==> (#[trigger] page_fields(
                markup,
                rules,
            )[k]).well_formed()) ==> extracted(markup, rules).len() == page_fields(
            markup,
            rules,
        ).len(),
{
    let found = page_fields(markup, rules);
    let keep = |m: FieldMatchesView| m.well_formed();
    found.lemma_filter_len(keep);
    if forall|k: int| 0 <= k < found.len() ==> (#[trigger] found[k]).well_formed() {
        lemma_filter_all(found, keep);
    }
}

/// A filter that every element passes keeps the sequence.
proof fn lemma_filter_all<A>(s: Seq<A>, keep: spec_fn(A) -> bool)
    requires
        forall|k: int| 0 <= k < s.len() ==> keep(#[trigger] s[k]),
    ensures
        s.filter(keep) == s,
    decreases s.len(),
{
    reveal(Seq::filter);
    if s.len() > 0 {
        assert forall|k: int| 0 <= k < s.drop_last().len() implies keep(
            #[trigger] s.drop_last()[k],
        ) by {
            assert(s.drop_last()[k] == s[k]);
        }
        lemma_filter_all(s.drop_last(), keep);
        assert(s.drop_last().push(s.last()) =~= s);
    } else {
        assert(s.filter(keep) =~= s);
    }
}

/// When the coordinator of a run with at least one permit says that the run
/// is done, every task has delivered or failed and the channel is drained.
pub proof fn law_done_means_finished(v: PipelineView)
    requires
        v.inv(),
        v.limit >= 1,
        v.tasks.len() <= usize::MAX,
        v.next_action() == Action::Done,
    ensures
        v.finished(),
{
    lemma_fetching_zero(v.tasks);
    lemma_permits_zero(v.tasks);
    lemma_first_in(v.tasks, TaskState::Parsing);
    lemma_first_in(v.tasks, TaskState::Scheduled);
    lemma_first_in(v.tasks, TaskState::WaitingForPermit);
    assert forall|i: int| 0 <= i < v.tasks.len() implies (#[trigger] v.tasks[i]).is_terminal() by {
        assert(!(v.tasks[i] is Fetching));
        assert(v.tasks[i] != TaskState::Parsing);
        assert(!v.tasks[i].holds_permit());
        if !v.cancelled {
            assert(v.tasks[i] != TaskState::Scheduled);
            assert(v.tasks[i] != TaskState::WaitingForPermit);
        }
    }
}

/// A step of a run in which nobody cancels and every fetch that succeeds
/// brings the records that the markup of its page holds under the rules.
pub open spec fn step_faithful(
    step: Transition,
    markups: Seq<Seq<char>>,
    rules: SelectorRules,
) -> bool {
    match step {
        Transition::Cancel => false,
        Transition::Fetched(i, Ok(records)) => i < markups.len() ==> records == extracted(
            markups[i as int],
            rules,
        ),
        _ => true,
    }
}

/// Every step is faithful to the markups of the pages.
pub open spec fn faithful(
    steps: Seq<Transition>,
    markups: Seq<Seq<char>>,
    rules: SelectorRules,
) -> bool {
    forall|k: int| 0 <= k < steps.len() ==> step_faithful(#[trigger] steps[k], markups, rules)
}

/// No step is the end of a fetch that failed.
pub open spec fn every_fetch_succeeds(steps: Seq<Transition>) -> bool {
    forall|k: int|
        0 <= k < steps.len() ==> !((#[trigger] steps[k]) matches Transition::Fetched(_, Err(_)))
}

/// The number of records that the pages hold.
pub open spec fn records_in(markups: Seq<Seq<char>>, rules: SelectorRules) -> nat
    decreases markups.len(),
{
    if markups.len() == 0 {
        0
    } else {
        records_in(markups.drop_last(), rules) + extracted(markups.last(), rules).len()
    }
}

/// The number of record containers that the pages hold.
pub open spec fn containers_in(markups: Seq<Seq<char>>, rules: SelectorRules) -> nat
    decreases markups.len(),
{
    if markups.len() == 0 {
        0
    } else {
        containers_in(markups.drop_last(), rules) + page_fields(markups.last(), rules).len()
    }
}

/// Every record container of the page is well formed.
pub open spec fn all_well_formed(markup: Seq<char>, rules: SelectorRules) -> bool {
    forall|k: int|
        0 <= k < page_fields(markup, rules).len() ==> (#[trigger] page_fields(
            markup,
            rules,
        )[k]).well_formed()
}

/// What holds along a graceful run that nobody cancels: a task fails only by
/// its own fetch, and the batch of a task that has parsed is what its page holds.
pub open spec fn graceful_state(
    v: PipelineView,
    markups: Seq<Seq<char>>,
    rules: SelectorRules,
) -> bool {
    &&& v.inv()
    &&& !v.cancelled
    &&& v.policy == FailurePolicy::Graceful
    &&& v.tasks.len() == markups.len()
    &&& forall|i: int|
        0 <= i < v.tasks.len() && (#[trigger] v.tasks[i]) is Failed ==> v.tasks[i].failed_by_fetch()
    &&& forall|i: int|
        0 <= i < v.tasks.len() && ((#[trigger] v.tasks[i]) is Parsing || v.tasks[i] is Delivered)
            ==> v.batches[i] == extracted(markups[i], rules)
}

/// No task has failed.
pub open spec fn none_failed(v: PipelineView) -> bool {
    forall|i: int| 0 <= i < v.tasks.len() ==> !((#[trigger] v.tasks[i]) is Failed)
}

proof fn lemma_graceful_step(
    v: PipelineView,
    markups: Seq<Seq<char>>,
    rules: SelectorRules,
    step: Transition,
)
    requires
        graceful_state(v, markups, rules),
        step_faithful(step, markups, rules),
    ensures
        graceful_state(v.apply(step), markups, rules),
        none_failed(v) && !(step matches Transition::Fetched(_, Err(_))) ==> none_failed(
            v.apply(step),
        ),
{
    lemma_apply_inv(v, step);
}

proof fn lemma_graceful_run(
    rules: SelectorRules,
    first_page: nat,
    limit: nat,
    markups: Seq<Seq<char>>,
    steps: Seq<Transition>,
)
    requires
        faithful(steps, markups, rules),
    ensures
        ({
            let end = PipelineView::init(
                first_page,
                markups.len(),
                limit,
                FailurePolicy::Graceful,
            ).run(steps);
            &&& graceful_state(end, markups, rules)
            &&& every_fetch_succeeds(steps) ==> none_failed(end)
        }),
    decreases steps.len(),
{
    let start = PipelineView::init(first_page, markups.len(), limit, FailurePolicy::Graceful);
    if steps.len() == 0 {
        lemma_init_inv(first_page, markups.len(), limit, FailurePolicy::Graceful);
    } else {
        let before = steps.drop_last();
        assert forall|k: int| 0 <= k < before.len() implies step_faithful(
            #[trigger] before[k],
            markups,
            rules,
        ) by {
            assert(before[k] == steps[k]);
        }
        if every_fetch_succeeds(steps) {
            assert forall|k: int| 0 <= k < before.len() implies !((
            #[trigger] before[k]) matches Transition::Fetched(_, Err(_))) by {
                assert(before[k] == steps[k]);
            }
        }
        lemma_graceful_run(rules, first_page, limit, markups, before);
        assert(step_faithful(steps[steps.len() - 1], markups, rules));
        lemma_graceful_step(start.run(before), markups, rules, steps.last());
    }
}

/// Where every task is delivered with the batch that its page holds, the
/// batches hold as many records as the pages.
proof fn lemma_total_records(
    batches: Seq<Seq<QuoteView>>,
    markups: Seq<Seq<char>>,
    rules: SelectorRules,
)
    requires
        batches.len() == markups.len(),
        forall|i: int| 0 <= i < batches.len() ==> batches[i] == extracted(markups[i], rules),
    ensures
        total_records(batches) == records_in(markups, rules),
    decreases batches.len(),
{
    if batches.len() > 0 {
        lemma_total_records(batches.drop_last(), markups.drop_last(), rules);
    }
}

/// Pages whose containers are all well formed hold as many records as containers.
proof fn lemma_records_are_containers(markups: Seq<Seq<char>>, rules: SelectorRules)
    requires
        forall|i: int| 0 <= i < markups.len() ==> all_well_formed(#[trigger] markups[i], rules),
    ensures
        records_in(markups, rules) == containers_in(markups, rules),
    decreases markups.len(),
{
    if markups.len() > 0 {
        assert forall|i: int| 0 <= i < markups.drop_last().len() implies all_well_formed(
            #[trigger] markups.drop_last()[i],
            rules,
        ) by {
            assert(markups.drop_last()[i] == markups[i]);
        }
        lemma_records_are_containers(markups.drop_last(), rules);
        assert(all_well_formed(markups[markups.len() - 1], rules));
        law_one_record_per_well_formed_container(markups.last(), rules);
    }
}

/// In a finished state the aggregated collection holds exactly the records
/// of the delivered tasks.
pub proof fn lemma_finished_collection(v: PipelineView)
    requires
        v.inv(),
        v.channel.len() == 0,
    ensures
        v.collected().to_multiset() == delivered_bag(v.tasks, v.batches),
        v.collected().len() == delivered_total(v.tasks, v.batches),
{
    assert(v.received + v.channel =~= v.received);
    lemma_delivered_len(v.tasks, v.batches);
    v.collected().to_multiset_ensures();
}

/// Completeness: in a graceful run that nobody cancels and in which every
/// fetch succeeds, once the run is finished the aggregated collection holds
/// as many records as all pages together, whatever the order of the steps.
/// Where every container of every page is well formed, that is the number of
/// record containers.
pub proof fn law_completeness(
    rules: SelectorRules,
    first_page: nat,
    limit: nat,
    markups: Seq<Seq<char>>,
    steps: Seq<Transition>,
)
    requires
        faithful(steps, markups, rules),
        every_fetch_succeeds(steps),
        PipelineView::init(first_page, markups.len(), limit, FailurePolicy::Graceful).run(
            steps,
        ).finished(),
    ensures
        PipelineView::init(first_page, markups.len(), limit, FailurePolicy::Graceful).run(
            steps,
        ).collected().len() == records_in(markups, rules),
        (forall|i: int| 0 <= i < markups.len() ==> all_well_formed(#[trigger] markups[i], rules))
            ==> PipelineView::init(first_page, markups.len(), limit, FailurePolicy::Graceful).run(
            steps,
        ).collected().len() == containers_in(markups, rules),
{
    let end = PipelineView::init(first_page, markups.len(), limit, FailurePolicy::Graceful).run(
        steps,
    );
    lemma_graceful_run(rules, first_page, limit, markups, steps);
    lemma_finished_collection(end);
    assert forall|i: int| 0 <= i < end.tasks.len() implies end.tasks[i] is Delivered by {
        assert(end.tasks[i].is_terminal());
    }
    lemma_delivered_all(end.tasks, end.batches);
    assert forall|i: int| 0 <= i < end.batches.len() implies end.batches[i] == extracted(
        markups[i],
        rules,
    ) by {
        assert(end.tasks[i] is Delivered);
    }
    lemma_total_records(end.batches, markups, rules);
    if forall|i: int| 0 <= i < markups.len() ==> all_well_formed(#[trigger] markups[i], rules) {
        lemma_records_are_containers(markups, rules);
    }
}

/// Partial-failure containment: in a graceful run that nobody cancels, once
/// the run is finished every page has either failed by its own fetch or
/// delivered, and the aggregated collection holds every record of every
/// delivered page, whatever became of the other pages.
pub proof fn law_partial_failure_containment(
    rules: SelectorRules,
    first_page: nat,
    limit: nat,
    markups: Seq<Seq<char>>,
    steps: Seq<Transition>,
    page: int,
)
    requires
        faithful(steps, markups, rules),
        PipelineView::init(first_page, markups.len(), limit, FailurePolicy::Graceful).run(
            steps,
        ).finished(),
        0 <= page < markups.len(),
    ensures
        ({
            let end = PipelineView::init(first_page, markups.len(), limit, FailurePolicy::Graceful).run(steps);
            if end.tasks[page] is Delivered {
                &&& extracted(markups[page], rules).to_multiset().subset_of(
                    end.collected().to_multiset(),
                )
                &&& forall|record: QuoteView|
                    extracted(markups[page], rules).contains(record) ==> end.collected().contains(
                        record,
                    )
            } else {
                end.tasks[page].failed_by_fetch()
            }
        }),
{
    let end = PipelineView::init(first_page, markups.len(), limit, FailurePolicy::Graceful).run(
        steps,
    );
    lemma_graceful_run(rules, first_page, limit, markups, steps);
    lemma_finished_collection(end);
    assert(end.tasks[page].is_terminal());
    if end.tasks[page] is Delivered {
        lemma_delivered_includes(end.tasks, end.batches, page);
        let own = extracted(markups[page], rules);
        own.to_multiset_ensures();
        end.collected().to_multiset_ensures();
        assert forall|record: QuoteView| own.contains(record) implies end.collected().contains(
            record,
        ) by {
            assert(own.to_multiset().count(record) > 0);
            assert(end.collected().to_multiset().count(record) > 0);
        }
    }
}

/// The steps of a drain: one receive per batch in the channel.
pub open spec fn receives(count: nat) -> Seq<Transition> {
    Seq::new(count, |k: int| Transition::Receive)
}

proof fn lemma_receives(v: PipelineView, count: nat)
    requires
        count <= v.channel.len(),
    ensures
        v.run(receives(count)) == (PipelineView {
            channel: v.channel.skip(count as int),
            received: v.received + v.channel.take(count as int),
            ..v
        }),
    decreases count,
{
    if count == 0 {
        assert(v.channel.skip(0) =~= v.channel);
        assert(v.received + v.channel.take(0) =~= v.received);
    } else {
        let before = (count - 1) as nat;
        assert(receives(count).drop_last() =~= receives(before));
        lemma_receives(v, before);
        let mid = v.run(receives(before));
        assert(mid.channel.drop_first() =~= v.channel.skip(count as int));
        assert(mid.received.push(mid.channel[0]) =~= v.received + v.channel.take(count as int));
    }
}

/// Shutdown drain: draining takes exactly one receive per batch that the
/// channel holds, so it ends. It appends the batches of the channel, oldest
/// first, to the collection, which then holds exactly the records of the
/// delivered tasks, each as often as it was delivered. Once every task is
/// terminal, the drained state is finished.
pub proof fn law_shutdown_drain(v: PipelineView)
    requires
        v.inv(),
    ensures
        v.drained() == v.run(receives(v.channel.len())),
        v.drained().inv(),
        v.drained().channel.len() == 0,
        v.drained().collected() == v.collected() + aggregate(v.channel, v.batches),
        v.drained().collected().to_multiset() == delivered_bag(v.tasks, v.batches),
        v.all_terminal() ==> v.drained().finished(),
{
    lemma_aggregate_concat(v.received, v.channel, v.batches);
    lemma_receives(v, v.channel.len());
    assert(v.channel.skip(v.channel.len() as int) =~= Seq::<usize>::empty());
    assert(v.channel.take(v.channel.len() as int) =~= v.channel);
    lemma_run_inv(v, receives(v.channel.len()));
    lemma_finished_collection(v.drained());
    assert(v.drained().tasks == v.tasks);
    if v.all_terminal() {
        assert forall|i: int| 0 <= i < v.drained().tasks.len() implies (
        #[trigger] v.drained().tasks[i]).is_terminal() by {
            assert(v.tasks[i].is_terminal());
        }
    }
}

/// Order within a task: a step leaves a task as it is or moves it forward,
/// so that its fetch comes before its parsing and its parsing before its
/// delivery, and a task that has delivered or failed stays so.
pub proof fn law_task_order(v: PipelineView, step: Transition, i: int)
    requires
        0 <= i < v.tasks.len(),
    ensures
        v.apply(step).tasks.len() == v.tasks.len(),
        v.apply(step).tasks[i] == v.tasks[i] || may_follow(v.tasks[i], v.apply(step).tasks[i]),
{
}

/// Progress: every step that is taken, but for a cancellation, brings the
/// run nearer to its end; a cancellation takes it no further away. So a run
/// of `pages` pages takes at most five steps per page besides cancellations.
pub proof fn law_every_step_descends(v: PipelineView, step: Transition)
    requires
        v.inv(),
        v.enabled(step),
    ensures
        v.apply(step).steps_left() <= v.steps_left(),
        !(step is Cancel) ==> v.apply(step).steps_left() < v.steps_left(),
{
    match step {
        Transition::Enqueue(i) => {
            lemma_steps_update(v.tasks, i as int, TaskState::WaitingForPermit);
        },
        Transition::Grant(i) => {
            lemma_steps_update(v.tasks, i as int, TaskState::Fetching);
        },
        Transition::Fetched(i, outcome) => {
            if v.cancelled {
                lemma_steps_update(v.tasks, i as int, TaskState::Failed(Failure::Cancelled));
            } else {
                match outcome {
                    Ok(records) => {
                        lemma_steps_update(v.tasks, i as int, TaskState::Parsing);
                    },
                    Err(error) => {
                        let state = TaskState::Failed(Failure::Fetch(error));
                        lemma_steps_update(v.tasks, i as int, state);
                        lemma_steps_cancel(v.tasks.update(i as int, state));
                    },
                }
            }
        },
        Transition::Deliver(i) => {
            if v.cancelled {
                lemma_steps_update(v.tasks, i as int, TaskState::Failed(Failure::ChannelClosed));
            } else {
                lemma_steps_update(v.tasks, i as int, TaskState::Delivered);
            }
        },
        Transition::Receive => {},
        Transition::Cancel => {
            lemma_steps_cancel(v.tasks);
        },
    }
}

/// The step that the coordinator of a run with at least one permit takes by
/// itself is enabled, so it brings the run nearer to its end.
pub proof fn law_own_step_descends(v: PipelineView)
    requires
        v.inv(),
        v.limit >= 1,
        v.tasks.len() <= usize::MAX,
        v.next_transition() is Some,
    ensures
        v.enabled(v.next_transition()->0),
        v.advance().steps_left() < v.steps_left(),
{
    lemma_first_in(v.tasks, TaskState::Parsing);
    lemma_first_in(v.tasks, TaskState::Scheduled);
    lemma_first_in(v.tasks, TaskState::WaitingForPermit);
    law_every_step_descends(v, v.next_transition()->0);
}

/// What holds along a fail-fast run: at most one task has failed by its
/// fetch, and if one has, the run is cancelled.
pub open spec fn fail_fast_state(v: PipelineView) -> bool {
    &&& v.inv()
    &&& v.policy == FailurePolicy::FailFast
    &&& forall|i: int, j: int|
        0 <= i < v.tasks.len() && 0 <= j < v.tasks.len() && (
        #[trigger] v.tasks[i]).failed_by_fetch() && (#[trigger] v.tasks[j]).failed_by_fetch()
            ==> i == j
    &&& forall|i: int|
        0 <= i < v.tasks.len() && (#[trigger] v.tasks[i]).failed_by_fetch() ==> v.cancelled
}

proof fn lemma_fail_fast_step(v: PipelineView, step: Transition)
    requires
        fail_fast_state(v),
    ensures
        fail_fast_state(v.apply(step)),
{
    lemma_apply_inv(v, step);
}

/// Fail fast: in a run under the fail-fast policy at most one page fails by
/// its fetch, whatever the steps and their order, and the run is cancelled
/// from then on.
pub proof fn law_fail_fast_single_failure(
    first_page: nat,
    pages: nat,
    limit: nat,
    steps: Seq<Transition>,
)
    ensures
        fail_fast_state(
            PipelineView::init(first_page, pages, limit, FailurePolicy::FailFast).run(steps),
        ),
    decreases steps.len(),
{
    let start = PipelineView::init(first_page, pages, limit, FailurePolicy::FailFast);
    if steps.len() == 0 {
        lemma_init_inv(first_page, pages, limit, FailurePolicy::FailFast);
    } else {
        law_fail_fast_single_failure(first_page, pages, limit, steps.drop_last());
        lemma_fail_fast_step(start.run(steps.drop_last()), steps.last());
    }
}

} // verus!
