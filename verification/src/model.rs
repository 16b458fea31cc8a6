//! The pipeline as a state machine over mathematical values.
//!
//! One task exists per page. A task is scheduled, waits for a permit, fetches
//! its page while holding the permit, parses the markup, and delivers its
//! records to the collector channel, giving the permit back; or it fails and
//! gives the permit back. The consumer receives the batches from the channel
//! in arrival order. The steps may interleave in any order: a run is any
//! sequence of steps, and a step that is not enabled changes nothing.

use crate::fetch::FetchError;
use crate::record::QuoteView;
use vstd::multiset::Multiset;
use vstd::prelude::*;

verus! {

/// What a failed fetch does to the rest of the run.
#[derive(Debug, Clone, Copy, PartialEq, Eq, Structural)]
pub enum FailurePolicy {
    /// The failed page contributes no records; the other pages go on.
    Graceful,
    /// The first failed fetch cancels the run.
    FailFast,
}

/// Why a task ended without delivering.
#[derive(Debug, Clone, Copy, PartialEq, Eq, Structural)]
pub enum Failure {
    /// The page could not be fetched.
    Fetch(FetchError),
    /// The run was cancelled before the task had its markup.
    Cancelled,
    /// The run was cancelled while the task held records to send.
    ChannelClosed,
}

/// The state of one page task.
#[derive(Debug, Clone, Copy, PartialEq, Eq, Structural)]
pub enum TaskState {
    Scheduled,
    WaitingForPermit,
    Fetching,
    Parsing,
    Delivered,
    Failed(Failure),
}

impl TaskState {
    /// A task holds a permit from the start of its fetch until it has
    /// delivered or failed.
    pub open spec fn holds_permit(self) -> bool {
        self is Fetching || self is Parsing
    }

    /// The task failed because its page could not be fetched.
    pub open spec fn failed_by_fetch(self) -> bool {
        self matches TaskState::Failed(Failure::Fetch(_))
    }

    /// A terminal state is never left.
    pub open spec fn is_terminal(self) -> bool {
        self is Delivered || self is Failed
    }

    /// What cancellation makes of a task: one that has no permit yet never
    /// gets one.
    pub open spec fn after_cancel(self) -> TaskState {
        if self is Scheduled || self is WaitingForPermit {
            TaskState::Failed(Failure::Cancelled)
        } else {
            self
        }
    }
}

/// Whether a task may go from one state to another in one step: from
/// scheduled to waiting, to fetching, to parsing, to delivered, or from any
/// state before delivered to failed. A terminal state is never left.
pub open spec fn may_follow(before: TaskState, after: TaskState) -> bool {
    match before {
        TaskState::Scheduled => after is WaitingForPermit || after == TaskState::Failed(
            Failure::Cancelled,
        ),
        TaskState::WaitingForPermit => after is Fetching || after == TaskState::Failed(
            Failure::Cancelled,
        ),
        TaskState::Fetching => after is Parsing || after == TaskState::Failed(Failure::Cancelled)
            || after.failed_by_fetch(),
        TaskState::Parsing => after is Delivered || after == TaskState::Failed(
            Failure::ChannelClosed,
        ),
        TaskState::Delivered => false,
        TaskState::Failed(_) => false,
    }
}

/// How many steps a task in this state can still take, counting the receipt
/// of its batch.
pub open spec fn steps_left(state: TaskState) -> nat {
    match state {
        TaskState::Scheduled => 5,
        TaskState::WaitingForPermit => 4,
        TaskState::Fetching => 3,
        TaskState::Parsing => 2,
        TaskState::Delivered => 0,
        TaskState::Failed(_) => 0,
    }
}

/// How many steps the tasks can still take, not counting batches in the channel.
pub open spec fn task_steps_left(tasks: Seq<TaskState>) -> nat
    decreases tasks.len(),
{
    if tasks.len() == 0 {
        0
    } else {
        task_steps_left(tasks.drop_last()) + steps_left(tasks.last())
    }
}

/// The number of tasks that hold a permit.
pub open spec fn permits_held(tasks: Seq<TaskState>) -> nat
    decreases tasks.len(),
{
    if tasks.len() == 0 {
        0
    } else {
        permits_held(tasks.drop_last()) + if tasks.last().holds_permit() {
            1nat
        } else {
            0nat
        }
    }
}

/// The number of tasks that are fetching.
pub open spec fn fetching(tasks: Seq<TaskState>) -> nat
    decreases tasks.len(),
{
    if tasks.len() == 0 {
        0
    } else {
        fetching(tasks.drop_last()) + if tasks.last() is Fetching {
            1nat
        } else {
            0nat
        }
    }
}

/// The records of all delivered tasks, without order.
pub open spec fn delivered_bag(tasks: Seq<TaskState>, batches: Seq<Seq<QuoteView>>) -> Multiset<
    QuoteView,
>
    decreases tasks.len(),
{
    if tasks.len() == 0 {
        Multiset::empty()
    } else {
        let rest = delivered_bag(tasks.drop_last(), batches);
        if tasks.last() is Delivered {
            rest.add(batches[tasks.len() - 1].to_multiset())
        } else {
            rest
        }
    }
}

/// The number of records of all delivered tasks.
pub open spec fn delivered_total(tasks: Seq<TaskState>, batches: Seq<Seq<QuoteView>>) -> nat
    decreases tasks.len(),
{
    if tasks.len() == 0 {
        0
    } else {
        let rest = delivered_total(tasks.drop_last(), batches);
        if tasks.last() is Delivered {
            rest + batches[tasks.len() - 1].len()
        } else {
            rest
        }
    }
}

/// The number of records of all tasks.
pub open spec fn total_records(batches: Seq<Seq<QuoteView>>) -> nat
    decreases batches.len(),
{
    if batches.len() == 0 {
        0
    } else {
        total_records(batches.drop_last()) + batches.last().len()
    }
}

/// The batches of the given tasks, concatenated in the given order.
pub open spec fn aggregate(order: Seq<usize>, batches: Seq<Seq<QuoteView>>) -> Seq<QuoteView>
    decreases order.len(),
{
    if order.len() == 0 {
        Seq::empty()
    } else {
        aggregate(order.drop_last(), batches) + batches[order.last() as int]
    }
}

/// What cancellation makes of all tasks.
pub open spec fn cancel_all(tasks: Seq<TaskState>) -> Seq<TaskState> {
    tasks.map_values(|t: TaskState| t.after_cancel())
}

/// The lowest index of a task in the wanted state.
pub open spec fn first_in(tasks: Seq<TaskState>, wanted: TaskState) -> Option<usize>
    decreases tasks.len(),
{
    if tasks.len() == 0 {
        None
    } else {
        match first_in(tasks.drop_last(), wanted) {
            Some(i) => Some(i),
            None => if tasks.last() == wanted {
                Some((tasks.len() - 1) as usize)
            } else {
                None
            },
        }
    }
}

/// A page that could not be fetched, and why.
#[derive(Debug, Clone, Copy, PartialEq, Eq, Structural)]
pub struct PageFailure {
    pub page: usize,
    pub error: FetchError,
}

/// The pages that could not be fetched, with their errors, by rising page
/// index. A task that ended by cancellation is not among them.
pub open spec fn failures_of(tasks: Seq<TaskState>, first_page: nat) -> Seq<PageFailure>
    decreases tasks.len(),
{
    if tasks.len() == 0 {
        Seq::empty()
    } else {
        let rest = failures_of(tasks.drop_last(), first_page);
        match tasks.last() {
            TaskState::Failed(Failure::Fetch(error)) => rest.push(
                PageFailure { page: (first_page + tasks.len() - 1) as usize, error },
            ),
            _ => rest,
        }
    }
}

/// The failed fetch with the lowest page index, if any fetch failed.
pub open spec fn first_fetch_failure(tasks: Seq<TaskState>, first_page: nat) -> Option<PageFailure>
    decreases tasks.len(),
{
    if tasks.len() == 0 {
        None
    } else {
        match first_fetch_failure(tasks.drop_last(), first_page) {
            Some(found) => Some(found),
            None => match tasks.last() {
                TaskState::Failed(Failure::Fetch(error)) => Some(
                    PageFailure { page: (first_page + tasks.len() - 1) as usize, error },
                ),
                _ => None,
            },
        }
    }
}

/// What the caller of the coordinator does next.
#[derive(Debug, Clone, Copy, PartialEq, Eq, Structural)]
pub enum Action {
    /// Nothing: the coordinator took a step of its own. Ask again.
    Continue,
    /// Start the fetch of this page, and ask again.
    Fetch { page: usize },
    /// Wait for a fetch to end and report it.
    Wait,
    /// The run is finished.
    Done,
}

/// One step of the pipeline.
pub enum Transition {
    /// A scheduled task starts to wait for a permit.
    Enqueue(usize),
    /// A waiting task gets a permit and starts its fetch.
    Grant(usize),
    /// The fetch of a task ends: with the records extracted from the page's
    /// markup, or with a failure.
    Fetched(usize, Result<Seq<QuoteView>, FetchError>),
    /// A task that has parsed its page sends its records and gives its permit back.
    Deliver(usize),
    /// The consumer receives the oldest batch in the channel.
    Receive,
    /// The run is cancelled.
    Cancel,
}

/// The state of the whole pipeline.
pub struct PipelineView {
    /// The number of permits, which is also the capacity of the channel.
    pub limit: nat,
    pub policy: FailurePolicy,
    /// The page index of task 0; task `i` fetches page `first_page + i`.
    pub first_page: nat,
    pub tasks: Seq<TaskState>,
    /// Per task, the records extracted from its page; empty until it has parsed.
    pub batches: Seq<Seq<QuoteView>>,
    /// The tasks whose batches are in the channel, oldest first.
    pub channel: Seq<usize>,
    /// The tasks whose batches the consumer has received, in arrival order.
    pub received: Seq<usize>,
    pub cancelled: bool,
}

impl PipelineView {
    /// The state before any step: every task scheduled, nothing sent.
    pub open spec fn init(
        first_page: nat,
        pages: nat,
        limit: nat,
        policy: FailurePolicy,
    ) -> PipelineView {
        PipelineView {
            limit,
            policy,
            first_page,
            tasks: Seq::new(pages, |i: int| TaskState::Scheduled),
            batches: Seq::new(pages, |i: int| Seq::<QuoteView>::empty()),
            channel: Seq::empty(),
            received: Seq::empty(),
            cancelled: false,
        }
    }

    /// The aggregated collection: the received batches in arrival order.
    pub open spec fn collected(self) -> Seq<QuoteView> {
        aggregate(self.received, self.batches)
    }

    /// Every task has delivered or failed.
    pub open spec fn all_terminal(self) -> bool {
        forall|i: int| 0 <= i < self.tasks.len() ==> (#[trigger] self.tasks[i]).is_terminal()
    }

    /// Every task is terminal and the channel is drained.
    pub open spec fn finished(self) -> bool {
        self.all_terminal() && self.channel.len() == 0
    }

    /// Whether a step can be taken.
    pub open spec fn enabled(self, step: Transition) -> bool {
        match step {
            Transition::Enqueue(i) => {
                &&& i < self.tasks.len()
                &&& self.tasks[i as int] is Scheduled
                &&& !self.cancelled
            },
            Transition::Grant(i) => {
                &&& i < self.tasks.len()
                &&& self.tasks[i as int] is WaitingForPermit
                &&& !self.cancelled
                &&& permits_held(self.tasks) < self.limit
            },
            Transition::Fetched(i, _) => {
                &&& i < self.tasks.len()
                &&& self.tasks[i as int] is Fetching
            },
            Transition::Deliver(i) => {
                &&& i < self.tasks.len()
                &&& self.tasks[i as int] is Parsing
                &&& (self.cancelled || self.channel.len() < self.limit)
            },
            Transition::Receive => self.channel.len() > 0,
            Transition::Cancel => true,
        }
    }

    /// The state with one task in a new state.
    pub open spec fn with_task(self, i: usize, state: TaskState) -> PipelineView {
        PipelineView { tasks: self.tasks.update(i as int, state), ..self }
    }

    /// The state after cancellation: no new permit is granted, and the tasks
    /// that have none yet fail.
    pub open spec fn cancel(self) -> PipelineView {
        PipelineView {
            tasks: cancel_all(self.tasks),
            cancelled: true,
            ..self
        }
    }

    /// The state after a step. A step that is not enabled changes nothing.
    pub open spec fn apply(self, step: Transition) -> PipelineView {
        if !self.enabled(step) {
            self
        } else {
            match step {
                Transition::Enqueue(i) => self.with_task(i, TaskState::WaitingForPermit),
                Transition::Grant(i) => self.with_task(i, TaskState::Fetching),
                Transition::Fetched(i, outcome) => {
                    if self.cancelled {
                        self.with_task(i, TaskState::Failed(Failure::Cancelled))
                    } else {
                        match outcome {
                            Ok(records) => PipelineView {
                                batches: self.batches.update(i as int, records),
                                ..self.with_task(i, TaskState::Parsing)
                            },
                            Err(error) => {
                                let failed = self.with_task(
                                    i,
                                    TaskState::Failed(Failure::Fetch(error)),
                                );
                                if self.policy == FailurePolicy::FailFast {
                                    failed.cancel()
                                } else {
                                    failed
                                }
                            },
                        }
                    }
                },
                Transition::Deliver(i) => {
                    if self.cancelled {
                        self.with_task(i, TaskState::Failed(Failure::ChannelClosed))
                    } else {
                        PipelineView {
                            channel: self.channel.push(i),
                            ..self.with_task(i, TaskState::Delivered)
                        }
                    }
                },
                Transition::Receive => PipelineView {
                    channel: self.channel.drop_first(),
                    received: self.received.push(self.channel[0]),
                    ..self
                },
                Transition::Cancel => self.cancel(),
            }
        }
    }

    /// The step that the coordinator takes by itself, if any: it receives
    /// first, then delivers, then lets scheduled tasks wait, then grants a
    /// permit; among tasks the one with the lowest index goes first.
    pub open spec fn next_transition(self) -> Option<Transition> {
        if self.channel.len() > 0 {
            Some(Transition::Receive)
        } else if let Some(i) = first_in(self.tasks, TaskState::Parsing) {
            Some(Transition::Deliver(i))
        } else if self.cancelled {
            None
        } else if let Some(i) = first_in(self.tasks, TaskState::Scheduled) {
            Some(Transition::Enqueue(i))
        } else if permits_held(self.tasks) >= self.limit {
            None
        } else if let Some(i) = first_in(self.tasks, TaskState::WaitingForPermit) {
            Some(Transition::Grant(i))
        } else {
            None
        }
    }

    /// The state after the coordinator's own next step.
    pub open spec fn advance(self) -> PipelineView {
        match self.next_transition() {
            Some(step) => self.apply(step),
            None => self,
        }
    }

    /// What the caller does after the coordinator's own next step.
    pub open spec fn next_action(self) -> Action {
        match self.next_transition() {
            Some(Transition::Grant(i)) => Action::Fetch { page: (self.first_page + i) as usize },
            Some(_) => Action::Continue,
            None => if fetching(self.tasks) > 0 {
                Action::Wait
            } else {
                Action::Done
            },
        }
    }

    /// An upper bound on the number of steps that are still to come: what
    /// the tasks can still do, and one receipt per batch in the channel.
    pub open spec fn steps_left(self) -> nat {
        task_steps_left(self.tasks) + self.channel.len()
    }

    /// The state after a sequence of steps, taken in order.
    pub open spec fn run(self, steps: Seq<Transition>) -> PipelineView
        decreases steps.len(),
    {
        if steps.len() == 0 {
            self
        } else {
            self.run(steps.drop_last()).apply(steps.last())
        }
    }

    /// The state after the consumer has received all that the channel holds.
    pub open spec fn drained(self) -> PipelineView {
        PipelineView {
            channel: Seq::empty(),
            received: self.received + self.channel,
            ..self
        }
    }

    /// The failure that ends the run as a whole: under the fail-fast policy
    /// the failed fetch, under the graceful policy none. A cancellation or a
    /// closed channel is never the failure of the run.
    pub open spec fn verdict(self) -> Option<PageFailure> {
        if self.policy == FailurePolicy::FailFast {
            first_fetch_failure(self.tasks, self.first_page)
        } else {
            None
        }
    }

    /// What holds of every state that the pipeline reaches.
    pub open spec fn inv(self) -> bool {
        &&& self.batches.len() == self.tasks.len()
        &&& permits_held(self.tasks) <= self.limit
        &&& self.channel.len() <= self.limit
        &&& forall|k: int|
            0 <= k < self.channel.len() ==> (#[trigger] self.channel[k]) < self.tasks.len()
                && self.tasks[self.channel[k] as int] is Delivered
        &&& forall|k: int|
            0 <= k < self.received.len() ==> (#[trigger] self.received[k]) < self.tasks.len()
                && self.tasks[self.received[k] as int] is Delivered
        &&& aggregate(self.received + self.channel, self.batches).to_multiset() == delivered_bag(
            self.tasks,
            self.batches,
        )
        &&& self.cancelled ==> forall|i: int|
            0 <= i < self.tasks.len() ==> !((#[trigger] self.tasks[i]) is Scheduled)
                && !(self.tasks[i] is WaitingForPermit)
    }
}

} // verus!
