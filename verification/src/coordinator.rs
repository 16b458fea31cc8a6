//! The pipeline coordinator: the executable state of a run.
//!
//! The coordinator decides; it performs no request itself. Its caller asks
//! for the next [`Action`], performs it, and reports the end of each fetch.
//! Every state of a coordinator meets the invariant of the model, so its
//! functions ask nothing of their callers.

use crate::admission::Admission;
use crate::extract::{extracted, parse_quote_html, SelectorRules};
use crate::fetch::FetchError;
use crate::laws::{law_done_means_finished, law_own_step_descends};
use crate::model::{
    aggregate, cancel_all, failures_of, fetching, first_fetch_failure, first_in, permits_held,
    Action, Failure, FailurePolicy, PageFailure, PipelineView, TaskState, Transition,
};
use crate::preservation::{
    lemma_aggregate_push, lemma_apply_inv, lemma_fetching_le_permits, lemma_fetching_zero,
    lemma_first_failure_prefix, lemma_first_in, lemma_init_inv, lemma_permits_pointwise,
    lemma_permits_update, lemma_permits_zero,
};
use crate::record::{Quote, QuoteView};
use core::mem::swap;
use vstd::prelude::*;

verus! {

/// Why a run could not be set up.
#[derive(Debug, Clone, Copy, PartialEq, Eq, Structural)]
pub enum ConfigError {
    /// With no permit no page could ever be fetched.
    ZeroLimit,
    /// Page indices are positive.
    ZeroPage,
}

/// The state of the tasks, the permits and the channel.
struct RunState {
    admission: Admission,
    policy: FailurePolicy,
    first_page: usize,
    tasks: Vec<TaskState>,
    batches: Vec<Vec<Quote>>,
    channel: Vec<usize>,
    received: Vec<usize>,
    cancelled: bool,
}

impl View for RunState {
    type V = PipelineView;

    closed spec fn view(&self) -> PipelineView {
        PipelineView {
            limit: self.admission.capacity(),
            policy: self.policy,
            first_page: self.first_page as nat,
            tasks: self.tasks@,
            batches: self.batches.deep_view(),
            channel: self.channel@,
            received: self.received@,
            cancelled: self.cancelled,
        }
    }
}

/// The number of pages from `first_page` up to, not including, `end_page`.
pub open spec fn page_count(first_page: nat, end_page: nat) -> nat {
    if end_page > first_page {
        (end_page - first_page) as nat
    } else {
        0
    }
}

/// The outcome of a fetch as the model sees it: the records that the markup
/// holds under the rules, or the failure.
pub open spec fn outcome_view(outcome: Result<String, FetchError>, rules: SelectorRules) -> Result<
    Seq<QuoteView>,
    FetchError,
> {
    match outcome {
        Ok(markup) => Ok(extracted(markup@, rules)),
        Err(error) => Err(error),
    }
}

/// The outcome of a fetch after parsing, as the model sees it.
pub open spec fn parsed_view(outcome: Result<Vec<Quote>, FetchError>) -> Result<
    Seq<QuoteView>,
    FetchError,
> {
    match outcome {
        Ok(quotes) => Ok(quotes.deep_view()),
        Err(error) => Err(error),
    }
}

/// Fails every task that has no permit yet.
fn cancel_tasks(tasks: &mut Vec<TaskState>)
    ensures
        final(tasks)@ == cancel_all(old(tasks)@),
{
    let mut i: usize = 0;
    while i < tasks.len()
        invariant
            i <= tasks.len(),
            tasks.len() == old(tasks).len(),
            forall|k: int| 0 <= k < i ==> tasks[k] == old(tasks)[k].after_cancel(),
            forall|k: int| i <= k < tasks.len() ==> tasks[k] == old(tasks)[k],
        decreases tasks.len() - i,
    {
        match tasks[i] {
            TaskState::Scheduled => {
                tasks.set(i, TaskState::Failed(Failure::Cancelled));
            },
            TaskState::WaitingForPermit => {
                tasks.set(i, TaskState::Failed(Failure::Cancelled));
            },
            _ => {},
        }
        i = i + 1;
    }
    assert(tasks@ =~= cancel_all(old(tasks)@));
}

/// The lowest index of a task in the wanted state.
fn find_first(tasks: &Vec<TaskState>, wanted: TaskState) -> (found: Option<usize>)
    ensures
        found == first_in(tasks@, wanted),
{
    let mut i: usize = 0;
    while i < tasks.len()
        invariant
            i <= tasks.len(),
            forall|k: int| 0 <= k < i ==> tasks[k] != wanted,
        decreases tasks.len() - i,
    {
        if tasks[i] == wanted {
            proof {
                lemma_first_in(tasks@, wanted);
            }
            return Some(i);
        }
        i = i + 1;
    }
    proof {
        lemma_first_in(tasks@, wanted);
    }
    None
}

impl RunState {
    /// There is a permit, the permits that are held are those of the tasks,
    /// every task has a batch, and every page index fits in a `usize`.
    spec fn represents(&self) -> bool {
        &&& self.admission.capacity() >= 1
        &&& self.admission.held() == permits_held(self.tasks@)
        &&& self.tasks.len() == self.batches.len()
        &&& self.first_page + self.tasks.len() <= usize::MAX
    }

    /// The state stands for a state of the model that meets the model's
    /// invariant.
    spec fn wf(&self) -> bool {
        self.represents() && self@.inv()
    }

    /// The state before any step.
    fn new(first_page: usize, pages: usize, limit: usize, policy: FailurePolicy) -> (state: RunState)
        requires
            limit >= 1,
            first_page + pages <= usize::MAX,
        ensures
            state.wf(),
            state@ == PipelineView::init(first_page as nat, pages as nat, limit as nat, policy),
    {
        let mut tasks: Vec<TaskState> = Vec::new();
        let mut batches: Vec<Vec<Quote>> = Vec::new();
        let mut i: usize = 0;
        while i < pages
            invariant
                i <= pages,
                tasks.len() == i,
                batches.len() == i,
                forall|k: int| 0 <= k < i ==> tasks[k] == TaskState::Scheduled,
                forall|k: int| 0 <= k < i ==> (#[trigger] batches[k])@.len() == 0,
            decreases pages - i,
        {
            tasks.push(TaskState::Scheduled);
            batches.push(Vec::new());
            i = i + 1;
        }
        let state = RunState {
            admission: Admission::new(limit),
            policy,
            first_page,
            tasks,
            batches,
            channel: Vec::new(),
            received: Vec::new(),
            cancelled: false,
        };
        proof {
            let init = PipelineView::init(first_page as nat, pages as nat, limit as nat, policy);
            lemma_init_inv(first_page as nat, pages as nat, limit as nat, policy);
            lemma_permits_zero(state.tasks@);
            assert(state@.tasks =~= init.tasks);
            assert(state@.batches =~~= init.batches);
            assert(state@.channel =~= init.channel);
            assert(state@.received =~= init.received);
            assert(state@ == init);
        }
        state
    }

    /// A state without tasks: what a coordinator holds while its own state
    /// is being changed.
    fn placeholder() -> (state: RunState)
        ensures
            state.wf(),
    {
        RunState::new(1, 0, 1, FailurePolicy::Graceful)
    }

    /// Lets a scheduled task wait for a permit.
    fn enqueue(&mut self, i: usize) -> (accepted: bool)
        requires
            old(self).wf(),
        ensures
            final(self).wf(),
            accepted == old(self)@.enabled(Transition::Enqueue(i)),
            final(self)@ == old(self)@.apply(Transition::Enqueue(i)),
    {
        if i >= self.tasks.len() || self.cancelled {
            return false;
        }
        match self.tasks[i] {
            TaskState::Scheduled => {},
            _ => {
                return false;
            },
        }
        proof {
            lemma_apply_inv(self@, Transition::Enqueue(i));
            lemma_permits_update(self.tasks@, i as int, TaskState::WaitingForPermit);
        }
        self.tasks.set(i, TaskState::WaitingForPermit);
        true
    }

    /// Gives a waiting task a permit, if one is free, and starts its fetch.
    fn grant(&mut self, i: usize) -> (accepted: bool)
        requires
            old(self).wf(),
        ensures
            final(self).wf(),
            accepted == old(self)@.enabled(Transition::Grant(i)),
            final(self)@ == old(self)@.apply(Transition::Grant(i)),
    {
        if i >= self.tasks.len() || self.cancelled {
            return false;
        }
        match self.tasks[i] {
            TaskState::WaitingForPermit => {},
            _ => {
                return false;
            },
        }
        if !self.admission.try_acquire() {
            return false;
        }
        proof {
            lemma_apply_inv(old(self)@, Transition::Grant(i));
            lemma_permits_update(self.tasks@, i as int, TaskState::Fetching);
        }
        self.tasks.set(i, TaskState::Fetching);
        true
    }

    /// Takes the end of a task's fetch: its markup is parsed into the task's
    /// batch, or the task fails. After cancellation the task fails whatever
    /// came back.
    fn fetched(&mut self, i: usize, outcome: Result<Vec<Quote>, FetchError>) -> (accepted: bool)
        requires
            old(self).wf(),
        ensures
            final(self).wf(),
            accepted == old(self)@.enabled(Transition::Fetched(i, parsed_view(outcome))),
            final(self)@ == old(self)@.apply(Transition::Fetched(i, parsed_view(outcome))),
    {
        if i >= self.tasks.len() {
            return false;
        }
        match self.tasks[i] {
            TaskState::Fetching => {},
            _ => {
                return false;
            },
        }
        let ghost step = Transition::Fetched(i, parsed_view(outcome));
        proof {
            lemma_apply_inv(self@, step);
        }
        if self.cancelled {
            let state = TaskState::Failed(Failure::Cancelled);
            proof {
                lemma_permits_update(self.tasks@, i as int, state);
            }
            self.tasks.set(i, state);
            self.admission.release();
        } else {
            match outcome {
                Ok(quotes) => {
                    proof {
                        lemma_permits_update(self.tasks@, i as int, TaskState::Parsing);
                    }
                    self.batches.set(i, quotes);
                    self.tasks.set(i, TaskState::Parsing);
                    assert(self@.batches =~~= old(self)@.apply(step).batches);
                },
                Err(error) => {
                    let state = TaskState::Failed(Failure::Fetch(error));
                    proof {
                        lemma_permits_update(self.tasks@, i as int, state);
                    }
                    self.tasks.set(i, state);
                    self.admission.release();
                    match self.policy {
                        FailurePolicy::FailFast => {
                            proof {
                                assert(cancel_all(self.tasks@).len() == self.tasks@.len());
                                lemma_permits_pointwise(self.tasks@, cancel_all(self.tasks@));
                            }
                            cancel_tasks(&mut self.tasks);
                            self.cancelled = true;
                        },
                        FailurePolicy::Graceful => {},
                    }
                },
            }
        }
        true
    }

    /// Sends the batch of a task that has parsed its page to the channel and
    /// gives its permit back. A full channel refuses the batch, and the task
    /// keeps its permit. After cancellation the channel is closed: the task
    /// fails and gives its permit back.
    fn deliver(&mut self, i: usize) -> (accepted: bool)
        requires
            old(self).wf(),
        ensures
            final(self).wf(),
            accepted == old(self)@.enabled(Transition::Deliver(i)),
            final(self)@ == old(self)@.apply(Transition::Deliver(i)),
    {
        if i >= self.tasks.len() {
            return false;
        }
        match self.tasks[i] {
            TaskState::Parsing => {},
            _ => {
                return false;
            },
        }
        proof {
            lemma_apply_inv(self@, Transition::Deliver(i));
        }
        if self.cancelled {
            let state = TaskState::Failed(Failure::ChannelClosed);
            proof {
                lemma_permits_update(self.tasks@, i as int, state);
            }
            self.tasks.set(i, state);
            self.admission.release();
            true
        } else if self.channel.len() < self.admission.limit() {
            proof {
                lemma_permits_update(self.tasks@, i as int, TaskState::Delivered);
            }
            self.tasks.set(i, TaskState::Delivered);
            self.channel.push(i);
            self.admission.release();
            true
        } else {
            false
        }
    }

    /// Lets the consumer receive the oldest batch in the channel.
    fn receive(&mut self) -> (accepted: bool)
        requires
            old(self).wf(),
        ensures
            final(self).wf(),
            accepted == old(self)@.enabled(Transition::Receive),
            final(self)@ == old(self)@.apply(Transition::Receive),
    {
        if self.channel.len() == 0 {
            return false;
        }
        proof {
            lemma_apply_inv(self@, Transition::Receive);
        }
        let i: usize = self.channel.remove(0);
        self.received.push(i);
        assert(self@.channel =~= old(self)@.channel.drop_first());
        true
    }

    /// Cancels the run: no further permit is granted, the tasks without a
    /// permit fail, and the channel takes no further batch.
    fn cancel(&mut self)
        requires
            old(self).wf(),
        ensures
            final(self).wf(),
            final(self)@ == old(self)@.apply(Transition::Cancel),
    {
        proof {
            lemma_apply_inv(self@, Transition::Cancel);
            assert(cancel_all(self.tasks@).len() == self.tasks@.len());
            lemma_permits_pointwise(self.tasks@, cancel_all(self.tasks@));
        }
        cancel_tasks(&mut self.tasks);
        self.cancelled = true;
    }

    /// What the caller does when the coordinator has no step of its own.
    fn idle_action(&self) -> (action: Action)
        ensures
            action == if fetching(self.tasks@) > 0 {
                Action::Wait
            } else {
                Action::Done
            },
    {
        let total: usize = self.tasks.len();
        proof {
            assert(self.tasks@.len() == total);
            lemma_fetching_zero(self.tasks@);
            lemma_first_in(self.tasks@, TaskState::Fetching);
        }
        match find_first(&self.tasks, TaskState::Fetching) {
            Some(_) => Action::Wait,
            None => Action::Done,
        }
    }

    /// Takes the coordinator's own next step, if it has one, and says what
    /// the caller does next.
    fn step(&mut self) -> (action: Action)
        requires
            old(self).wf(),
        ensures
            final(self).wf(),
            final(self)@ == old(self)@.advance(),
            action == old(self)@.next_action(),
    {
        if self.channel.len() > 0 {
            self.receive();
            return Action::Continue;
        }
        match find_first(&self.tasks, TaskState::Parsing) {
            Some(i) => {
                self.deliver(i);
                return Action::Continue;
            },
            None => {},
        }
        if self.cancelled {
            return self.idle_action();
        }
        match find_first(&self.tasks, TaskState::Scheduled) {
            Some(i) => {
                self.enqueue(i);
                return Action::Continue;
            },
            None => {},
        }
        if self.admission.available() == 0 {
            return self.idle_action();
        }
        match find_first(&self.tasks, TaskState::WaitingForPermit) {
            Some(i) => {
                proof {
                    lemma_first_in(self.tasks@, TaskState::WaitingForPermit);
                }
                self.grant(i);
                Action::Fetch { page: self.first_page + i }
            },
            None => self.idle_action(),
        }
    }

    /// Lets the consumer receive everything that the channel holds. The loop
    /// ends: each round takes one batch out of the channel.
    fn drain(&mut self) -> (count: usize)
        requires
            old(self).wf(),
        ensures
            final(self).wf(),
            count == old(self)@.channel.len(),
            final(self)@ == old(self)@.drained(),
    {
        let mut count: usize = 0;
        let total: usize = self.channel.len();
        while self.channel.len() > 0
            invariant
                self.wf(),
                total == old(self)@.channel.len(),
                count + self@.channel.len() == old(self)@.channel.len(),
                self@.received + self@.channel == old(self)@.received + old(self)@.channel,
                self@ == (PipelineView {
                    channel: self@.channel,
                    received: self@.received,
                    ..old(self)@
                }),
            decreases self.channel.len(),
        {
            let ghost before = self@;
            self.receive();
            assert(self@.received + self@.channel =~= before.received + before.channel);
            count = count + 1;
        }
        assert(self@.received =~= old(self)@.received + old(self)@.channel);
        assert(self@.channel =~= Seq::<usize>::empty());
        count
    }

    /// Whether every task has delivered or failed and the channel is drained.
    fn is_finished(&self) -> (finished: bool)
        ensures
            finished == self@.finished(),
    {
        if self.channel.len() > 0 {
            return false;
        }
        let mut i: usize = 0;
        while i < self.tasks.len()
            invariant
                i <= self.tasks.len(),
                forall|k: int| 0 <= k < i ==> (#[trigger] self.tasks@[k]).is_terminal(),
            decreases self.tasks.len() - i,
        {
            match self.tasks[i] {
                TaskState::Delivered => {},
                TaskState::Failed(_) => {},
                _ => {
                    assert(!self@.tasks[i as int].is_terminal());
                    return false;
                },
            }
            i = i + 1;
        }
        true
    }

    /// The aggregated collection: a copy of the received batches, in arrival
    /// order.
    fn records(&self) -> (records: Vec<Quote>)
        requires
            self.wf(),
        ensures
            records.deep_view() == self@.collected(),
    {
        let mut records: Vec<Quote> = Vec::new();
        let mut k: usize = 0;
        assert(records.deep_view() =~= Seq::<QuoteView>::empty());
        while k < self.received.len()
            invariant
                self.wf(),
                k <= self.received.len(),
                records.deep_view() == aggregate(
                    self.received@.take(k as int),
                    self.batches.deep_view(),
                ),
            decreases self.received.len() - k,
        {
            let task: usize = self.received[k];
            assert(self@.received[k as int] < self@.tasks.len());
            let batch = &self.batches[task];
            let ghost before = records.deep_view();
            let mut j: usize = 0;
            assert(before + batch.deep_view().take(0) =~= before);
            while j < batch.len()
                invariant
                    j <= batch.len(),
                    records.deep_view() == before + batch.deep_view().take(j as int),
                decreases batch.len() - j,
            {
                let ghost so_far = records.deep_view();
                let copy = batch[j].clone();
                records.push(copy);
                assert(records.deep_view() =~= so_far.push(copy@));
                assert(before + batch.deep_view().take(j + 1) =~= (before + batch.deep_view().take(
                    j as int,
                )).push(batch.deep_view()[j as int]));
                j = j + 1;
            }
            proof {
                assert(batch.deep_view().take(batch.len() as int) =~= batch.deep_view());
                assert(self.received@.take(k + 1) =~= self.received@.take(k as int).push(task));
                lemma_aggregate_push(
                    self.received@.take(k as int),
                    self.batches.deep_view(),
                    task,
                );
            }
            k = k + 1;
        }
        assert(self.received@.take(self.received.len() as int) =~= self.received@);
        records
    }

    /// The failed fetch with the lowest page index, if any fetch failed.
    fn fetch_failure(&self) -> (found: Option<PageFailure>)
        requires
            self.wf(),
        ensures
            found == first_fetch_failure(self@.tasks, self@.first_page),
    {
        let mut i: usize = 0;
        assert(self.tasks@.take(0) =~= Seq::<TaskState>::empty());
        while i < self.tasks.len()
            invariant
                self.wf(),
                i <= self.tasks.len(),
                first_fetch_failure(self.tasks@.take(i as int), self.first_page as nat) is None,
            decreases self.tasks.len() - i,
        {
            assert(self.tasks@.take(i + 1).drop_last() =~= self.tasks@.take(i as int));
            match self.tasks[i] {
                TaskState::Failed(Failure::Fetch(error)) => {
                    proof {
                        lemma_first_failure_prefix(self.tasks@, self.first_page as nat, i + 1);
                    }
                    return Some(
                        PageFailure { page: self.first_page + i, error },
                    );
                },
                _ => {},
            }
            i = i + 1;
        }
        assert(self.tasks@.take(self.tasks.len() as int) =~= self.tasks@);
        None
    }

    /// The pages that could not be fetched, with their errors, by rising page
    /// index.
    fn failures(&self) -> (failed: Vec<PageFailure>)
        requires
            self.wf(),
        ensures
            failed@ == failures_of(self@.tasks, self@.first_page),
    {
        let mut failed: Vec<PageFailure> = Vec::new();
        let mut i: usize = 0;
        assert(self.tasks@.take(0) =~= Seq::<TaskState>::empty());
        while i < self.tasks.len()
            invariant
                self.wf(),
                i <= self.tasks.len(),
                failed@ == failures_of(self.tasks@.take(i as int), self.first_page as nat),
            decreases self.tasks.len() - i,
        {
            assert(self.tasks@.take(i + 1).drop_last() =~= self.tasks@.take(i as int));
            match self.tasks[i] {
                TaskState::Failed(Failure::Fetch(error)) => {
                    failed.push(PageFailure { page: self.first_page + i, error });
                },
                _ => {},
            }
            i = i + 1;
        }
        assert(self.tasks@.take(self.tasks.len() as int) =~= self.tasks@);
        failed
    }

    /// The number of tasks that are fetching. It never exceeds the limit.
    fn fetching_now(&self) -> (count: usize)
        requires
            self.wf(),
        ensures
            count == fetching(self@.tasks),
            count <= self@.limit,
    {
        let mut count: usize = 0;
        let mut i: usize = 0;
        assert(self.tasks@.take(0) =~= Seq::<TaskState>::empty());
        while i < self.tasks.len()
            invariant
                i <= self.tasks.len(),
                count == fetching(self.tasks@.take(i as int)),
                count <= i,
            decreases self.tasks.len() - i,
        {
            assert(self.tasks@.take(i + 1).drop_last() =~= self.tasks@.take(i as int));
            match self.tasks[i] {
                TaskState::Fetching => {
                    count = count + 1;
                },
                _ => {},
            }
            i = i + 1;
        }
        proof {
            assert(self.tasks@.take(self.tasks.len() as int) =~= self.tasks@);
            lemma_fetching_le_permits(self.tasks@);
        }
        count
    }

    /// The pages whose batches the consumer has received, in arrival order.
    fn arrivals(&self) -> (pages: Vec<usize>)
        requires
            self.wf(),
        ensures
            pages@.len() == self@.received.len(),
            forall|k: int|
                0 <= k < pages@.len() ==> pages@[k] == self@.first_page + self@.received[k],
    {
        let mut pages: Vec<usize> = Vec::new();
        let mut k: usize = 0;
        while k < self.received.len()
            invariant
                self.wf(),
                k <= self.received.len(),
                pages@.len() == k,
                forall|j: int| 0 <= j < k ==> pages@[j] == self.first_page + self.received@[j],
            decreases self.received.len() - k,
        {
            let task: usize = self.received[k];
            assert(self@.received[k as int] < self@.tasks.len());
            pages.push(self.first_page + task);
            k = k + 1;
        }
        pages
    }
}

/// The executable state of a run: the selector rules, and the tasks, the
/// permits and the channel.
pub struct Coordinator {
    rules: SelectorRules,
    state: RunState,
}

impl View for Coordinator {
    type V = PipelineView;

    closed spec fn view(&self) -> PipelineView {
        self.state@
    }
}

impl Coordinator {
    /// The state stands for a state of the model that meets the invariant.
    #[verifier::type_invariant]
    spec fn sound(&self) -> bool {
        self.state.wf()
    }

    /// The selector rules of every extraction of this run.
    pub closed spec fn rules(&self) -> SelectorRules {
        self.rules
    }

    /// Sets up a run over the pages from `first_page` up to, not including,
    /// `end_page`, with `limit` permits.
    pub fn new(
        rules: SelectorRules,
        first_page: usize,
        end_page: usize,
        limit: usize,
        policy: FailurePolicy,
    ) -> (run: Result<Coordinator, ConfigError>)
        ensures
            match run {
                Ok(c) => {
                    &&& limit >= 1
                    &&& first_page >= 1
                    &&& c.rules() == rules
                    &&& c@.inv()
                    &&& c@ == PipelineView::init(
                        first_page as nat,
                        page_count(first_page as nat, end_page as nat),
                        limit as nat,
                        policy,
                    )
                },
                Err(ConfigError::ZeroLimit) => limit == 0,
                Err(ConfigError::ZeroPage) => limit >= 1 && first_page == 0,
            },
    {
        if limit == 0 {
            return Err(ConfigError::ZeroLimit);
        }
        if first_page == 0 {
            return Err(ConfigError::ZeroPage);
        }
        let pages: usize = if end_page > first_page {
            end_page - first_page
        } else {
            0
        };
        Ok(Coordinator { rules, state: RunState::new(first_page, pages, limit, policy) })
    }

    /// Lets a scheduled task wait for a permit.
    pub fn enqueue(&mut self, i: usize) -> (accepted: bool)
        ensures
            accepted == old(self)@.enabled(Transition::Enqueue(i)),
            final(self)@ == old(self)@.apply(Transition::Enqueue(i)),
            final(self)@.inv(),
            final(self).rules() == old(self).rules(),
    {
        proof {
            use_type_invariant(&*self);
        }
        let mut state = RunState::placeholder();
        swap(&mut state, &mut self.state);
        let accepted = state.enqueue(i);
        self.state = state;
        accepted
    }

    /// Gives a waiting task a permit, if one is free, and starts its fetch.
    pub fn grant(&mut self, i: usize) -> (accepted: bool)
        ensures
            accepted == old(self)@.enabled(Transition::Grant(i)),
            final(self)@ == old(self)@.apply(Transition::Grant(i)),
            final(self)@.inv(),
            final(self).rules() == old(self).rules(),
    {
        proof {
            use_type_invariant(&*self);
        }
        let mut state = RunState::placeholder();
        swap(&mut state, &mut self.state);
        let accepted = state.grant(i);
        self.state = state;
        accepted
    }

    /// Takes the end of a task's fetch after parsing: the records become the
    /// task's batch, or the task fails. After cancellation the task fails
    /// whatever came back.
    pub fn fetched_records(&mut self, i: usize, outcome: Result<Vec<Quote>, FetchError>) -> (accepted:
        bool)
        ensures
            accepted == old(self)@.enabled(Transition::Fetched(i, parsed_view(outcome))),
            final(self)@ == old(self)@.apply(Transition::Fetched(i, parsed_view(outcome))),
            final(self)@.inv(),
            final(self).rules() == old(self).rules(),
    {
        proof {
            use_type_invariant(&*self);
        }
        let mut state = RunState::placeholder();
        swap(&mut state, &mut self.state);
        let accepted = state.fetched(i, outcome);
        self.state = state;
        accepted
    }

    /// Takes the end of a task's fetch: its markup is parsed into the task's
    /// batch, or the task fails. After cancellation the task fails whatever
    /// came back.
    pub fn fetched(&mut self, i: usize, outcome: Result<String, FetchError>) -> (accepted: bool)
        ensures
            accepted == old(self)@.enabled(
                Transition::Fetched(i, outcome_view(outcome, old(self).rules())),
            ),
            final(self)@ == old(self)@.apply(
                Transition::Fetched(i, outcome_view(outcome, old(self).rules())),
            ),
            final(self)@.inv(),
            final(self).rules() == old(self).rules(),
    {
        proof {
            use_type_invariant(&*self);
        }
        if i >= self.state.tasks.len() || self.state.tasks[i] != TaskState::Fetching {
            return false;
        }
        let parsed = match outcome {
            Ok(markup) => if self.state.cancelled {
                // What came back is dropped: the task fails by cancellation.
                Ok(Vec::new())
            } else {
                Ok(parse_quote_html(markup.as_str(), &self.rules))
            },
            Err(error) => Err(error),
        };
        self.fetched_records(i, parsed)
    }

    /// Takes the end of the fetch of a page, named by its page index.
    pub fn on_fetched(&mut self, page: usize, outcome: Result<String, FetchError>) -> (accepted:
        bool)
        ensures
            page < old(self)@.first_page ==> !accepted && final(self)@ == old(self)@,
            page >= old(self)@.first_page ==> {
                let step = Transition::Fetched(
                    (page - old(self)@.first_page) as usize,
                    outcome_view(outcome, old(self).rules()),
                );
                accepted == old(self)@.enabled(step) && final(self)@ == old(self)@.apply(step)
            },
            final(self)@.inv(),
            final(self).rules() == old(self).rules(),
    {
        proof {
            use_type_invariant(&*self);
        }
        if page < self.state.first_page {
            return false;
        }
        let i: usize = page - self.state.first_page;
        self.fetched(i, outcome)
    }

    /// Sends the batch of a task that has parsed its page to the channel and
    /// gives its permit back. A full channel refuses the batch, and the task
    /// keeps its permit. After cancellation the channel is closed: the task
    /// fails and gives its permit back.
    pub fn deliver(&mut self, i: usize) -> (accepted: bool)
        ensures
            accepted == old(self)@.enabled(Transition::Deliver(i)),
            final(self)@ == old(self)@.apply(Transition::Deliver(i)),
            final(self)@.inv(),
            final(self).rules() == old(self).rules(),
    {
        proof {
            use_type_invariant(&*self);
        }
        let mut state = RunState::placeholder();
        swap(&mut state, &mut self.state);
        let accepted = state.deliver(i);
        self.state = state;
        accepted
    }

    /// Lets the consumer receive the oldest batch in the channel.
    pub fn receive(&mut self) -> (accepted: bool)
        ensures
            accepted == old(self)@.enabled(Transition::Receive),
            final(self)@ == old(self)@.apply(Transition::Receive),
            final(self)@.inv(),
            final(self).rules() == old(self).rules(),
    {
        proof {
            use_type_invariant(&*self);
        }
        let mut state = RunState::placeholder();
        swap(&mut state, &mut self.state);
        let accepted = state.receive();
        self.state = state;
        accepted
    }

    /// Cancels the run: no further permit is granted, the tasks without a
    /// permit fail, and the channel takes no further batch.
    pub fn cancel(&mut self)
        ensures
            final(self)@ == old(self)@.apply(Transition::Cancel),
            final(self)@.inv(),
            final(self).rules() == old(self).rules(),
    {
        proof {
            use_type_invariant(&*self);
        }
        let mut state = RunState::placeholder();
        swap(&mut state, &mut self.state);
        state.cancel();
        self.state = state;
    }

    /// Takes the coordinator's own next step, if it has one, and says what
    /// the caller does next. When it says that the run is done, the run is
    /// finished; when it says to wait, a fetch is under way; otherwise it has
    /// taken a step that brought the run nearer to its end.
    pub fn step(&mut self) -> (action: Action)
        ensures
            action == old(self)@.next_action(),
            final(self)@ == old(self)@.advance(),
            final(self)@.inv(),
            final(self).rules() == old(self).rules(),
            action == Action::Done ==> final(self)@.finished(),
            action == Action::Wait ==> fetching(final(self)@.tasks) > 0,
            action != Action::Done && action != Action::Wait ==> final(self)@.steps_left() < old(
                self,
            )@.steps_left(),
    {
        proof {
            use_type_invariant(&*self);
            let total: usize = self.state.tasks.len();
            if self@.next_action() == Action::Done {
                law_done_means_finished(self@);
            }
            if self@.next_transition() is Some {
                law_own_step_descends(self@);
            }
        }
        let mut state = RunState::placeholder();
        swap(&mut state, &mut self.state);
        let action = state.step();
        self.state = state;
        action
    }

    /// Lets the consumer receive everything that the channel holds. The loop
    /// ends: each round takes one batch out of the channel.
    pub fn drain(&mut self) -> (count: usize)
        ensures
            count == old(self)@.channel.len(),
            final(self)@ == old(self)@.drained(),
            final(self)@.inv(),
            final(self).rules() == old(self).rules(),
    {
        proof {
            use_type_invariant(&*self);
        }
        let mut state = RunState::placeholder();
        swap(&mut state, &mut self.state);
        let count: usize = state.drain();
        self.state = state;
        count
    }

    /// Whether every task has delivered or failed and the channel is drained.
    pub fn is_finished(&self) -> (finished: bool)
        ensures
            finished == self@.finished(),
    {
        self.state.is_finished()
    }

    /// The aggregated collection: a copy of the received batches, in arrival
    /// order.
    pub fn records(&self) -> (records: Vec<Quote>)
        ensures
            records.deep_view() == self@.collected(),
    {
        proof {
            use_type_invariant(self);
        }
        self.state.records()
    }

    /// The failed fetch with the lowest page index, if any fetch failed.
    pub fn fetch_failure(&self) -> (found: Option<PageFailure>)
        ensures
            found == first_fetch_failure(self@.tasks, self@.first_page),
    {
        proof {
            use_type_invariant(self);
        }
        self.state.fetch_failure()
    }

    /// The pages that could not be fetched, with their errors, by rising page
    /// index.
    pub fn failures(&self) -> (failed: Vec<PageFailure>)
        ensures
            failed@ == failures_of(self@.tasks, self@.first_page),
    {
        proof {
            use_type_invariant(self);
        }
        self.state.failures()
    }

    /// The result of the run: under the fail-fast policy the failed fetch,
    /// if there is one; otherwise the aggregated collection.
    pub fn outcome(&self) -> (outcome: Result<Vec<Quote>, PageFailure>)
        ensures
            match self@.verdict() {
                Some(failure) => outcome == Err::<Vec<Quote>, PageFailure>(failure),
                None => outcome matches Ok(records) && records.deep_view() == self@.collected(),
            },
    {
        match self.state.policy {
            FailurePolicy::FailFast => {
                match self.fetch_failure() {
                    Some(failure) => {
                        return Err(failure);
                    },
                    None => {},
                }
            },
            FailurePolicy::Graceful => {},
        }
        Ok(self.records())
    }

    /// The number of page tasks.
    pub fn pages(&self) -> (count: usize)
        ensures
            count == self@.tasks.len(),
    {
        self.state.tasks.len()
    }

    /// The page index of task 0.
    pub fn first_page(&self) -> (page: usize)
        ensures
            page == self@.first_page,
    {
        self.state.first_page
    }

    /// The number of permits.
    pub fn limit(&self) -> (limit: usize)
        ensures
            limit == self@.limit,
            limit >= 1,
    {
        proof {
            use_type_invariant(self);
        }
        self.state.admission.limit()
    }

    /// The failure policy of the run.
    pub fn policy(&self) -> (policy: FailurePolicy)
        ensures
            policy == self@.policy,
    {
        self.state.policy
    }

    /// Whether the run was cancelled.
    pub fn is_cancelled(&self) -> (cancelled: bool)
        ensures
            cancelled == self@.cancelled,
    {
        self.state.cancelled
    }

    /// The state of a task, if there is such a task.
    pub fn task_state(&self, i: usize) -> (state: Option<TaskState>)
        ensures
            state == if i < self@.tasks.len() {
                Some(self@.tasks[i as int])
            } else {
                None
            },
    {
        if i < self.state.tasks.len() {
            Some(self.state.tasks[i])
        } else {
            None
        }
    }

    /// The number of permits that tasks hold. It never exceeds the limit.
    pub fn permits_in_use(&self) -> (count: usize)
        ensures
            count == permits_held(self@.tasks),
            count <= self@.limit,
    {
        proof {
            use_type_invariant(self);
        }
        self.state.admission.in_use()
    }

    /// The number of tasks that are fetching. It never exceeds the limit.
    pub fn fetching_now(&self) -> (count: usize)
        ensures
            count == fetching(self@.tasks),
            count <= self@.limit,
    {
        proof {
            use_type_invariant(self);
        }
        self.state.fetching_now()
    }

    /// The number of batches in the channel. It never exceeds the limit.
    pub fn in_channel(&self) -> (count: usize)
        ensures
            count == self@.channel.len(),
            count <= self@.limit,
    {
        proof {
            use_type_invariant(self);
        }
        self.state.channel.len()
    }

    /// The pages whose batches the consumer has received, in arrival order.
    pub fn arrivals(&self) -> (pages: Vec<usize>)
        ensures
            pages@.len() == self@.received.len(),
            forall|k: int|
                0 <= k < pages@.len() ==> pages@[k] == self@.first_page + self@.received[k],
    {
        proof {
            use_type_invariant(self);
        }
        self.state.arrivals()
    }

    /// Every state of a coordinator meets the invariant of the model.
    pub fn upholds_invariant(&self)
        ensures
            self@.inv(),
    {
        proof {
            use_type_invariant(self);
        }
    }
}

} // verus!
