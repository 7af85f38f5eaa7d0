//! The bookkeeping of a single-threaded cooperative executor: which task is
//! polled next, when the executor idles, and when it is stuck.
//!
//! The executor knows tasks by number. Its driver owns the tasks and the
//! clock: it asks for the next action, polls the task that the action names
//! through [`Executor::poll_task`], sleeps when told to idle, and stops when
//! the root task is ready.

use crate::task::{Context, Future, Poll, Wake};
use crate::timer_queue::{
    due_count,
    lemma_without_waiter,
    sorted_by_deadline,
    without_waiter,
    TimerEntry,
    TimerQueue,
};
use std::collections::VecDeque;
use vstd::prelude::*;

verus! {

/// What the driver of the executor is to do next.
#[derive(Clone, Copy, Debug, PartialEq, Eq, Structural)]
pub enum Action {
    /// Poll the task of this number now.
    Poll(usize),
    /// No task is ready: wait until the clock shows this time, the earliest
    /// deadline, or until a task is woken from outside.
    Idle(u64),
    /// No task is ready and no timer is pending: unless a task waits for a
    /// wake-up from outside, the root task can never finish.
    Deadlock,
}

/// The tasks of `s` other than `task`, in the order of `s`.
pub open spec fn without_task(s: Seq<usize>, task: usize) -> Seq<usize>
    decreases s.len(),
{
    if s.len() == 0 {
        s
    } else if s.last() == task {
        without_task(s.drop_last(), task)
    } else {
        without_task(s.drop_last(), task).push(s.last())
    }
}

/// What is left of a queue without a task holds only tasks of the queue, and
/// not that task.
pub proof fn lemma_without_task(s: Seq<usize>, task: usize)
    ensures
        forall|i: int|
            0 <= i < without_task(s, task).len() ==> s.contains(#[trigger] without_task(s, task)[i])
                && without_task(s, task)[i] != task,
    decreases s.len(),
{
    if s.len() > 0 {
        let init = s.drop_last();
        let kept = without_task(init, task);
        lemma_without_task(init, task);
        assert forall|i: int| 0 <= i < kept.len() implies s.contains(#[trigger] kept[i]) by {
            let j = choose|j: int| 0 <= j < init.len() && init[j] == kept[i];
            assert(s[j] == kept[i]);
        }
        assert(s[s.len() - 1] == s.last());
    }
}

/// The tasks that the entries of `s` wake, in the order of `s`.
pub open spec fn waiters(s: Seq<TimerEntry>) -> Seq<usize> {
    Seq::new(s.len(), |i: int| s[i].waiter)
}

/// An executor as contracts see it.
pub struct ExecutorState {
    /// The tasks to poll, the next one first.
    pub ready: Seq<usize>,
    /// The pending timers in release order.
    pub timers: Seq<TimerEntry>,
    /// For each task, by number, whether it has finished.
    pub done: Seq<bool>,
    /// For each task, by number, the task that is composed of it, if there
    /// is one.
    pub parents: Seq<Option<usize>>,
}

impl ExecutorState {
    /// The task exists and has not finished.
    pub open spec fn live(self, task: usize) -> bool {
        task < self.done.len() && !self.done[task as int]
    }

    /// The timers are in release order, and only live tasks are queued or
    /// waited for.
    pub open spec fn wf(self) -> bool {
        &&& self.parents.len() == self.done.len()
        &&& sorted_by_deadline(self.timers)
        &&& forall|i: int| 0 <= i < self.ready.len() ==> self.live(#[trigger] self.ready[i])
        &&& forall|i: int|
            0 <= i < self.timers.len() ==> self.live((#[trigger] self.timers[i]).waiter)
    }

    /// The state after a new task was added: it gets the next number and is
    /// ready.
    pub open spec fn after_spawn(self, parent: Option<usize>) -> Self {
        ExecutorState {
            ready: self.ready.push(self.done.len() as usize),
            done: self.done.push(false),
            parents: self.parents.push(parent),
            ..self
        }
    }

    /// The state after `task` asked for `wake`. A task that has finished is
    /// never queued again.
    pub open spec fn after_wake(self, task: usize, wake: Wake) -> Self {
        if !self.live(task) {
            self
        } else {
            match wake {
                Wake::Now => ExecutorState { ready: self.ready.push(task), ..self },
                Wake::At(deadline) => ExecutorState {
                    timers: self.timers.insert(
                        due_count(self.timers, deadline) as int,
                        TimerEntry { deadline, waiter: task },
                    ),
                    ..self
                },
            }
        }
    }

    /// The state after `task` asked for each of `wakes` in turn.
    pub open spec fn after_wakes(self, task: usize, wakes: Seq<Wake>) -> Self
        decreases wakes.len(),
    {
        if wakes.len() == 0 {
            self
        } else {
            self.after_wakes(task, wakes.drop_last()).after_wake(task, wakes.last())
        }
    }

    /// The state after `task` was marked as finished and taken out of both
    /// queues, so that nothing will wake it any more.
    pub open spec fn after_retire(self, task: usize) -> Self {
        ExecutorState {
            ready: without_task(self.ready, task),
            timers: without_waiter(self.timers, task),
            done: self.done.update(task as int, true),
            ..self
        }
    }

    /// The state after `task` finished: it is retired, and the task that is
    /// composed of it, if there is one, is queued to take the result. The
    /// end of a task that is not live changes nothing.
    pub open spec fn after_complete(self, task: usize) -> Self {
        if self.live(task) && task < self.parents.len() {
            match self.parents[task as int] {
                Some(parent) => self.after_retire(task).after_wake(parent, Wake::Now),
                None => self.after_retire(task),
            }
        } else {
            self
        }
    }

    /// What is to be done next at time `now`: poll the first ready task; if
    /// none is ready, poll the first task whose timer is due; if none is
    /// due, idle until the earliest deadline; if there is no timer, give up.
    pub open spec fn next_action(self, now: u64) -> Action {
        if self.ready.len() > 0 {
            Action::Poll(self.ready[0])
        } else if self.timers.len() == 0 {
            Action::Deadlock
        } else if self.timers[0].deadline > now {
            Action::Idle(self.timers[0].deadline)
        } else {
            Action::Poll(self.timers[0].waiter)
        }
    }

    /// The state after the next action was handed out at time `now`: the
    /// task to poll has left the ready queue. If the queue was empty, the
    /// tasks of all timers due at `now` have entered it first, in release
    /// order.
    pub open spec fn after_next(self, now: u64) -> Self {
        if self.ready.len() > 0 {
            ExecutorState { ready: self.ready.drop_first(), ..self }
        } else if self.timers.len() == 0 || self.timers[0].deadline > now {
            self
        } else {
            let k = due_count(self.timers, now) as int;
            ExecutorState {
                ready: waiters(self.timers.take(k)).drop_first(),
                timers: self.timers.skip(k),
                ..self
            }
        }
    }

    /// The state after one pass in which the task that is polled yields:
    /// it goes to the back of the ready queue.
    pub open spec fn after_yield_pass(self, now: u64) -> Self {
        match self.next_action(now) {
            Action::Poll(task) => self.after_next(now).after_wake(task, Wake::Now),
            _ => self,
        }
    }

    /// The state after `n` passes in each of which the polled task yields.
    pub open spec fn after_yield_passes(self, now: u64, n: nat) -> Self
        decreases n,
    {
        if n == 0 {
            self
        } else {
            self.after_yield_passes(now, (n - 1) as nat).after_yield_pass(now)
        }
    }
}

/// Asking for a wake-up keeps the executor's state well formed.
pub proof fn lemma_wake_keeps_wf(s: ExecutorState, task: usize, wake: Wake)
    requires
        s.wf(),
    ensures
        s.after_wake(task, wake).wf(),
        s.after_wake(task, wake).done == s.done,
{
    let t = s.after_wake(task, wake);
    if s.live(task) {
        match wake {
            Wake::Now => {
                assert forall|i: int| 0 <= i < t.ready.len() implies t.live(
                    #[trigger] t.ready[i],
                ) by {
                    if i < s.ready.len() {
                        assert(t.ready[i] == s.ready[i]);
                    }
                }
            },
            Wake::At(deadline) => {
                let k = due_count(s.timers, deadline) as int;
                crate::timer_queue::lemma_due_count_splits(s.timers, deadline);
                assert forall|i: int| 0 <= i < t.timers.len() implies t.live(
                    (#[trigger] t.timers[i]).waiter,
                ) by {
                    if i < k {
                        assert(t.timers[i] == s.timers[i]);
                    } else if i > k {
                        assert(t.timers[i] == s.timers[i - 1]);
                    }
                }
                assert forall|i: int, j: int| 0 <= i <= j < t.timers.len() implies t.timers[i].deadline
                    <= t.timers[j].deadline by {
                    if i < k {
                        assert(t.timers[i] == s.timers[i]);
                    } else if i > k {
                        assert(t.timers[i] == s.timers[i - 1]);
                    }
                    if j < k {
                        assert(t.timers[j] == s.timers[j]);
                    } else if j > k {
                        assert(t.timers[j] == s.timers[j - 1]);
                    }
                }
            },
        }
    }
}

/// To retire a task keeps the executor's state well formed.
pub proof fn lemma_retire_keeps_wf(s: ExecutorState, task: usize)
    requires
        s.wf(),
        task < s.done.len(),
    ensures
        s.after_retire(task).wf(),
        !s.after_retire(task).live(task),
{
    let t = s.after_retire(task);
    {
        lemma_without_task(s.ready, task);
        lemma_without_waiter(s.timers, task);
        assert forall|i: int| 0 <= i < t.ready.len() implies t.live(#[trigger] t.ready[i]) by {
            let j = choose|j: int| 0 <= j < s.ready.len() && s.ready[j] == t.ready[i];
            assert(s.live(s.ready[j]));
        }
        assert forall|i: int| 0 <= i < t.timers.len() implies t.live(
            (#[trigger] t.timers[i]).waiter,
        ) by {
            let j = choose|j: int| 0 <= j < s.timers.len() && s.timers[j] == t.timers[i];
            assert(s.live(s.timers[j].waiter));
        }
    }
}

/// The end of a task keeps the executor's state well formed, and the task
/// is not live after it.
pub proof fn lemma_complete_keeps_wf(s: ExecutorState, task: usize)
    requires
        s.wf(),
    ensures
        s.after_complete(task).wf(),
        !s.after_complete(task).live(task),
{
    if s.live(task) {
        lemma_retire_keeps_wf(s, task);
        match s.parents[task as int] {
            Some(parent) => {
                lemma_wake_keeps_wf(s.after_retire(task), parent, Wake::Now);
            },
            None => {},
        }
    }
}

/// Handing out the next action keeps the executor's state well formed, and
/// the task that it names for a poll is live.
pub proof fn lemma_next_keeps_wf(s: ExecutorState, now: u64)
    requires
        s.wf(),
    ensures
        s.after_next(now).wf(),
        s.after_next(now).done == s.done,
        match s.next_action(now) {
            Action::Poll(task) => s.live(task),
            Action::Idle(deadline) => deadline > now,
            Action::Deadlock => true,
        },
{
    let t = s.after_next(now);
    if s.ready.len() > 0 {
        assert(s.live(s.ready[0]));
        assert forall|i: int| 0 <= i < t.ready.len() implies t.live(#[trigger] t.ready[i]) by {
            assert(t.ready[i] == s.ready[i + 1]);
        }
    } else if s.timers.len() == 0 || s.timers[0].deadline > now {
    } else {
        let k = due_count(s.timers, now) as int;
        crate::timer_queue::lemma_due_count_splits(s.timers, now);
        assert(s.live(s.timers[0].waiter));
        assert(k >= 1);
        assert forall|i: int| 0 <= i < t.ready.len() implies t.live(#[trigger] t.ready[i]) by {
            assert(t.ready[i] == s.timers[i + 1].waiter);
        }
        assert forall|i: int| 0 <= i < t.timers.len() implies t.live(
            (#[trigger] t.timers[i]).waiter,
        ) by {
            assert(t.timers[i] == s.timers[i + k]);
        }
        assert forall|i: int, j: int| 0 <= i <= j < t.timers.len() implies t.timers[i].deadline
            <= t.timers[j].deadline by {
            assert(t.timers[i] == s.timers[i + k]);
            assert(t.timers[j] == s.timers[j + k]);
        }
    }
}

/// Passes add up: `a + b` yielding passes are `a` passes followed by `b`.
pub proof fn lemma_yield_passes_add(s: ExecutorState, now: u64, a: nat, b: nat)
    ensures
        s.after_yield_passes(now, a + b) == s.after_yield_passes(now, a).after_yield_passes(now, b),
    decreases b,
{
    if b > 0 {
        lemma_yield_passes_add(s, now, a, (b - 1) as nat);
        assert((a + b - 1) as nat == a + (b - 1) as nat);
    }
}

/// While every task that is polled yields, the ready tasks are polled in the
/// order of the queue: after `j` passes the first `j` tasks have each been
/// polled once and stand at the back, and the task polled next is the one
/// that stood at place `j`. After one pass for each task the queue is as it
/// was.
pub proof fn lemma_yield_passes_rotate(s: ExecutorState, now: u64, j: nat)
    requires
        s.wf(),
        j <= s.ready.len(),
    ensures
        s.after_yield_passes(now, j) == (ExecutorState {
            ready: s.ready.skip(j as int) + s.ready.take(j as int),
            ..s
        }),
        j < s.ready.len() ==> s.after_yield_passes(now, j).next_action(now) == Action::Poll(
            s.ready[j as int],
        ),
        j == s.ready.len() ==> s.after_yield_passes(now, j) == s,
    decreases j,
{
    if j == 0 {
        assert(s.ready.skip(0) + s.ready.take(0) =~= s.ready);
    } else {
        let i = (j - 1) as nat;
        lemma_yield_passes_rotate(s, now, i);
        let t = s.after_yield_passes(now, i);
        let task = s.ready[i as int];
        assert(t.ready[0] == task);
        assert(s.live(task));
        let u = t.after_next(now);
        assert(u.ready =~= s.ready.skip(j as int) + s.ready.take(i as int));
        assert(u.after_wake(task, Wake::Now).ready =~= s.ready.skip(j as int) + s.ready.take(
            j as int,
        ));
        if j == s.ready.len() {
            assert(s.ready.skip(j as int) + s.ready.take(j as int) =~= s.ready);
        } else {
            assert((s.ready.skip(j as int) + s.ready.take(j as int))[0] == s.ready[j as int]);
        }
    }
}

/// Yielding is fair: while every task that is polled yields, `n` ready tasks
/// are polled in turn, round after round. Pass number `rounds * n + j`,
/// counted from zero, polls the task at place `j` of the queue, so no task
/// is polled a second time before every other one was polled once, and
/// each round takes one pass for each task.
pub proof fn lemma_yielding_tasks_take_turns(s: ExecutorState, now: u64, rounds: nat, j: nat)
    requires
        s.wf(),
        j < s.ready.len(),
    ensures
        s.after_yield_passes(now, rounds * s.ready.len()) == s,
        s.after_yield_passes(now, rounds * s.ready.len() + j).next_action(now) == Action::Poll(
            s.ready[j as int],
        ),
    decreases rounds,
{
    let n = s.ready.len();
    if rounds == 0 {
        assert(rounds * n == 0) by (nonlinear_arith)
            requires
                rounds == 0,
        ;
        lemma_yield_passes_rotate(s, now, j);
    } else {
        let before = (rounds - 1) as nat;
        lemma_yielding_tasks_take_turns(s, now, before, j);
        assert(rounds * n == n + before * n) by (nonlinear_arith)
            requires
                before == rounds - 1,
        ;
        lemma_yield_passes_rotate(s, now, n);
        lemma_yield_passes_add(s, now, n, before * n);
        lemma_yield_passes_add(s, now, n, before * n + j);
    }
}

/// The ready queue, the timer queue and the record of finished tasks.
pub struct Executor {
    ready: VecDeque<usize>,
    timers: TimerQueue,
    done: Vec<bool>,
    parents: Vec<Option<usize>>,
}

impl Executor {
    /// The executor as contracts see it.
    pub closed spec fn view(&self) -> ExecutorState {
        ExecutorState {
            ready: self.ready@,
            timers: self.timers@,
            done: self.done@,
            parents: self.parents@,
        }
    }

    /// The state is well formed, see [`ExecutorState::wf`].
    pub open spec fn wf(&self) -> bool {
        self@.wf()
    }

    /// An executor without tasks.
    pub fn new() -> (ex: Self)
        ensures
            ex.wf(),
            ex@ == (ExecutorState {
                ready: Seq::empty(),
                timers: Seq::empty(),
                done: Seq::empty(),
                parents: Seq::empty(),
            }),
    {
        Executor {
            ready: VecDeque::new(),
            timers: TimerQueue::new(),
            done: Vec::new(),
            parents: Vec::new(),
        }
    }

    /// Adds a task, which is ready at once, and returns its number. A task
    /// that is part of a composed task names that one as its parent; the
    /// root task has none.
    pub fn spawn(&mut self, parent: Option<usize>) -> (task: usize)
        requires
            old(self).wf(),
        ensures
            final(self).wf(),
            task == old(self)@.done.len(),
            final(self)@ == old(self)@.after_spawn(parent),
    {
        let task: usize = self.done.len();
        self.done.push(false);
        self.parents.push(parent);
        self.ready.push_back(task);
        proof {
            let s = old(self)@;
            let t = self@;
            assert forall|i: int| 0 <= i < t.ready.len() implies t.live(#[trigger] t.ready[i]) by {
                if i < s.ready.len() {
                    assert(s.live(s.ready[i]));
                }
            }
            assert forall|i: int| 0 <= i < t.timers.len() implies t.live(
                (#[trigger] t.timers[i]).waiter,
            ) by {
                assert(s.live(s.timers[i].waiter));
            }
        }
        task
    }

    /// Number of entries in the ready queue.
    pub fn ready_len(&self) -> (n: usize)
        ensures
            n == self@.ready.len(),
    {
        self.ready.len()
    }

    /// Number of pending timers.
    pub fn timers_len(&self) -> (n: usize)
        ensures
            n == self@.timers.len(),
    {
        self.timers.len()
    }

    /// Whether the task exists and has not finished.
    pub fn is_live(&self, task: usize) -> (b: bool)
        ensures
            b == self@.live(task),
    {
        task < self.done.len() && !self.done[task]
    }

    /// Registers one wake-up for `task`: at once, at the back of the ready
    /// queue, or at a deadline, in the timer queue. Nothing is registered for
    /// a task that has finished or does not exist.
    pub fn wake(&mut self, task: usize, wake: Wake)
        requires
            old(self).wf(),
        ensures
            final(self).wf(),
            final(self)@ == old(self)@.after_wake(task, wake),
    {
        proof {
            lemma_wake_keeps_wf(self@, task, wake);
        }
        if self.is_live(task) {
            match wake {
                Wake::Now => {
                    self.ready.push_back(task);
                },
                Wake::At(deadline) => {
                    self.timers.schedule(deadline, task);
                },
            }
        }
    }

    /// Registers the wake-ups that `task` asked for in a poll, in order.
    pub fn register(&mut self, task: usize, wakes: &Vec<Wake>)
        requires
            old(self).wf(),
        ensures
            final(self).wf(),
            final(self)@ == old(self)@.after_wakes(task, wakes@),
    {
        let n: usize = wakes.len();
        let mut i: usize = 0;
        while i < n
            invariant
                0 <= i <= n,
                n == wakes@.len(),
                self.wf(),
                self@ == old(self)@.after_wakes(task, wakes@.take(i as int)),
            decreases n - i,
        {
            proof {
                let next = wakes@.take(i as int + 1);
                assert(next.drop_last() =~= wakes@.take(i as int));
                assert(next.last() == wakes@[i as int]);
            }
            self.wake(task, wakes[i]);
            i += 1;
        }
        proof {
            assert(wakes@.take(n as int) =~= wakes@);
        }
    }

    /// Records that `task` has finished and removes it from the ready queue
    /// and the timer queue, so that it is never polled again. The task that
    /// is composed of it, if there is one, is queued to take the result.
    pub fn complete(&mut self, task: usize)
        requires
            old(self).wf(),
        ensures
            final(self).wf(),
            final(self)@ == old(self)@.after_complete(task),
            !final(self)@.live(task),
    {
        proof {
            lemma_complete_keeps_wf(self@, task);
        }
        if self.is_live(task) {
            proof {
                lemma_retire_keeps_wf(self@, task);
            }
            self.done[task] = true;
            self.timers.cancel(task);
            let n: usize = self.ready.len();
            let mut kept: VecDeque<usize> = VecDeque::new();
            let mut i: usize = 0;
            while i < n
                invariant
                    n == self.ready@.len(),
                    self.ready@ == old(self).ready@,
                    0 <= i <= n,
                    kept@ == without_task(self.ready@.take(i as int), task),
                decreases n - i,
            {
                let t: usize = self.ready[i];
                proof {
                    let next = self.ready@.take(i as int + 1);
                    assert(next.drop_last() =~= self.ready@.take(i as int));
                    assert(next.last() == t);
                }
                if t != task {
                    kept.push_back(t);
                }
                i += 1;
            }
            proof {
                assert(self.ready@.take(n as int) =~= self.ready@);
            }
            self.ready = kept;
            assert(self@ == old(self)@.after_retire(task));
            match self.parents[task] {
                Some(parent) => {
                    self.wake(parent, Wake::Now);
                },
                None => {},
            }
        }
    }

    /// The task that is composed of `task`, if `task` exists and has one.
    pub fn parent_of(&self, task: usize) -> (parent: Option<usize>)
        requires
            self.wf(),
        ensures
            parent == (if task < self@.parents.len() {
                self@.parents[task as int]
            } else {
                None
            }),
    {
        if task < self.parents.len() {
            self.parents[task]
        } else {
            None
        }
    }

    /// Hands out the next action at time `now`, see
    /// [`ExecutorState::next_action`]. A task named for a poll is live.
    pub fn next(&mut self, now: u64) -> (action: Action)
        requires
            old(self).wf(),
        ensures
            final(self).wf(),
            action == old(self)@.next_action(now),
            final(self)@ == old(self)@.after_next(now),
            match action {
                Action::Poll(task) => final(self)@.live(task),
                Action::Idle(deadline) => deadline > now,
                Action::Deadlock => true,
            },
    {
        proof {
            lemma_next_keeps_wf(self@, now);
        }
        match self.ready.pop_front() {
            Some(task) => {
                assert(self.ready@ =~= old(self).ready@.drop_first());
                Action::Poll(task)
            },
            None => {
                match self.timers.earliest() {
                    None => Action::Deadlock,
                    Some(deadline) => {
                        if deadline > now {
                            Action::Idle(deadline)
                        } else {
                            let due = self.timers.drain_due(now);
                            let n: usize = due.len();
                            proof {
                                crate::timer_queue::lemma_due_count_splits(
                                    old(self).timers@,
                                    now,
                                );
                            }
                            let mut i: usize = 1;
                            while i < n
                                invariant
                                    1 <= i <= n,
                                    n == due@.len(),
                                    self.ready@ == waiters(due@.take(i as int)).drop_first(),
                                    self.timers@ == old(self).timers@.skip(n as int),
                                    self.done@ == old(self).done@,
                                    self.parents@ == old(self).parents@,
                                decreases n - i,
                            {
                                self.ready.push_back(due[i].waiter);
                                i += 1;
                                assert(self.ready@ =~= waiters(due@.take(i as int)).drop_first());
                            }
                            assert(due@.take(n as int) =~= due@);
                            Action::Poll(due[0].waiter)
                        }
                    },
                }
            },
        }
    }

    /// Books the result of a poll of the task `id`: a task that was ready is
    /// marked as finished, and for a pending one the wake-ups are registered
    /// that it asked for.
    pub fn book(&mut self, id: usize, ready: bool, wakes: &Vec<Wake>)
        requires
            old(self).wf(),
        ensures
            final(self).wf(),
            final(self)@ == (if ready {
                old(self)@.after_complete(id)
            } else {
                old(self)@.after_wakes(id, wakes@)
            }),
    {
        if ready {
            self.complete(id);
        } else {
            self.register(id, wakes);
        }
    }

    /// Polls `task`, which the executor knows as number `id`, at time `now`,
    /// and books the result, see [`Executor::book`].
    pub fn poll_task<F: Future>(&mut self, id: usize, task: &mut F, now: u64) -> (r: Poll<
        F::Output,
    >)
        requires
            old(self).wf(),
            old(task).pending(),
        ensures
            final(self).wf(),
            r == old(task).outcome(now),
            *final(task) == old(task).advance(now),
            final(task).pending() == (r is Pending),
            final(self)@ == (if r is Ready {
                old(self)@.after_complete(id)
            } else {
                old(self)@.after_wakes(id, old(task).wakes(now))
            }),
    {
        let mut cx = Context::new(now);
        let r = task.poll(&mut cx);
        let ready: bool = match &r {
            Poll::Ready(_) => true,
            Poll::Pending => false,
        };
        assert(cx.wakes@ =~= old(task).wakes(now));
        self.book(id, ready, &cx.wakes);
        r
    }
}

} // verus!
