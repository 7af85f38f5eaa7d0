//! Tasks composed of other tasks: the first of two, both of two, all of a
//! list, and a task under a time limit.

use crate::task::{
    deadline_after,
    sleep,
    Context,
    Either,
    Future,
    Immediate,
    Poll,
    Sleep,
    Wake,
};
use vstd::prelude::*;

verus! {

/// What a race reports, given what its left side reported and what its right
/// side would report: the left side wins whenever it is ready.
pub open spec fn race_outcome<A, B>(left: Poll<A>, right: Poll<B>) -> Poll<Either<A, B>> {
    match left {
        Poll::Ready(a) => Poll::Ready(Either::Left(a)),
        Poll::Pending => match right {
            Poll::Ready(b) => Poll::Ready(Either::Right(b)),
            Poll::Pending => Poll::Pending,
        },
    }
}

/// Two tasks of which the first to be ready gives the result. The other one
/// is polled no more.
pub struct Race<A, B> {
    pub left: A,
    pub right: B,
    pub done: bool,
}

/// The task that finishes with whichever of `left` and `right` is ready
/// first; if both are ready in the same poll, with `left`.
pub fn race<A: Future, B: Future>(left: A, right: B) -> (t: Race<A, B>)
    requires
        left.pending(),
        right.pending(),
    ensures
        t == (Race { left, right, done: false }),
        t.pending(),
{
    Race { left, right, done: false }
}

impl<A: Future, B: Future> Future for Race<A, B> {
    type Output = Either<A::Output, B::Output>;

    open spec fn pending(&self) -> bool {
        !self.done && self.left.pending() && self.right.pending()
    }

    open spec fn outcome(&self, now: u64) -> Poll<Either<A::Output, B::Output>> {
        race_outcome(self.left.outcome(now), self.right.outcome(now))
    }

    open spec fn advance(&self, now: u64) -> Self {
        if self.left.outcome(now) is Ready {
            Race { left: self.left.advance(now), right: self.right, done: true }
        } else {
            Race {
                left: self.left.advance(now),
                right: self.right.advance(now),
                done: self.right.outcome(now) is Ready,
            }
        }
    }

    open spec fn wakes(&self, now: u64) -> Seq<Wake> {
        if self.left.outcome(now) is Ready {
            self.left.wakes(now)
        } else {
            self.left.wakes(now) + self.right.wakes(now)
        }
    }

    fn is_pending(&self) -> (b: bool) {
        !self.done && self.left.is_pending() && self.right.is_pending()
    }

    fn poll(&mut self, cx: &mut Context) -> (r: Poll<Self::Output>) {
        match self.left.poll(cx) {
            Poll::Ready(a) => {
                self.done = true;
                Poll::Ready(Either::Left(a))
            },
            Poll::Pending => match self.right.poll(cx) {
                Poll::Ready(b) => {
                    self.done = true;
                    Poll::Ready(Either::Right(b))
                },
                Poll::Pending => Poll::Pending,
            },
        }
    }
}

/// The value that a side of a join holds after a poll at `now`: the one it
/// had, or the one that its task reports now.
pub open spec fn slot_after<F: Future>(slot: Option<F::Output>, task: F, now: u64) -> Option<
    F::Output,
> {
    match slot {
        Some(v) => Some(v),
        None => match task.outcome(now) {
            Poll::Ready(v) => Some(v),
            Poll::Pending => None,
        },
    }
}

/// The state of a side's task after a poll of the join at `now`: a side that
/// holds its value is polled no more.
pub open spec fn task_after<F: Future>(slot: Option<F::Output>, task: F, now: u64) -> F {
    if slot is Some {
        task
    } else {
        task.advance(now)
    }
}

/// The wake-ups that a side of a join asks for in a poll at `now`.
pub open spec fn wakes_of_side<F: Future>(slot: Option<F::Output>, task: F, now: u64) -> Seq<
    Wake,
> {
    if slot is Some {
        Seq::empty()
    } else {
        task.wakes(now)
    }
}

/// Two tasks that are both run to their end. Each side keeps its value from
/// the poll in which it was ready until the other side is ready too.
pub struct Join<A: Future, B: Future> {
    pub left: A,
    pub right: B,
    pub left_value: Option<A::Output>,
    pub right_value: Option<B::Output>,
    pub done: bool,
}

/// The task that finishes when both `left` and `right` have, with both values
/// in that order.
pub fn join<A: Future, B: Future>(left: A, right: B) -> (t: Join<A, B>)
    requires
        left.pending(),
        right.pending(),
    ensures
        t == (Join { left, right, left_value: None, right_value: None, done: false }),
        t.pending(),
{
    Join { left, right, left_value: None, right_value: None, done: false }
}

impl<A: Future, B: Future> Future for Join<A, B> {
    type Output = (A::Output, B::Output);

    open spec fn pending(&self) -> bool {
        &&& !self.done
        &&& self.left_value is None ==> self.left.pending()
        &&& self.right_value is None ==> self.right.pending()
        &&& self.left_value is None || self.right_value is None
    }

    open spec fn outcome(&self, now: u64) -> Poll<(A::Output, B::Output)> {
        let l = slot_after(self.left_value, self.left, now);
        let r = slot_after(self.right_value, self.right, now);
        if l is Some && r is Some {
            Poll::Ready((l->0, r->0))
        } else {
            Poll::Pending
        }
    }

    open spec fn advance(&self, now: u64) -> Self {
        let l = slot_after(self.left_value, self.left, now);
        let r = slot_after(self.right_value, self.right, now);
        let both = l is Some && r is Some;
        Join {
            left: task_after(self.left_value, self.left, now),
            right: task_after(self.right_value, self.right, now),
            left_value: if both {
                None
            } else {
                l
            },
            right_value: if both {
                None
            } else {
                r
            },
            done: both,
        }
    }

    open spec fn wakes(&self, now: u64) -> Seq<Wake> {
        wakes_of_side(self.left_value, self.left, now) + wakes_of_side(
            self.right_value,
            self.right,
            now,
        )
    }

    fn is_pending(&self) -> (b: bool) {
        !self.done && (self.left_value.is_some() || self.left.is_pending()) && (
        self.right_value.is_some() || self.right.is_pending()) && (self.left_value.is_none()
            || self.right_value.is_none())
    }

    fn poll(&mut self, cx: &mut Context) -> (r: Poll<Self::Output>) {
        if self.left_value.is_none() {
            match self.left.poll(cx) {
                Poll::Ready(v) => {
                    self.left_value = Some(v);
                },
                Poll::Pending => {},
            }
        }
        if self.right_value.is_none() {
            match self.right.poll(cx) {
                Poll::Ready(v) => {
                    self.right_value = Some(v);
                },
                Poll::Pending => {},
            }
        }
        if self.left_value.is_some() && self.right_value.is_some() {
            let l = self.left_value.take();
            let r = self.right_value.take();
            self.done = true;
            Poll::Ready((l.unwrap(), r.unwrap()))
        } else {
            Poll::Pending
        }
    }
}

/// The wake-ups that the first `n` tasks of a list ask for in a poll at `now`,
/// in the order of the list. A task that holds its value asks for none.
pub open spec fn wakes_of_list<F: Future>(
    tasks: Seq<F>,
    values: Seq<Option<F::Output>>,
    now: u64,
    n: int,
) -> Seq<Wake>
    decreases n,
{
    if n <= 0 {
        Seq::empty()
    } else {
        wakes_of_list(tasks, values, now, n - 1) + wakes_of_side(values[n - 1], tasks[n - 1], now)
    }
}

/// A list of tasks that are all run to their end. The value of each task is
/// kept at the task's own place in the list, whenever it arrives.
pub struct JoinAll<F: Future> {
    pub tasks: Vec<F>,
    pub values: Vec<Option<F::Output>>,
    pub done: bool,
}

/// The task that finishes when every task of `tasks` has, with their values in
/// the order of `tasks`.
pub fn join_all<F: Future>(tasks: Vec<F>) -> (t: JoinAll<F>)
    requires
        forall|i: int| 0 <= i < tasks@.len() ==> (#[trigger] tasks@[i]).pending(),
    ensures
        t.tasks@ == tasks@,
        t.values@ == Seq::new(tasks@.len(), |i: int| None::<F::Output>),
        !t.done,
        t.pending(),
{
    let n: usize = tasks.len();
    let mut values: Vec<Option<F::Output>> = Vec::new();
    let mut i: usize = 0;
    while i < n
        invariant
            0 <= i <= n,
            values@ == Seq::new(i as nat, |k: int| None::<F::Output>),
        decreases n - i,
    {
        values.push(None);
        i += 1;
        assert(values@ =~= Seq::new(i as nat, |k: int| None::<F::Output>));
    }
    JoinAll { tasks, values, done: false }
}

impl<F: Future> JoinAll<F> {
    /// The task may be polled: it has not yet reported its values, and every
    /// task whose value is still missing may be polled.
    pub open spec fn pending(&self) -> bool {
        &&& !self.done
        &&& self.tasks@.len() == self.values@.len()
        &&& forall|i: int|
            0 <= i < self.tasks@.len() && self.values@[i] is None ==> (
            #[trigger] self.tasks@[i]).pending()
    }

    /// Whether the task may be polled.
    pub fn is_pending(&self) -> (b: bool)
        ensures
            b == self.pending(),
    {
        if self.done || self.tasks.len() != self.values.len() {
            return false;
        }
        let n: usize = self.tasks.len();
        let mut i: usize = 0;
        while i < n
            invariant
                0 <= i <= n,
                n == self.tasks@.len(),
                n == self.values@.len(),
                forall|k: int|
                    0 <= k < i && self.values@[k] is None ==> (#[trigger] self.tasks@[k]).pending(),
            decreases n - i,
        {
            if self.values[i].is_none() && !self.tasks[i].is_pending() {
                return false;
            }
            i += 1;
        }
        true
    }

    /// The value at place `i` after a poll at `now`.
    pub open spec fn value_after(&self, now: u64, i: int) -> Option<F::Output> {
        slot_after(self.values@[i], self.tasks@[i], now)
    }

    /// After a poll at `now` every task has given its value.
    pub open spec fn complete_after(&self, now: u64) -> bool {
        forall|i: int| 0 <= i < self.tasks@.len() ==> self.value_after(now, i) is Some
    }

    /// Polls once every task whose value is still missing, in the order of
    /// the list. Ready, with all values in the order of the list, as soon as
    /// none is missing.
    pub fn poll(&mut self, cx: &mut Context) -> (r: Poll<Vec<F::Output>>)
        requires
            old(self).pending(),
        ensures
            (r is Ready) == old(self).complete_after(old(cx).now),
            final(self).pending() == (r is Pending),
            final(self).done == (r is Ready),
            final(self).tasks@.len() == old(self).tasks@.len(),
            final(self).values@.len() == old(self).tasks@.len(),
            forall|i: int|
                0 <= i < old(self).tasks@.len() ==> #[trigger] final(self).tasks@[i] == task_after(
                    old(self).values@[i],
                    old(self).tasks@[i],
                    old(cx).now,
                ),
            match r {
                Poll::Ready(out) => {
                    &&& out@.len() == old(self).tasks@.len()
                    &&& forall|i: int|
                        0 <= i < out@.len() ==> Some(#[trigger] out@[i]) == old(self).value_after(
                            old(cx).now,
                            i,
                        )
                    &&& forall|i: int|
                        0 <= i < out@.len() ==> #[trigger] final(self).values@[i] is None
                },
                Poll::Pending => forall|i: int|
                    0 <= i < old(self).tasks@.len() ==> #[trigger] final(self).values@[i]
                        == old(self).value_after(old(cx).now, i),
            },
            final(cx).now == old(cx).now,
            final(cx).wakes@ == old(cx).wakes@ + wakes_of_list(
                old(self).tasks@,
                old(self).values@,
                old(cx).now,
                old(self).tasks@.len() as int,
            ),
    {
        let n: usize = self.tasks.len();
        let ghost before = *self;
        let ghost now = cx.now;
        let mut all: bool = true;
        let mut i: usize = 0;
        while i < n
            invariant
                0 <= i <= n,
                n == before.tasks@.len(),
                before.pending(),
                !self.done,
                cx.now == now,
                self.tasks@.len() == n,
                self.values@.len() == n,
                forall|k: int|
                    0 <= k < i ==> #[trigger] self.tasks@[k] == task_after(
                        before.values@[k],
                        before.tasks@[k],
                        now,
                    ),
                forall|k: int| 0 <= k < i ==> #[trigger] self.values@[k] == before.value_after(now, k),
                forall|k: int| i <= k < n ==> #[trigger] self.tasks@[k] == before.tasks@[k],
                forall|k: int| i <= k < n ==> #[trigger] self.values@[k] == before.values@[k],
                forall|k: int|
                    0 <= k < n && self.values@[k] is None ==> (#[trigger] self.tasks@[k]).pending(),
                all == (forall|k: int| 0 <= k < i ==> before.value_after(now, k) is Some),
                cx.wakes@ == old(cx).wakes@ + wakes_of_list(
                    before.tasks@,
                    before.values@,
                    now,
                    i as int,
                ),
            decreases n - i,
        {
            if self.values[i].is_none() {
                assert(before.tasks@[i as int].pending());
                match self.tasks[i].poll(cx) {
                    Poll::Ready(v) => {
                        self.values[i] = Some(v);
                    },
                    Poll::Pending => {
                        all = false;
                    },
                }
            }
            proof {
                assert(cx.wakes@ =~= old(cx).wakes@ + wakes_of_list(
                    before.tasks@,
                    before.values@,
                    now,
                    i as int + 1,
                ));
            }
            i += 1;
        }
        if all {
            let mut out: Vec<F::Output> = Vec::new();
            let mut j: usize = 0;
            while j < n
                invariant
                    0 <= j <= n,
                    n == before.tasks@.len(),
                    n == before.values@.len(),
                    self.values@.len() == n,
                    self.tasks@.len() == n,
                    out@.len() == j,
                    forall|k: int| 0 <= k < n ==> before.value_after(now, k) is Some,
                    forall|k: int| 0 <= k < j ==> Some(#[trigger] out@[k]) == before.value_after(now, k),
                    forall|k: int| 0 <= k < j ==> #[trigger] self.values@[k] is None,
                    forall|k: int| j <= k < n ==> #[trigger] self.values@[k] == before.value_after(now, k),
                    forall|k: int|
                        0 <= k < n ==> #[trigger] self.tasks@[k] == task_after(
                            before.values@[k],
                            before.tasks@[k],
                            now,
                        ),
                    !self.done,
                decreases n - j,
            {
                let v = self.values[j].take();
                out.push(v.unwrap());
                j += 1;
            }
            self.done = true;
            Poll::Ready(out)
        } else {
            Poll::Pending
        }
    }
}

/// The result of a task under a time limit, from the race between the task
/// and the timer: the task's value if it won, the limit if the timer did.
pub fn timeout_result<T>(first: Either<T, ()>, max_time: u64) -> (r: Result<T, u64>)
    ensures
        r == spec_timeout_result(first, max_time),
{
    match first {
        Either::Left(output) => Ok(output),
        Either::Right(_) => Err(max_time),
    }
}

/// The result of a task under a time limit, see [`timeout_result`].
pub open spec fn spec_timeout_result<T>(first: Either<T, ()>, max_time: u64) -> Result<T, u64> {
    match first {
        Either::Left(output) => Ok(output),
        Either::Right(_) => Err(max_time),
    }
}

/// A task raced against a timer.
pub struct Timeout<F> {
    pub race: Race<F, Sleep>,
    pub max_time: u64,
}

/// The task that finishes with `Ok` of the value of `task` if that is ready
/// before `max_time` ticks have passed since the first poll, and with `Err`
/// of `max_time` otherwise. If both happen in the same poll, the task wins.
pub fn timeout<F: Future>(task: F, max_time: u64) -> (t: Timeout<F>)
    requires
        task.pending(),
    ensures
        t == (Timeout { race: Race { left: task, right: sleep_spec(max_time), done: false }, max_time }),
        t.pending(),
{
    Timeout { race: race(task, sleep(max_time)), max_time }
}

/// The state of a sleep of `duration` ticks that was not polled yet.
pub open spec fn sleep_spec(duration: u64) -> Sleep {
    Sleep { duration, deadline: None, done: false }
}

impl<F: Future> Future for Timeout<F> {
    type Output = Result<F::Output, u64>;

    open spec fn pending(&self) -> bool {
        self.race.pending()
    }

    open spec fn outcome(&self, now: u64) -> Poll<Result<F::Output, u64>> {
        match self.race.outcome(now) {
            Poll::Ready(first) => Poll::Ready(spec_timeout_result(first, self.max_time)),
            Poll::Pending => Poll::Pending,
        }
    }

    open spec fn advance(&self, now: u64) -> Self {
        Timeout { race: self.race.advance(now), max_time: self.max_time }
    }

    open spec fn wakes(&self, now: u64) -> Seq<Wake> {
        self.race.wakes(now)
    }

    fn is_pending(&self) -> (b: bool) {
        self.race.is_pending()
    }

    fn poll(&mut self, cx: &mut Context) -> (r: Poll<Self::Output>) {
        match self.race.poll(cx) {
            Poll::Ready(first) => Poll::Ready(timeout_result(first, self.max_time)),
            Poll::Pending => Poll::Pending,
        }
    }
}

/// What a series of polls of `task` at the given times ends with. The task is
/// polled no more once it was ready.
pub open spec fn outcome_of_polls<F: Future>(task: F, times: Seq<u64>) -> Poll<F::Output>
    decreases times.len(),
{
    if times.len() == 0 {
        Poll::Pending
    } else if task.outcome(times[0]) is Ready {
        task.outcome(times[0])
    } else {
        outcome_of_polls(task.advance(times[0]), times.drop_first())
    }
}

/// A race between two sleeps whose deadlines are fixed, the left one no later
/// than the right one, ends with the left side at the first poll that is not
/// before the left deadline, and is pending until then.
pub proof fn lemma_race_of_armed_sleeps(left: Sleep, right: Sleep, times: Seq<u64>)
    requires
        left.deadline is Some,
        right.deadline is Some,
        left.deadline->0 <= right.deadline->0,
        !left.done,
        !right.done,
    ensures
        outcome_of_polls(Race { left, right, done: false }, times) == (if exists|i: int|
            0 <= i < times.len() && times[i] >= left.deadline->0 {
            Poll::Ready(Either::<(), ()>::Left(()))
        } else {
            Poll::Pending
        }),
    decreases times.len(),
{
    let task = Race { left, right, done: false };
    if times.len() == 0 {
    } else if times[0] >= left.deadline->0 {
        assert(task.outcome(times[0]) == Poll::Ready(Either::<(), ()>::Left(())));
    } else {
        let rest = times.drop_first();
        assert(task.outcome(times[0]) is Pending);
        assert(task.advance(times[0]) == task);
        lemma_race_of_armed_sleeps(left, right, rest);
        if exists|i: int| 0 <= i < times.len() && times[i] >= left.deadline->0 {
            let i = choose|i: int| 0 <= i < times.len() && times[i] >= left.deadline->0;
            assert(rest[i - 1] == times[i]);
        }
        if exists|i: int| 0 <= i < rest.len() && rest[i] >= left.deadline->0 {
            let i = choose|i: int| 0 <= i < rest.len() && rest[i] >= left.deadline->0;
            assert(times[i + 1] == rest[i]);
        }
    }
}

/// A race between a shorter sleep on the left and a longer one on the right
/// never ends with the right side, at whatever times it is polled: it ends
/// with the left side at the first poll, after the one that starts the two
/// sleeps, at which the shorter sleep is over.
pub proof fn lemma_race_of_sleeps_resolves_left(short: u64, long: u64, times: Seq<u64>)
    requires
        short < long,
        times.len() > 0,
    ensures
        outcome_of_polls(
            Race { left: sleep_spec(short), right: sleep_spec(long), done: false },
            times,
        ) == (if exists|i: int|
            1 <= i < times.len() && #[trigger] times[i] >= deadline_after(times[0], short) {
            Poll::Ready(Either::<(), ()>::Left(()))
        } else {
            Poll::Pending
        }),
{
    let task = Race { left: sleep_spec(short), right: sleep_spec(long), done: false };
    let start = times[0];
    let rest = times.drop_first();
    let left = sleep_spec(short).advance(start);
    let right = sleep_spec(long).advance(start);
    assert(task.outcome(start) is Pending);
    assert(task.advance(start) == Race { left, right, done: false });
    lemma_race_of_armed_sleeps(left, right, rest);
    let d = deadline_after(start, short);
    if exists|i: int| 1 <= i < times.len() && #[trigger] times[i] >= d {
        let i = choose|i: int| 1 <= i < times.len() && #[trigger] times[i] >= d;
        assert(rest[i - 1] == times[i]);
    }
    if exists|i: int| 0 <= i < rest.len() && rest[i] >= d {
        let i = choose|i: int| 0 <= i < rest.len() && rest[i] >= d;
        assert(times[i + 1] == rest[i]);
    }
}

/// The largest of a list of durations; zero for the empty list.
pub open spec fn max_duration(durations: Seq<u64>) -> u64
    decreases durations.len(),
{
    if durations.len() == 0 {
        0
    } else {
        let m = max_duration(durations.drop_last());
        if durations.last() > m {
            durations.last()
        } else {
            m
        }
    }
}

/// A time is past the end of the longest of a list of sleeps that start
/// together exactly when it is past the end of each of them.
pub proof fn lemma_longest_sleep_ends_last(durations: Seq<u64>, start: u64, now: u64)
    ensures
        now >= deadline_after(start, max_duration(durations)) <==> now >= start && forall|i: int|
            0 <= i < durations.len() ==> now >= deadline_after(start, #[trigger] durations[i]),
    decreases durations.len(),
{
    if durations.len() > 0 {
        let init = durations.drop_last();
        lemma_longest_sleep_ends_last(init, start, now);
        if now >= deadline_after(start, max_duration(durations)) {
            assert forall|i: int| 0 <= i < durations.len() implies now >= deadline_after(
                start,
                #[trigger] durations[i],
            ) by {
                if i < init.len() {
                    assert(init[i] == durations[i]);
                }
            }
        }
        if now >= start && forall|i: int|
            0 <= i < durations.len() ==> now >= deadline_after(start, #[trigger] durations[i]) {
            assert forall|i: int| 0 <= i < init.len() implies now >= deadline_after(
                start,
                #[trigger] init[i],
            ) by {
                assert(init[i] == durations[i]);
            }
            assert(now >= deadline_after(start, durations.last()));
        }
    }
}

/// A list of sleeps that is joined and first polled at `start` is not ready
/// then, and is ready at a second poll exactly when the longest sleep is
/// over. `armed` is the state that the first poll leaves of `fresh`.
pub proof fn lemma_join_all_of_sleeps_waits_for_longest(
    fresh: JoinAll<Sleep>,
    armed: JoinAll<Sleep>,
    durations: Seq<u64>,
    start: u64,
    now: u64,
)
    requires
        durations.len() > 0,
        fresh.tasks@.len() == durations.len(),
        fresh.values@.len() == durations.len(),
        forall|i: int|
            0 <= i < durations.len() ==> #[trigger] fresh.tasks@[i] == sleep_spec(durations[i])
                && fresh.values@[i] is None,
        armed.tasks@.len() == durations.len(),
        armed.values@.len() == durations.len(),
        forall|i: int|
            0 <= i < durations.len() ==> #[trigger] armed.tasks@[i] == task_after(
                fresh.values@[i],
                fresh.tasks@[i],
                start,
            ),
        forall|i: int|
            0 <= i < durations.len() ==> #[trigger] armed.values@[i] == fresh.value_after(start, i),
    ensures
        !fresh.complete_after(start),
        armed.complete_after(now) <==> now >= deadline_after(start, max_duration(durations)),
{
    assert(fresh.tasks@[0] == sleep_spec(durations[0]));
    assert(fresh.value_after(start, 0) is None);
    lemma_longest_sleep_ends_last(durations, start, now);
    assert(deadline_after(start, durations[0]) >= start);
    assert forall|i: int| 0 <= i < durations.len() implies (armed.value_after(now, i) is Some
        <==> now >= deadline_after(start, #[trigger] durations[i])) by {
        assert(fresh.tasks@[i] == sleep_spec(durations[i]));
        assert(armed.tasks@[i] == task_after(fresh.values@[i], fresh.tasks@[i], start));
        assert(armed.values@[i] == fresh.value_after(start, i));
    }
    if armed.complete_after(now) {
        assert forall|i: int| 0 <= i < durations.len() implies now >= deadline_after(
            start,
            #[trigger] durations[i],
        ) by {
            assert(armed.value_after(now, i) is Some);
        }
    }
}

/// A task that is ready at once beats every time limit: under a limit it
/// gives `Ok` of its value at the first poll, whenever that is.
pub proof fn lemma_timeout_of_ready_task<T>(value: T, max_time: u64, now: u64)
    ensures
        (Timeout {
            race: Race {
                left: Immediate { value: Some(value) },
                right: sleep_spec(max_time),
                done: false,
            },
            max_time,
        }).outcome(now) == Poll::Ready(Ok::<T, u64>(value)),
{
}

/// A sleep under a time limit, first polled at `start` and polled again at
/// `now`: it is pending before the earlier of the two deadlines, gives `Err`
/// of the limit from the deadline of the limit on if the sleep is not over,
/// and `Ok` once the sleep is over, also when both end together.
pub proof fn lemma_timeout_of_sleep(duration: u64, max_time: u64, start: u64, now: u64)
    ensures
        (Timeout {
            race: Race { left: sleep_spec(duration), right: sleep_spec(max_time), done: false },
            max_time,
        }).outcome(start) is Pending,
        (Timeout {
            race: Race { left: sleep_spec(duration), right: sleep_spec(max_time), done: false },
            max_time,
        }).advance(start).outcome(now) == (if now >= deadline_after(start, duration) {
            Poll::Ready(Ok::<(), u64>(()))
        } else if now >= deadline_after(start, max_time) {
            Poll::Ready(Err::<(), u64>(max_time))
        } else {
            Poll::Pending
        }),
{
}

} // verus!
