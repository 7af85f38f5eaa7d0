//! Tasks as explicit state machines: a task is polled with the current time
//! and either produces its value or stays pending after registering, in the
//! poll's context, what will wake it.

use vstd::prelude::*;

verus! {

/// What a poll of a task reports.
#[derive(Debug, PartialEq, Eq)]
pub enum Poll<T> {
    /// The task has produced its final value.
    Ready(T),
    /// The task has no value yet.
    Pending,
}

/// The result of a race: the value of the side that finished first.
#[derive(Debug, PartialEq, Eq)]
pub enum Either<A, B> {
    Left(A),
    Right(B),
}

/// A wake-up that a pending task asks for.
#[derive(Clone, Copy, Debug, PartialEq, Eq, Structural)]
pub enum Wake {
    /// Poll again in the next pass over the ready queue.
    Now,
    /// Poll again once the clock has reached this time.
    At(u64),
}

/// What a task sees while it is polled: the current time, and the list to
/// which it adds the wake-ups it asks for.
pub struct Context {
    pub now: u64,
    pub wakes: Vec<Wake>,
}

impl Context {
    /// A context for one poll at time `now`, with no wake-up asked for yet.
    pub fn new(now: u64) -> (cx: Self)
        ensures
            cx.now == now,
            cx.wakes@ == Seq::<Wake>::empty(),
    {
        Context { now, wakes: Vec::new() }
    }
}

/// The time at which a sleep of `duration` that starts at `now` ends. Time
/// stops at the largest value the clock can show.
pub open spec fn deadline_after(now: u64, duration: u64) -> u64 {
    if now + duration > u64::MAX {
        u64::MAX
    } else {
        (now + duration) as u64
    }
}

/// A suspendable computation. Its behaviour is a function of its state and of
/// the time of the poll: `outcome` is what the poll reports, `advance` the
/// state it leaves, `wakes` the wake-ups it asks for.
pub trait Future: Sized {
    type Output;

    /// The task may be polled: it has not yet reported its value.
    spec fn pending(&self) -> bool;

    /// What a poll at time `now` reports.
    spec fn outcome(&self, now: u64) -> Poll<Self::Output>;

    /// The state that a poll at time `now` leaves.
    spec fn advance(&self, now: u64) -> Self;

    /// The wake-ups that a poll at time `now` asks for.
    spec fn wakes(&self, now: u64) -> Seq<Wake>;

    /// Whether the task may be polled.
    fn is_pending(&self) -> (b: bool)
        ensures
            b == self.pending(),
    ;

    /// Polls the task once. A task is never polled after it was ready.
    fn poll(&mut self, cx: &mut Context) -> (r: Poll<Self::Output>)
        requires
            old(self).pending(),
        ensures
            r == old(self).outcome(old(cx).now),
            *final(self) == old(self).advance(old(cx).now),
            final(self).pending() == (r is Pending),
            final(cx).now == old(cx).now,
            final(cx).wakes@ == old(cx).wakes@ + old(self).wakes(old(cx).now),
    ;
}

/// A task that is ready with a given value at its first poll.
pub struct Immediate<T> {
    pub value: Option<T>,
}

/// The task that is ready with `value` at once.
pub fn ready<T>(value: T) -> (t: Immediate<T>)
    ensures
        t.value == Some(value),
        t.pending(),
{
    Immediate { value: Some(value) }
}

impl<T> Future for Immediate<T> {
    type Output = T;

    open spec fn pending(&self) -> bool {
        self.value is Some
    }

    open spec fn outcome(&self, now: u64) -> Poll<T> {
        Poll::Ready(self.value->0)
    }

    open spec fn advance(&self, now: u64) -> Self {
        Immediate { value: None }
    }

    open spec fn wakes(&self, now: u64) -> Seq<Wake> {
        Seq::empty()
    }

    fn is_pending(&self) -> (b: bool) {
        self.value.is_some()
    }

    fn poll(&mut self, cx: &mut Context) -> (r: Poll<T>) {
        let value = self.value.take();
        Poll::Ready(value.unwrap())
    }
}

/// A task that is ready once the clock has reached a deadline, which its first
/// poll fixes.
pub struct Sleep {
    pub duration: u64,
    pub deadline: Option<u64>,
    pub done: bool,
}

/// The task that waits for `duration` ticks, counted from its first poll.
pub fn sleep(duration: u64) -> (t: Sleep)
    ensures
        t == (Sleep { duration, deadline: None, done: false }),
        t.pending(),
{
    Sleep { duration, deadline: None, done: false }
}

impl Future for Sleep {
    type Output = ();

    open spec fn pending(&self) -> bool {
        !self.done
    }

    open spec fn outcome(&self, now: u64) -> Poll<()> {
        match self.deadline {
            Some(d) => if now >= d {
                Poll::Ready(())
            } else {
                Poll::Pending
            },
            None => Poll::Pending,
        }
    }

    open spec fn advance(&self, now: u64) -> Self {
        match self.deadline {
            Some(d) => Sleep { duration: self.duration, deadline: self.deadline, done: now >= d },
            None => Sleep {
                duration: self.duration,
                deadline: Some(deadline_after(now, self.duration)),
                done: false,
            },
        }
    }

    open spec fn wakes(&self, now: u64) -> Seq<Wake> {
        match self.deadline {
            Some(d) => Seq::empty(),
            None => seq![Wake::At(deadline_after(now, self.duration))],
        }
    }

    fn is_pending(&self) -> (b: bool) {
        !self.done
    }

    fn poll(&mut self, cx: &mut Context) -> (r: Poll<()>) {
        match self.deadline {
            Some(d) => {
                if cx.now >= d {
                    self.done = true;
                    Poll::Ready(())
                } else {
                    Poll::Pending
                }
            },
            None => {
                let d: u64 = cx.now.saturating_add(self.duration);
                self.deadline = Some(d);
                cx.wakes.push(Wake::At(d));
                Poll::Pending
            },
        }
    }
}

/// A task that is pending at its first poll, asks to be polled again in the
/// next pass, and is ready at its second poll.
pub struct YieldNow {
    pub yielded: bool,
    pub done: bool,
}

/// The task that cedes the executor to the other ready tasks once.
pub fn yield_now() -> (t: YieldNow)
    ensures
        t == (YieldNow { yielded: false, done: false }),
        t.pending(),
{
    YieldNow { yielded: false, done: false }
}

impl Future for YieldNow {
    type Output = ();

    open spec fn pending(&self) -> bool {
        !self.done
    }

    open spec fn outcome(&self, now: u64) -> Poll<()> {
        if self.yielded {
            Poll::Ready(())
        } else {
            Poll::Pending
        }
    }

    open spec fn advance(&self, now: u64) -> Self {
        YieldNow { yielded: true, done: self.yielded }
    }

    open spec fn wakes(&self, now: u64) -> Seq<Wake> {
        if self.yielded {
            Seq::empty()
        } else {
            seq![Wake::Now]
        }
    }

    fn is_pending(&self) -> (b: bool) {
        !self.done
    }

    fn poll(&mut self, cx: &mut Context) -> (r: Poll<()>) {
        if self.yielded {
            self.done = true;
            Poll::Ready(())
        } else {
            self.yielded = true;
            cx.wakes.push(Wake::Now);
            Poll::Pending
        }
    }
}

} // verus!
