//! The queue between producers on other threads and the one task that
//! consumes: messages leave in the order in which they were sent, and the
//! consumer learns that the channel is closed only after the last of them.
//!
//! This is the state behind the handles. Whoever shares it between threads
//! holds it under a lock for the length of one call.

use crate::task::Poll;
use std::collections::VecDeque;
use vstd::prelude::*;

verus! {

/// The error of a send that the channel did not take; it gives the message
/// back.
#[derive(Debug, PartialEq, Eq)]
pub struct Closed<T>(pub T);

/// A channel as contracts see it.
pub struct ChannelState<T> {
    /// The messages sent and not yet received, oldest first.
    pub buffered: Seq<T>,
    /// The number of producer handles.
    pub senders: nat,
    /// The consumer handle exists.
    pub receiver_alive: bool,
    /// The task of the consumer, if it found the channel empty and waits to
    /// be woken.
    pub waiter: Option<usize>,
}

impl<T> ChannelState<T> {
    /// No producer handle is left.
    pub open spec fn closed(self) -> bool {
        self.senders == 0
    }

    /// A send is taken: there is a consumer, and the channel is not closed.
    pub open spec fn accepts(self) -> bool {
        self.receiver_alive && self.senders > 0
    }

    /// The state that a send of `msg` leaves.
    pub open spec fn after_send(self, msg: T) -> Self {
        if self.accepts() {
            ChannelState { buffered: self.buffered.push(msg), waiter: None, ..self }
        } else {
            self
        }
    }

    /// What a receive reports.
    pub open spec fn received(self) -> Poll<Option<T>> {
        if self.buffered.len() > 0 {
            Poll::Ready(Some(self.buffered[0]))
        } else if self.closed() {
            Poll::Ready(None)
        } else {
            Poll::Pending
        }
    }

    /// The state that a receive by the task `waiter` leaves: the oldest
    /// message is taken, or, on an empty channel that is not closed, the
    /// task is noted as waiting.
    pub open spec fn after_receive(self, waiter: usize) -> Self {
        if self.buffered.len() > 0 {
            ChannelState { buffered: self.buffered.drop_first(), ..self }
        } else if self.closed() {
            self
        } else {
            ChannelState { waiter: Some(waiter), ..self }
        }
    }

    /// The state that the loss of one producer handle leaves.
    pub open spec fn after_close(self) -> Self {
        if self.senders == 1 {
            ChannelState { senders: 0, waiter: None, ..self }
        } else if self.senders > 1 {
            ChannelState { senders: (self.senders - 1) as nat, ..self }
        } else {
            self
        }
    }

    /// The state after the messages of `msgs` were sent one after the other.
    pub open spec fn after_sends(self, msgs: Seq<T>) -> Self
        decreases msgs.len(),
    {
        if msgs.len() == 0 {
            self
        } else {
            self.after_send(msgs[0]).after_sends(msgs.drop_first())
        }
    }

    /// What `n` receives in a row by the task `waiter` report, with no send
    /// or close in between.
    pub open spec fn receives(self, waiter: usize, n: nat) -> Seq<Poll<Option<T>>>
        decreases n,
    {
        if n == 0 {
            Seq::empty()
        } else {
            seq![self.received()] + self.after_receive(waiter).receives(waiter, (n - 1) as nat)
        }
    }
}

/// Sends on a channel that takes them add the messages behind what is
/// buffered, in the order of sending.
pub proof fn lemma_sends_append<T>(s: ChannelState<T>, msgs: Seq<T>)
    requires
        s.accepts(),
    ensures
        s.after_sends(msgs).buffered == s.buffered + msgs,
        s.after_sends(msgs).senders == s.senders,
        s.after_sends(msgs).receiver_alive == s.receiver_alive,
    decreases msgs.len(),
{
    if msgs.len() == 0 {
        assert(s.buffered + msgs =~= s.buffered);
    } else {
        let t = s.after_send(msgs[0]);
        lemma_sends_append(t, msgs.drop_first());
        assert(t.buffered + msgs.drop_first() =~= s.buffered + msgs);
    }
}

/// Receives give the buffered messages oldest first, each once. When none is
/// left, every further receive reports the end on a closed channel and is
/// pending on an open one.
pub proof fn lemma_receives_in_order<T>(s: ChannelState<T>, waiter: usize, n: nat)
    ensures
        s.receives(waiter, n).len() == n,
        forall|i: int|
            0 <= i < n ==> #[trigger] s.receives(waiter, n)[i] == (if i < s.buffered.len() {
                Poll::Ready(Some(s.buffered[i]))
            } else if s.closed() {
                Poll::Ready(None)
            } else {
                Poll::Pending
            }),
    decreases n,
{
    if n > 0 {
        let t = s.after_receive(waiter);
        let m = (n - 1) as nat;
        lemma_receives_in_order(t, waiter, m);
        assert forall|i: int| 0 <= i < n implies #[trigger] s.receives(waiter, n)[i] == (if i
            < s.buffered.len() {
            Poll::Ready(Some(s.buffered[i]))
        } else if s.closed() {
            Poll::Ready(None)
        } else {
            Poll::Pending
        }) by {
            if i > 0 {
                assert(s.receives(waiter, n)[i] == t.receives(waiter, m)[i - 1]);
                if s.buffered.len() > 0 {
                    assert(t.buffered =~= s.buffered.drop_first());
                    if i < s.buffered.len() {
                        assert(t.buffered[i - 1] == s.buffered[i]);
                    }
                }
            }
        }
    }
}

/// A closed channel gives exactly what is buffered, oldest first, and then
/// the end, as often as it is asked: no receive on it is pending, and none
/// waits.
pub proof fn lemma_closed_channel_drains<T>(s: ChannelState<T>, waiter: usize, n: nat)
    requires
        s.closed(),
    ensures
        s.receives(waiter, n).len() == n,
        forall|i: int|
            0 <= i < n ==> #[trigger] s.receives(waiter, n)[i] == (if i < s.buffered.len() {
                Poll::Ready(Some(s.buffered[i]))
            } else {
                Poll::Ready(None)
            }),
{
    lemma_receives_in_order(s, waiter, n);
}

/// First in, first out: what was sent on an empty channel, in whatever
/// number, is received in the order of sending.
pub proof fn lemma_fifo<T>(s: ChannelState<T>, msgs: Seq<T>, waiter: usize)
    requires
        s.accepts(),
        s.buffered.len() == 0,
    ensures
        s.after_sends(msgs).receives(waiter, msgs.len()) == msgs.map_values(
            |m: T| Poll::Ready(Some(m)),
        ),
{
    lemma_sends_append(s, msgs);
    let full = s.after_sends(msgs);
    assert(full.buffered =~= msgs);
    lemma_receives_in_order(full, waiter, msgs.len());
    assert(full.receives(waiter, msgs.len()) =~= msgs.map_values(|m: T| Poll::Ready(Some(m))));
}

/// The queue of a channel together with the count of its handles.
pub struct BridgeChannel<T> {
    queue: VecDeque<T>,
    senders: usize,
    receiver_alive: bool,
    waiter: Option<usize>,
}

impl<T> BridgeChannel<T> {
    /// The channel as contracts see it.
    pub closed spec fn view(&self) -> ChannelState<T> {
        ChannelState {
            buffered: self.queue@,
            senders: self.senders as nat,
            receiver_alive: self.receiver_alive,
            waiter: self.waiter,
        }
    }

    /// An empty channel with one producer handle and its consumer handle.
    pub fn new() -> (ch: Self)
        ensures
            ch@ == (ChannelState::<T> {
                buffered: Seq::empty(),
                senders: 1,
                receiver_alive: true,
                waiter: None,
            }),
    {
        BridgeChannel { queue: VecDeque::new(), senders: 1, receiver_alive: true, waiter: None }
    }

    /// Number of messages sent and not yet received.
    pub fn len(&self) -> (n: usize)
        ensures
            n == self@.buffered.len(),
    {
        self.queue.len()
    }

    /// Whether no producer handle is left.
    pub fn is_closed(&self) -> (b: bool)
        ensures
            b == self@.closed(),
    {
        self.senders == 0
    }

    /// Counts one more producer handle, made from an existing one. No handle
    /// is made, and `false` returned, on a closed channel or when the count
    /// is at its limit.
    pub fn clone_sender(&mut self) -> (made: bool)
        ensures
            made == (0 < old(self)@.senders < usize::MAX),
            final(self)@ == (if made {
                ChannelState { senders: old(self)@.senders + 1, ..old(self)@ }
            } else {
                old(self)@
            }),
    {
        if self.senders == 0 || self.senders == usize::MAX {
            false
        } else {
            self.senders = self.senders + 1;
            true
        }
    }

    /// Appends `msg` to the queue. The result names the task that waited for
    /// a message, if there is one: it is to be woken. Fails with the message
    /// when the consumer is gone or the channel is closed.
    pub fn send(&mut self, msg: T) -> (r: Result<Option<usize>, Closed<T>>)
        ensures
            final(self)@ == old(self)@.after_send(msg),
            r == (if old(self)@.accepts() {
                Ok::<Option<usize>, Closed<T>>(old(self)@.waiter)
            } else {
                Err(Closed(msg))
            }),
    {
        if self.receiver_alive && self.senders > 0 {
            let wake = self.waiter;
            self.queue.push_back(msg);
            self.waiter = None;
            Ok(wake)
        } else {
            Err(Closed(msg))
        }
    }

    /// Gives up one producer handle. With the last one the channel is
    /// closed; the result then names the task that waited for a message, if
    /// there is one: it is to be woken.
    pub fn close(&mut self) -> (wake: Option<usize>)
        ensures
            final(self)@ == old(self)@.after_close(),
            wake == (if old(self)@.senders == 1 {
                old(self)@.waiter
            } else {
                None
            }),
    {
        if self.senders == 1 {
            let wake = self.waiter;
            self.senders = 0;
            self.waiter = None;
            wake
        } else if self.senders > 1 {
            self.senders = self.senders - 1;
            None
        } else {
            None
        }
    }

    /// Takes the oldest message if there is one, for the task `waiter`. On
    /// an empty channel the result is the end once the channel is closed,
    /// and pending before; the task is then noted, to be woken by the next
    /// send or by the close.
    pub fn receive(&mut self, waiter: usize) -> (r: Poll<Option<T>>)
        ensures
            r == old(self)@.received(),
            final(self)@ == old(self)@.after_receive(waiter),
    {
        match self.queue.pop_front() {
            Some(msg) => {
                assert(self.queue@ =~= old(self).queue@.drop_first());
                Poll::Ready(Some(msg))
            },
            None => {
                if self.senders == 0 {
                    Poll::Ready(None)
                } else {
                    self.waiter = Some(waiter);
                    Poll::Pending
                }
            },
        }
    }

    /// Gives up the consumer handle: from now on every send fails.
    pub fn drop_receiver(&mut self)
        ensures
            final(self)@ == (ChannelState { receiver_alive: false, waiter: None, ..old(self)@ }),
    {
        self.receiver_alive = false;
        self.waiter = None;
    }
}

} // verus!
