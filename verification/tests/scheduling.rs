use lrs::channel::{BridgeChannel, Closed};
use lrs::combinators::{join, join_all, race, timeout, timeout_result};
use lrs::executor::{Action, Executor};
use lrs::task::{ready, sleep, yield_now, Context, Either, Future, Poll, Wake};
use lrs::timer_queue::{TimerEntry, TimerQueue};

fn entry(deadline: u64, waiter: usize) -> TimerEntry {
    TimerEntry { deadline, waiter }
}

#[test]
fn timers_leave_by_deadline() {
    let mut q = TimerQueue::new();
    assert!(q.is_empty());
    assert_eq!(q.earliest(), None);
    q.schedule(30, 0);
    q.schedule(10, 1);
    q.schedule(20, 2);
    assert_eq!(q.len(), 3);
    assert_eq!(q.earliest(), Some(10));
    assert_eq!(q.drain_due(5), Vec::new());
    assert_eq!(q.len(), 3);
    assert_eq!(q.drain_due(20), vec![entry(10, 1), entry(20, 2)]);
    assert_eq!(q.earliest(), Some(30));
    assert_eq!(q.drain_due(u64::MAX), vec![entry(30, 0)]);
    assert!(q.is_empty());
    assert_eq!(q.drain_due(u64::MAX), Vec::new());
}

#[test]
fn timers_with_equal_deadlines_leave_in_order_of_scheduling() {
    let mut q = TimerQueue::new();
    q.schedule(10, 7);
    q.schedule(5, 1);
    q.schedule(10, 3);
    q.schedule(10, 5);
    q.schedule(5, 2);
    assert_eq!(
        q.drain_due(10),
        vec![entry(5, 1), entry(5, 2), entry(10, 7), entry(10, 3), entry(10, 5)]
    );
}

#[test]
fn cancelled_waiter_has_no_timers() {
    let mut q = TimerQueue::new();
    q.schedule(1, 0);
    q.schedule(2, 1);
    q.schedule(3, 0);
    q.schedule(4, 2);
    q.cancel(0);
    assert_eq!(q.len(), 2);
    q.cancel(9);
    assert_eq!(q.drain_due(10), vec![entry(2, 1), entry(4, 2)]);
}

#[test]
fn channel_is_first_in_first_out() {
    let mut ch = BridgeChannel::new();
    let mut i = 0;
    while i < 50 {
        assert_eq!(ch.send(i), Ok(None));
        i += 1;
    }
    assert_eq!(ch.len(), 50);
    let mut i = 0;
    while i < 50 {
        assert_eq!(ch.receive(4), Poll::Ready(Some(i)));
        i += 1;
    }
    assert_eq!(ch.receive(4), Poll::Pending);
    assert_eq!(ch.send(7), Ok(Some(4)));
    assert_eq!(ch.send(8), Ok(None));
    assert_eq!(ch.receive(4), Poll::Ready(Some(7)));
    assert_eq!(ch.send(9), Ok(None));
    assert_eq!(ch.receive(4), Poll::Ready(Some(8)));
    assert_eq!(ch.receive(4), Poll::Ready(Some(9)));
}

#[test]
fn closed_channel_gives_what_is_buffered_and_then_the_end() {
    let mut ch = BridgeChannel::new();
    assert_eq!(ch.send(String::from("a")), Ok(None));
    assert_eq!(ch.send(String::from("b")), Ok(None));
    assert!(!ch.is_closed());
    assert_eq!(ch.close(), None);
    assert!(ch.is_closed());
    assert_eq!(ch.receive(4), Poll::Ready(Some(String::from("a"))));
    assert_eq!(ch.receive(4), Poll::Ready(Some(String::from("b"))));
    assert_eq!(ch.receive(4), Poll::Ready(None));
    assert_eq!(ch.receive(4), Poll::Ready(None));
    assert_eq!(ch.send(String::from("c")), Err(Closed(String::from("c"))));
    assert_eq!(ch.receive(4), Poll::Ready(None));
}

#[test]
fn channel_counts_its_producers() {
    let mut ch: BridgeChannel<u32> = BridgeChannel::new();
    assert!(ch.clone_sender());
    assert_eq!(ch.close(), None);
    assert!(!ch.is_closed());
    assert_eq!(ch.receive(4), Poll::Pending);
    assert_eq!(ch.send(1), Ok(Some(4)));
    assert_eq!(ch.receive(4), Poll::Ready(Some(1)));
    assert_eq!(ch.receive(4), Poll::Pending);
    assert_eq!(ch.close(), Some(4));
    assert!(ch.is_closed());
    assert_eq!(ch.close(), None);
    assert!(!ch.clone_sender());
    assert_eq!(ch.receive(4), Poll::Ready(None));
}

#[test]
fn send_fails_when_the_consumer_is_gone() {
    let mut ch = BridgeChannel::new();
    assert_eq!(ch.send(1), Ok(None));
    ch.drop_receiver();
    assert_eq!(ch.send(2), Err(Closed(2)));
    assert_eq!(ch.len(), 1);
}

#[test]
fn sleep_is_pending_until_its_deadline() {
    let mut s = sleep(100);
    let mut cx = Context::new(50);
    assert_eq!(s.poll(&mut cx), Poll::Pending);
    assert_eq!(cx.wakes, vec![Wake::At(150)]);
    let mut cx = Context::new(149);
    assert_eq!(s.poll(&mut cx), Poll::Pending);
    assert_eq!(cx.wakes, Vec::new());
    let mut cx = Context::new(150);
    assert_eq!(s.poll(&mut cx), Poll::Ready(()));
    assert_eq!(cx.wakes, Vec::new());
}

#[test]
fn sleep_of_no_length_is_pending_once() {
    let mut s = sleep(0);
    let mut cx = Context::new(5);
    assert_eq!(s.poll(&mut cx), Poll::Pending);
    assert_eq!(cx.wakes, vec![Wake::At(5)]);
    assert_eq!(s.poll(&mut cx), Poll::Ready(()));
}

#[test]
fn sleep_stops_at_the_end_of_time() {
    let mut s = sleep(u64::MAX);
    let mut cx = Context::new(10);
    assert_eq!(s.poll(&mut cx), Poll::Pending);
    assert_eq!(cx.wakes, vec![Wake::At(u64::MAX)]);
}

#[test]
fn yield_now_is_pending_exactly_once() {
    let mut y = yield_now();
    let mut cx = Context::new(0);
    assert_eq!(y.poll(&mut cx), Poll::Pending);
    assert_eq!(cx.wakes, vec![Wake::Now]);
    assert_eq!(y.poll(&mut cx), Poll::Ready(()));
    assert_eq!(cx.wakes, vec![Wake::Now]);
}

#[test]
fn race_of_sleeps_resolves_left() {
    let mut short = 0;
    while short < 20 {
        let mut long = short + 1;
        while long < 25 {
            let mut r = race(sleep(short), sleep(long));
            let mut cx = Context::new(3);
            assert_eq!(r.poll(&mut cx), Poll::Pending);
            assert_eq!(cx.wakes, vec![Wake::At(3 + short), Wake::At(3 + long)]);
            let mut now = 3;
            let result = loop {
                let mut cx = Context::new(now);
                if let Poll::Ready(first) = r.poll(&mut cx) {
                    break first;
                }
                now += 1;
            };
            assert_eq!(result, Either::Left(()));
            assert_eq!(now, 3 + short);
            long += 1;
        }
        short += 1;
    }
}

#[test]
fn race_is_won_by_the_right_side_when_it_is_first() {
    let mut r = race(sleep(50), sleep(20));
    let mut cx = Context::new(0);
    assert_eq!(r.poll(&mut cx), Poll::Pending);
    let mut cx = Context::new(19);
    assert_eq!(r.poll(&mut cx), Poll::Pending);
    let mut cx = Context::new(20);
    assert_eq!(r.poll(&mut cx), Poll::Ready(Either::Right(())));
}

#[test]
fn race_is_won_by_the_left_side_on_a_tie() {
    let mut r = race(ready(1), ready(2));
    let mut cx = Context::new(0);
    assert_eq!(r.poll(&mut cx), Poll::Ready(Either::Left(1)));
    let mut r = race(sleep(10), sleep(10));
    let mut cx = Context::new(0);
    assert_eq!(r.poll(&mut cx), Poll::Pending);
    let mut cx = Context::new(10);
    assert_eq!(r.poll(&mut cx), Poll::Ready(Either::Left(())));
}

#[test]
fn timeout_of_an_instant_task_is_ok() {
    let mut t = timeout(ready("done"), 10);
    let mut cx = Context::new(0);
    assert_eq!(t.poll(&mut cx), Poll::Ready(Ok("done")));
}

#[test]
fn timeout_of_a_long_sleep_is_the_limit() {
    let mut t = timeout(sleep(100), 10);
    let mut cx = Context::new(0);
    assert_eq!(t.poll(&mut cx), Poll::Pending);
    assert_eq!(cx.wakes, vec![Wake::At(100), Wake::At(10)]);
    let mut cx = Context::new(9);
    assert_eq!(t.poll(&mut cx), Poll::Pending);
    let mut cx = Context::new(10);
    assert_eq!(t.poll(&mut cx), Poll::Ready(Err(10)));
}

#[test]
fn timeout_of_a_short_sleep_is_ok() {
    let mut t = timeout(sleep(5), 10);
    let mut cx = Context::new(0);
    assert_eq!(t.poll(&mut cx), Poll::Pending);
    let mut cx = Context::new(5);
    assert_eq!(t.poll(&mut cx), Poll::Ready(Ok(())));
    let mut tie = timeout(sleep(10), 10);
    let mut cx = Context::new(0);
    assert_eq!(tie.poll(&mut cx), Poll::Pending);
    let mut cx = Context::new(10);
    assert_eq!(tie.poll(&mut cx), Poll::Ready(Ok(())));
}

#[test]
fn timeout_result_goes_by_the_winner() {
    assert_eq!(timeout_result(Either::Left("done"), 10), Ok("done"));
    assert_eq!(timeout_result::<&str>(Either::Right(()), 10), Err(10));
}

#[test]
fn join_waits_for_both_and_keeps_their_order() {
    let mut j = join(timeout(sleep(30), 10), timeout(sleep(5), 20));
    let mut cx = Context::new(0);
    assert_eq!(j.poll(&mut cx), Poll::Pending);
    assert_eq!(
        cx.wakes,
        vec![Wake::At(30), Wake::At(10), Wake::At(5), Wake::At(20)]
    );
    let mut cx = Context::new(5);
    assert_eq!(j.poll(&mut cx), Poll::Pending);
    let mut cx = Context::new(10);
    assert_eq!(j.poll(&mut cx), Poll::Ready((Err(10), Ok(()))));
}

#[test]
fn join_all_waits_for_the_longest_sleep() {
    let durations: Vec<u64> = vec![30, 10, 50, 20, 40];
    let mut j = join_all(durations.iter().map(|d| sleep(*d)).collect());
    let mut cx = Context::new(100);
    assert_eq!(j.poll(&mut cx), Poll::Pending);
    assert_eq!(
        cx.wakes,
        vec![Wake::At(130), Wake::At(110), Wake::At(150), Wake::At(120), Wake::At(140)]
    );
    let mut now = 100;
    let done = loop {
        let mut cx = Context::new(now);
        if let Poll::Ready(values) = j.poll(&mut cx) {
            break values;
        }
        now += 1;
    };
    assert_eq!(now, 150);
    assert_eq!(done.len(), 5);
}

#[test]
fn join_all_keeps_the_order_of_its_tasks() {
    let limits: Vec<u64> = vec![10, 40, 20, 50, 30];
    let mut j = join_all(limits.iter().map(|l| timeout(sleep(25), *l)).collect());
    let mut cx = Context::new(0);
    assert_eq!(j.poll(&mut cx), Poll::Pending);
    let mut cx = Context::new(10);
    assert_eq!(j.poll(&mut cx), Poll::Pending);
    let mut cx = Context::new(20);
    assert_eq!(j.poll(&mut cx), Poll::Pending);
    let mut cx = Context::new(25);
    assert_eq!(
        j.poll(&mut cx),
        Poll::Ready(vec![Err(10), Ok(()), Err(20), Ok(()), Ok(())])
    );
}

#[test]
fn join_all_of_nothing_is_ready() {
    let mut j = join_all(Vec::<lrs::task::Sleep>::new());
    let mut cx = Context::new(0);
    assert_eq!(j.poll(&mut cx), Poll::Ready(Vec::new()));
}

#[test]
fn executor_without_tasks_is_stuck() {
    let mut ex = Executor::new();
    assert_eq!(ex.next(0), Action::Deadlock);
    assert!(!ex.is_live(0));
}

#[test]
fn executor_runs_a_sleep_to_its_end() {
    let mut ex = Executor::new();
    let root = ex.spawn(None);
    assert_eq!(root, 0);
    let mut task = sleep(100);
    assert_eq!(ex.next(0), Action::Poll(root));
    assert_eq!(ex.poll_task(root, &mut task, 0), Poll::Pending);
    assert_eq!(ex.timers_len(), 1);
    assert_eq!(ex.next(0), Action::Idle(100));
    assert_eq!(ex.next(99), Action::Idle(100));
    assert_eq!(ex.next(100), Action::Poll(root));
    assert_eq!(ex.timers_len(), 0);
    assert!(ex.is_live(root));
    assert_eq!(ex.poll_task(root, &mut task, 100), Poll::Ready(()));
    assert!(!ex.is_live(root));
    assert_eq!(ex.next(100), Action::Deadlock);
}

#[test]
fn executor_drops_what_would_wake_a_finished_task() {
    let mut ex = Executor::new();
    let root = ex.spawn(None);
    let mut task = race(sleep(10), sleep(20));
    assert_eq!(ex.next(0), Action::Poll(root));
    assert_eq!(ex.poll_task(root, &mut task, 0), Poll::Pending);
    assert_eq!(ex.timers_len(), 2);
    ex.wake(root, Wake::Now);
    ex.wake(root, Wake::Now);
    assert_eq!(ex.ready_len(), 2);
    assert_eq!(ex.next(10), Action::Poll(root));
    assert_eq!(ex.poll_task(root, &mut task, 10), Poll::Ready(Either::Left(())));
    assert_eq!(ex.ready_len(), 0);
    assert_eq!(ex.timers_len(), 0);
    ex.wake(root, Wake::Now);
    ex.wake(root, Wake::At(30));
    ex.wake(5, Wake::Now);
    assert_eq!(ex.ready_len(), 0);
    assert_eq!(ex.timers_len(), 0);
    assert_eq!(ex.next(30), Action::Deadlock);
}

#[test]
fn executor_moves_all_due_waiters_in_release_order() {
    let mut ex = Executor::new();
    let a = ex.spawn(None);
    let b = ex.spawn(None);
    let c = ex.spawn(None);
    assert_eq!(ex.next(0), Action::Poll(a));
    assert_eq!(ex.next(0), Action::Poll(b));
    assert_eq!(ex.next(0), Action::Poll(c));
    ex.wake(a, Wake::At(20));
    ex.wake(b, Wake::At(10));
    ex.wake(c, Wake::At(10));
    ex.wake(a, Wake::At(30));
    assert_eq!(ex.next(5), Action::Idle(10));
    assert_eq!(ex.next(25), Action::Poll(b));
    assert_eq!(ex.ready_len(), 2);
    assert_eq!(ex.timers_len(), 1);
    assert_eq!(ex.next(25), Action::Poll(c));
    assert_eq!(ex.next(25), Action::Poll(a));
    assert_eq!(ex.next(25), Action::Idle(30));
}

#[test]
fn yielding_tasks_take_turns() {
    // A task that yields `rounds` times is polled once more than that: each
    // poll but the last ends in a yield.
    let rounds = 25;
    let mut ex = Executor::new();
    let a = ex.spawn(None);
    let b = ex.spawn(None);
    let mut left = [rounds, rounds];
    let mut current = [yield_now(), yield_now()];
    let mut order: Vec<usize> = Vec::new();
    let mut passes = 0;
    while left[0] > 0 || left[1] > 0 {
        let id = match ex.next(0) {
            Action::Poll(id) => id,
            other => panic!("no task to poll: {:?}", other),
        };
        passes += 1;
        order.push(id);
        let mut cx = Context::new(0);
        match current[id].poll(&mut cx) {
            Poll::Pending => ex.register(id, &cx.wakes),
            Poll::Ready(()) => {
                left[id] -= 1;
                if left[id] == 0 {
                    ex.complete(id);
                } else {
                    current[id] = yield_now();
                    let mut cx = Context::new(0);
                    assert_eq!(current[id].poll(&mut cx), Poll::Pending);
                    ex.register(id, &cx.wakes);
                }
            }
        }
    }
    assert_eq!(passes, 2 * (rounds + 1));
    let mut i = 0;
    while i < order.len() {
        assert_eq!(order[i], if i % 2 == 0 { a } else { b });
        i += 1;
    }
    assert_eq!(ex.next(0), Action::Deadlock);
}

#[test]
fn finished_part_queues_the_task_composed_of_it() {
    let mut ex = Executor::new();
    let root = ex.spawn(None);
    let left = ex.spawn(Some(root));
    let right = ex.spawn(Some(root));
    assert_eq!(ex.parent_of(root), None);
    assert_eq!(ex.parent_of(left), Some(root));
    assert_eq!(ex.parent_of(right), Some(root));
    assert_eq!(ex.parent_of(9), None);
    assert_eq!(ex.next(0), Action::Poll(root));
    assert_eq!(ex.next(0), Action::Poll(left));
    assert_eq!(ex.next(0), Action::Poll(right));
    let mut short = sleep(10);
    let mut long = sleep(20);
    assert_eq!(ex.poll_task(left, &mut short, 0), Poll::Pending);
    assert_eq!(ex.poll_task(right, &mut long, 0), Poll::Pending);
    assert_eq!(ex.next(0), Action::Idle(10));
    assert_eq!(ex.next(10), Action::Poll(left));
    assert_eq!(ex.poll_task(left, &mut short, 10), Poll::Ready(()));
    assert!(!ex.is_live(left));
    assert_eq!(ex.next(10), Action::Poll(root));
    assert_eq!(ex.next(10), Action::Idle(20));
    ex.complete(left);
    assert_eq!(ex.ready_len(), 0);
    ex.complete(root);
    assert_eq!(ex.next(20), Action::Poll(right));
    assert_eq!(ex.poll_task(right, &mut long, 20), Poll::Ready(()));
    assert_eq!(ex.ready_len(), 0);
    assert_eq!(ex.next(20), Action::Deadlock);
}

#[test]
fn executor_books_the_polls_of_a_joined_list() {
    let mut ex = Executor::new();
    let root = ex.spawn(None);
    let mut all = join_all(vec![sleep(30), sleep(10), sleep(20)]);
    assert!(all.is_pending());
    let mut now = 0;
    let mut polls = 0;
    let values = loop {
        match ex.next(now) {
            Action::Poll(id) => {
                assert_eq!(id, root);
                polls += 1;
                let mut cx = Context::new(now);
                let r = all.poll(&mut cx);
                ex.book(id, r != Poll::Pending, &cx.wakes);
                if let Poll::Ready(values) = r {
                    break values;
                }
            }
            Action::Idle(deadline) => now = deadline,
            Action::Deadlock => panic!("stuck at {now}"),
        }
    };
    assert_eq!(values, vec![(), (), ()]);
    assert_eq!(now, 30);
    assert_eq!(polls, 4);
    assert!(!all.is_pending());
    assert!(!ex.is_live(root));
    assert_eq!(ex.next(now), Action::Deadlock);
}

#[test]
fn tasks_say_whether_they_may_be_polled() {
    let mut s = sleep(1);
    assert!(s.is_pending());
    let mut cx = Context::new(0);
    assert_eq!(s.poll(&mut cx), Poll::Pending);
    assert!(s.is_pending());
    let mut cx = Context::new(1);
    assert_eq!(s.poll(&mut cx), Poll::Ready(()));
    assert!(!s.is_pending());
    let mut j = join(ready(1), sleep(5));
    assert!(j.is_pending());
    let mut cx = Context::new(0);
    assert_eq!(j.poll(&mut cx), Poll::Pending);
    assert!(j.is_pending());
    let mut cx = Context::new(5);
    assert_eq!(j.poll(&mut cx), Poll::Ready((1, ())));
    assert!(!j.is_pending());
    let mut r = race(yield_now(), sleep(5));
    let mut cx = Context::new(0);
    assert_eq!(r.poll(&mut cx), Poll::Pending);
    assert_eq!(cx.wakes, vec![Wake::Now, Wake::At(5)]);
    assert!(r.is_pending());
    assert_eq!(r.poll(&mut cx), Poll::Ready(Either::Left(())));
    assert!(!r.is_pending());
    let mut t = timeout(ready(3), 0);
    assert!(t.is_pending());
    assert_eq!(t.poll(&mut cx), Poll::Ready(Ok(3)));
    assert!(!t.is_pending());
}

#[test]
fn send_wakes_the_task_that_waits_for_a_message() {
    let mut ex = Executor::new();
    let consumer = ex.spawn(None);
    let mut ch = BridgeChannel::new();
    let mut got: Vec<u32> = Vec::new();

    assert_eq!(ex.next(0), Action::Poll(consumer));
    assert_eq!(ch.receive(consumer), Poll::Pending);
    assert_eq!(ex.next(0), Action::Deadlock);

    let woken = ch.send(11).unwrap();
    assert_eq!(woken, Some(consumer));
    ex.wake(consumer, Wake::Now);
    assert_eq!(ch.send(12), Ok(None));
    assert_eq!(ch.close(), None);

    assert_eq!(ex.next(0), Action::Poll(consumer));
    loop {
        match ch.receive(consumer) {
            Poll::Ready(Some(msg)) => got.push(msg),
            Poll::Ready(None) => break,
            Poll::Pending => panic!("a closed channel is never pending"),
        }
    }
    ex.complete(consumer);
    assert_eq!(got, vec![11, 12]);
    assert_eq!(ex.next(0), Action::Deadlock);
}

#[test]
fn close_wakes_the_task_that_waits_for_a_message() {
    let mut ch: BridgeChannel<u8> = BridgeChannel::new();
    assert!(ch.clone_sender());
    assert_eq!(ch.receive(3), Poll::Pending);
    assert_eq!(ch.close(), None);
    assert_eq!(ch.receive(3), Poll::Pending);
    assert_eq!(ch.close(), Some(3));
    assert_eq!(ch.receive(3), Poll::Ready(None));
    assert_eq!(ch.len(), 0);
}
