//! Pending timed wake-ups, ordered by deadline; entries with equal deadlines
//! stay in the order in which they were scheduled.

use vstd::prelude::*;

verus! {

/// One pending wake-up: the task `waiter` wants to be polled again once the
/// clock has reached `deadline`.
#[derive(Clone, Copy, Debug, PartialEq, Eq, Structural)]
pub struct TimerEntry {
    pub deadline: u64,
    pub waiter: usize,
}

/// The entries of `s` are in ascending order of deadline.
pub open spec fn sorted_by_deadline(s: Seq<TimerEntry>) -> bool {
    forall|i: int, j: int| 0 <= i <= j < s.len() ==> s[i].deadline <= s[j].deadline
}

/// Length of the longest prefix of `s` whose deadlines are all at most `now`.
/// In a sorted queue that prefix holds every entry that is due at `now`.
pub open spec fn due_count(s: Seq<TimerEntry>, now: u64) -> nat
    decreases s.len(),
{
    if s.len() == 0 || s[0].deadline > now {
        0
    } else {
        1 + due_count(s.drop_first(), now)
    }
}

/// `k` is the due count of `s` as soon as it splits `s` into deadlines at most
/// `now` and a first later deadline.
pub proof fn lemma_due_count_is(s: Seq<TimerEntry>, now: u64, k: int)
    requires
        0 <= k <= s.len(),
        forall|i: int| 0 <= i < k ==> s[i].deadline <= now,
        k < s.len() ==> s[k].deadline > now,
    ensures
        due_count(s, now) == k,
    decreases s.len(),
{
    if k > 0 {
        let t = s.drop_first();
        assert forall|i: int| 0 <= i < k - 1 implies t[i].deadline <= now by {
            assert(t[i] == s[i + 1]);
        }
        if k < s.len() {
            assert(t[k - 1] == s[k]);
        }
        lemma_due_count_is(t, now, k - 1);
    }
}

/// The due count splits a sorted queue exactly: every entry before it is due
/// at `now`, and no entry from it on is.
pub proof fn lemma_due_count_splits(s: Seq<TimerEntry>, now: u64)
    requires
        sorted_by_deadline(s),
    ensures
        due_count(s, now) <= s.len(),
        forall|i: int| 0 <= i < due_count(s, now) ==> s[i].deadline <= now,
        forall|i: int| due_count(s, now) <= i < s.len() ==> s[i].deadline > now,
    decreases s.len(),
{
    if s.len() == 0 || s[0].deadline > now {
    } else {
        let t = s.drop_first();
        assert(sorted_by_deadline(t)) by {
            assert forall|i: int, j: int| 0 <= i <= j < t.len() implies t[i].deadline
                <= t[j].deadline by {
                assert(t[i] == s[i + 1] && t[j] == s[j + 1]);
            }
        }
        lemma_due_count_splits(t, now);
        let k = due_count(s, now);
        assert forall|i: int| 0 <= i < k implies s[i].deadline <= now by {
            if i > 0 {
                assert(t[i - 1] == s[i]);
            }
        }
        assert forall|i: int| k <= i < s.len() implies s[i].deadline > now by {
            assert(t[i - 1] == s[i]);
        }
    }
}

/// The entries of `s` that do not wake `waiter`, in the order of `s`.
pub open spec fn without_waiter(s: Seq<TimerEntry>, waiter: usize) -> Seq<TimerEntry>
    decreases s.len(),
{
    if s.len() == 0 {
        s
    } else if s.last().waiter == waiter {
        without_waiter(s.drop_last(), waiter)
    } else {
        without_waiter(s.drop_last(), waiter).push(s.last())
    }
}

/// What is left of a queue without a waiter's entries holds only entries of
/// the queue, none of them the waiter's, and is sorted if the queue was.
pub proof fn lemma_without_waiter(s: Seq<TimerEntry>, waiter: usize)
    ensures
        forall|i: int|
            0 <= i < without_waiter(s, waiter).len() ==> s.contains(
                #[trigger] without_waiter(s, waiter)[i],
            ) && without_waiter(s, waiter)[i].waiter != waiter,
        sorted_by_deadline(s) ==> sorted_by_deadline(without_waiter(s, waiter)),
    decreases s.len(),
{
    if s.len() > 0 {
        let init = s.drop_last();
        let kept = without_waiter(init, waiter);
        lemma_without_waiter(init, waiter);
        assert forall|i: int| 0 <= i < kept.len() implies s.contains(#[trigger] kept[i]) by {
            let j = choose|j: int| 0 <= j < init.len() && init[j] == kept[i];
            assert(s[j] == kept[i]);
        }
        assert(s[s.len() - 1] == s.last());
        if sorted_by_deadline(s) {
            assert(sorted_by_deadline(init)) by {
                assert forall|i: int, j: int| 0 <= i <= j < init.len() implies init[i].deadline
                    <= init[j].deadline by {
                    assert(init[i] == s[i] && init[j] == s[j]);
                }
            }
            assert forall|i: int| 0 <= i < kept.len() implies kept[i].deadline
                <= s.last().deadline by {
                let j = choose|j: int| 0 <= j < init.len() && init[j] == kept[i];
                assert(s[j] == kept[i]);
            }
        }
    }
}

/// A queue of timer entries in release order.
pub struct TimerQueue {
    entries: Vec<TimerEntry>,
}

impl TimerQueue {
    /// The entries in the order in which they will be released.
    pub closed spec fn view(&self) -> Seq<TimerEntry> {
        self.entries@
    }

    /// The queue is sorted by deadline.
    pub open spec fn wf(&self) -> bool {
        sorted_by_deadline(self@)
    }

    /// A queue with nothing scheduled.
    pub fn new() -> (q: Self)
        ensures
            q.wf(),
            q@ == Seq::<TimerEntry>::empty(),
    {
        TimerQueue { entries: Vec::new() }
    }

    /// Number of pending entries.
    pub fn len(&self) -> (n: usize)
        ensures
            n == self@.len(),
    {
        self.entries.len()
    }

    /// Whether nothing is scheduled.
    pub fn is_empty(&self) -> (b: bool)
        ensures
            b == (self@.len() == 0),
    {
        self.entries.len() == 0
    }

    /// Records that `waiter` is to be woken at `deadline`. The entry goes
    /// behind every entry that is due no later, so equal deadlines are
    /// released first come, first served.
    pub fn schedule(&mut self, deadline: u64, waiter: usize)
        requires
            old(self).wf(),
        ensures
            final(self).wf(),
            final(self)@ == old(self)@.insert(
                due_count(old(self)@, deadline) as int,
                TimerEntry { deadline, waiter },
            ),
    {
        let n: usize = self.entries.len();
        let mut k: usize = 0;
        while k < n && self.entries[k].deadline <= deadline
            invariant
                n == self.entries.len(),
                self.entries@ == old(self).entries@,
                0 <= k <= n,
                forall|i: int| 0 <= i < k ==> self.entries@[i].deadline <= deadline,
            decreases n - k,
        {
            k += 1;
        }
        proof {
            lemma_due_count_is(self.entries@, deadline, k as int);
        }
        self.entries.insert(k, TimerEntry { deadline, waiter });
        proof {
            let before = old(self).entries@;
            let after = self.entries@;
            assert forall|i: int, j: int| 0 <= i <= j < after.len() implies after[i].deadline
                <= after[j].deadline by {
                if j < k {
                    assert(after[i] == before[i] && after[j] == before[j]);
                } else if j == k {
                    if i < k {
                        assert(after[i] == before[i]);
                    }
                } else {
                    assert(after[j] == before[j - 1]);
                    if i < k {
                        assert(after[i] == before[i]);
                    } else if i > k {
                        assert(after[i] == before[i - 1]);
                    }
                }
            }
        }
    }

    /// The smallest pending deadline, if there is one.
    pub fn earliest(&self) -> (d: Option<u64>)
        requires
            self.wf(),
        ensures
            self@.len() == 0 ==> d is None,
            self@.len() > 0 ==> d == Some(self@[0].deadline),
            forall|i: int| 0 <= i < self@.len() ==> d is Some && d->0 <= self@[i].deadline,
    {
        if self.entries.len() == 0 {
            None
        } else {
            Some(self.entries[0].deadline)
        }
    }

    /// Removes every entry that is due at `now` and returns them in release
    /// order: by deadline, equal deadlines in the order of scheduling.
    pub fn drain_due(&mut self, now: u64) -> (due: Vec<TimerEntry>)
        requires
            old(self).wf(),
        ensures
            final(self).wf(),
            due@ == old(self)@.take(due_count(old(self)@, now) as int),
            final(self)@ == old(self)@.skip(due_count(old(self)@, now) as int),
            forall|i: int| 0 <= i < due@.len() ==> due@[i].deadline <= now,
            forall|i: int| 0 <= i < final(self)@.len() ==> final(self)@[i].deadline > now,
    {
        let n: usize = self.entries.len();
        let mut k: usize = 0;
        while k < n && self.entries[k].deadline <= now
            invariant
                n == self.entries.len(),
                self.entries@ == old(self).entries@,
                0 <= k <= n,
                forall|i: int| 0 <= i < k ==> self.entries@[i].deadline <= now,
            decreases n - k,
        {
            k += 1;
        }
        proof {
            lemma_due_count_is(self.entries@, now, k as int);
            lemma_due_count_splits(self.entries@, now);
        }
        let mut due = self.entries.split_off(k);
        std::mem::swap(&mut self.entries, &mut due);
        proof {
            let before = old(self).entries@;
            assert(due@ =~= before.take(k as int));
            assert(self.entries@ =~= before.skip(k as int));
        }
        due
    }

    /// Removes every entry that would wake `waiter`; the others keep their
    /// order.
    pub fn cancel(&mut self, waiter: usize)
        requires
            old(self).wf(),
        ensures
            final(self).wf(),
            final(self)@ == without_waiter(old(self)@, waiter),
    {
        let n: usize = self.entries.len();
        let mut kept: Vec<TimerEntry> = Vec::new();
        let mut i: usize = 0;
        while i < n
            invariant
                n == self.entries.len(),
                self.entries@ == old(self).entries@,
                0 <= i <= n,
                kept@ == without_waiter(self.entries@.take(i as int), waiter),
            decreases n - i,
        {
            let e = self.entries[i];
            proof {
                let next = self.entries@.take(i as int + 1);
                assert(next.drop_last() =~= self.entries@.take(i as int));
                assert(next.last() == e);
            }
            if e.waiter != waiter {
                kept.push(e);
            }
            i += 1;
        }
        proof {
            assert(self.entries@.take(n as int) =~= self.entries@);
            lemma_without_waiter(self.entries@, waiter);
        }
        self.entries = kept;
    }
}

} // verus!
