use vstd::prelude::*;

use std::collections::VecDeque;

verus! {

broadcast use vstd::std_specs::vecdeque::group_vec_dequeue_axioms;

/// The longest span, in nanoseconds, that a `std::time::Duration` can hold.
pub open spec fn duration_max_nanos() -> int {
    u64::MAX as int * 1_000_000_000 + 999_999_999
}

/// The sum of a sequence of spans.
pub open spec fn total(s: Seq<u64>) -> int
    decreases s.len(),
{
    if s.len() == 0 {
        0
    } else {
        total(s.drop_last()) + s.last()
    }
}

/// The last `n` items of `s`, or all of them where there are fewer.
pub open spec fn keep_last(s: Seq<u64>, n: nat) -> Seq<u64> {
    if s.len() <= n {
        s
    } else {
        s.subrange(s.len() - n, s.len() as int)
    }
}

/// The durations that a queue keeping `capacity` of them holds after `time` is added to
/// `times`: the oldest leaves where it is full.
pub open spec fn after_add(times: Seq<u64>, capacity: usize, time: u64) -> Seq<u64> {
    if times.len() == capacity && times.len() > 0 {
        times.drop_first().push(time)
    } else {
        times.push(time)
    }
}

/// The count of `times` as a `Duration` division takes it: wrapped to `u32`.
pub open spec fn wrapped_count(times: Seq<u64>) -> int {
    (times.len() as u32) as int
}

/// The mean of `times`, rounded down, divided by their count wrapped to `u32`; `None` when
/// there are none.
pub open spec fn mean_of(times: Seq<u64>) -> Option<u64> {
    if times.len() == 0 {
        None
    } else {
        Some((total(times) / wrapped_count(times)) as u64)
    }
}

/// The durations can be averaged: their sum fits in a `Duration`, their count wrapped to `u32`
/// is not zero where there are any, and the mean fits in `u64` nanoseconds.
pub open spec fn can_average(times: Seq<u64>) -> bool {
    &&& total(times) <= duration_max_nanos()
    &&& times.len() > 0 ==> wrapped_count(times) != 0 && total(times) / wrapped_count(times)
        <= u64::MAX
}

/// The sum of `n` spans is at most `n` times the largest span.
proof fn lemma_total_bound(s: Seq<u64>)
    ensures
        0 <= total(s) <= s.len() * u64::MAX,
    decreases s.len(),
{
    if s.len() > 0 {
        lemma_total_bound(s.drop_last());
    }
}

/// The durations of the last few occurrences of some repeated step, in nanoseconds, oldest
/// first, for averaging.
pub struct TimingQueue {
    queue: VecDeque<u64>,
    size: usize,
}

impl TimingQueue {
    /// The durations held, oldest first.
    pub closed spec fn times(&self) -> Seq<u64> {
        self.queue@
    }

    /// How many durations the queue keeps.
    pub closed spec fn capacity(&self) -> usize {
        self.size
    }

    /// An empty queue that keeps the last `size` durations.
    pub fn new(size: usize) -> (r: Self)
        ensures
            r.times() == Seq::<u64>::empty(),
            r.capacity() == size,
    {
        Self { queue: VecDeque::<u64>::with_capacity(size), size }
    }

    /// Adds a duration; where the queue already holds `capacity` of them, the oldest leaves.
    /// A queue of capacity 0 drops nothing: it grows by one on every call after the first.
    pub fn add_time(&mut self, time: u64)
        ensures
            final(self).capacity() == old(self).capacity(),
            final(self).times() == after_add(old(self).times(), old(self).capacity(), time),
    {
        if self.queue.len() == self.size {
            self.queue.pop_front();
        }
        self.queue.push_back(time);
    }

    /// The sum of the durations held. It fits in `u128`: at most `usize::MAX` durations, each
    /// below 2^64.
    pub fn sum(&self) -> (r: u128)
        ensures
            r == total(self.times()),
    {
        let n = self.queue.len();
        let mut sum: u128 = 0;
        let mut i: usize = 0;
        while i < n
            invariant
                n == self.times().len(),
                0 <= i <= n,
                sum == total(self.times().take(i as int)),
            decreases n - i,
        {
            proof {
                let s = self.times();
                assert(s.take(i + 1).drop_last() == s.take(i as int));
                lemma_total_bound(s.take(i + 1));
                assert((i + 1) * u64::MAX <= usize::MAX * u64::MAX) by (nonlinear_arith)
                    requires
                        i + 1 <= usize::MAX,
                ;
            }
            sum = sum + self.queue[i] as u128;
            i = i + 1;
        }
        proof {
            assert(self.times().take(n as int) == self.times());
        }
        sum
    }

    /// Whether `get_average` may be called: the durations sum to what a `Duration` holds, the
    /// count taken as a `u32` is not zero where there are any, and the mean fits in `u64`.
    pub fn is_averageable(&self) -> (r: bool)
        ensures
            r == can_average(self.times()),
    {
        let total_nanos = self.sum();
        let n = self.queue.len();
        if total_nanos > 18_446_744_073_709_551_615_999_999_999u128 {
            return false;
        }
        if n == 0 {
            return true;
        }
        let count = n as u32;
        if count == 0 {
            return false;
        }
        total_nanos / (count as u128) <= u64::MAX as u128
    }

    /// The mean of the durations held, rounded down, or `None` when there are none. As with a
    /// sum of `Duration`s divided by the count taken as a `u32`, the count wraps at 2^32.
    /// Summing spans beyond what a `Duration` holds, or a count that wraps to zero, panics in
    /// `std`, and the mean is held in `u64` nanoseconds; `requires` leaves those out.
    pub fn get_average(&self) -> (r: Option<u64>)
        requires
            can_average(self.times()),
        ensures
            r == mean_of(self.times()),
    {
        let n = self.queue.len();
        if n == 0 {
            return None;
        }
        let total_nanos = self.sum();
        let count = n as u32;
        Some((total_nanos / (count as u128)) as u64)
    }
}

/// The mean of up to `u32::MAX` durations is their sum divided by their count, rounded down:
/// `r` such that `r * n <= sum < (r + 1) * n`, every duration held counting in the sum.
pub proof fn law_mean_is_floor_of_sum_over_count(times: Seq<u64>)
    requires
        0 < times.len() <= u32::MAX,
    ensures
        mean_of(times) is Some,
        mean_of(times)->0 * times.len() <= total(times),
        total(times) < (mean_of(times)->0 + 1) * times.len(),
{
    let n = times.len() as int;
    let t = total(times);
    assert(wrapped_count(times) == n);
    lemma_total_bound(times);
    assert(t / n <= u64::MAX) by (nonlinear_arith)
        requires
            0 <= t <= n * u64::MAX,
            n >= 1,
    ;
    assert((t / n) * n <= t < (t / n + 1) * n) by (nonlinear_arith)
        requires
            0 <= t,
            n >= 1,
    ;
}

/// Adding to a queue that holds at most `capacity` durations keeps exactly the last
/// `capacity` of all those added: the window moves by one.
pub proof fn law_add_time_window(before: Seq<u64>, history: Seq<u64>, capacity: usize, time: u64)
    requires
        capacity > 0,
        before == keep_last(history, capacity as nat),
    ensures
        after_add(before, capacity, time) == keep_last(history.push(time), capacity as nat),
        after_add(before, capacity, time).len() <= capacity,
{
    let h = history.push(time);
    if history.len() < capacity {
        assert(keep_last(h, capacity as nat) == h);
    } else {
        assert(before.len() == capacity);
        assert(keep_last(h, capacity as nat) =~= before.drop_first().push(time));
    }
}

} // verus!
