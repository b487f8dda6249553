use vstd::prelude::*;

verus! {

/// A counter that threads share behind a lock and increment one by one.
pub struct SharedCounter {
    pub value: usize,
}

impl SharedCounter {
    /// A counter at zero.
    pub fn new() -> (c: Self)
        ensures
            c.value == 0,
    {
        SharedCounter { value: 0 }
    }

    /// Adds one.
    pub fn increment(&mut self)
        requires
            old(self).value < usize::MAX,
        ensures
            final(self).value == old(self).value + 1,
    {
        self.value = self.value + 1;
    }

    /// Adds one `times` times, as one worker does with its share of the work.
    pub fn increment_times(&mut self, times: usize)
        requires
            old(self).value + times <= usize::MAX,
        ensures
            final(self).value == old(self).value + times,
    {
        let mut done: usize = 0;
        while done < times
            invariant
                done <= times,
                self.value == old(self).value + done,
                old(self).value + times <= usize::MAX,
            decreases times - done,
        {
            self.increment();
            done = done + 1;
        }
    }
}

/// The count that `threads` workers of `per_thread` increments each must reach.
pub fn expected_total(threads: u64, per_thread: u64) -> (total: u64)
    requires
        threads * per_thread <= u64::MAX,
    ensures
        total == threads * per_thread,
{
    threads * per_thread
}

/// How many increments were lost when `observed` was counted instead of
/// `expected` (zero when nothing was lost).
pub fn lost_increments(expected: u64, observed: u64) -> (lost: u64)
    ensures
        lost == if observed < expected { expected - observed } else { 0 },
{
    expected.saturating_sub(observed)
}

/// Whatever order the workers run in, `threads` workers that each add
/// `per_thread` to a counter starting at zero leave it at their product.
pub proof fn law_workers_sum_up(shares: Seq<nat>, per_thread: nat)
    requires
        forall|i: int| 0 <= i < shares.len() ==> shares[i] == per_thread,
    ensures
        share_total(shares) == shares.len() * per_thread,
    decreases shares.len(),
{
    if shares.len() > 0 {
        law_workers_sum_up(shares.drop_last(), per_thread);
        assert(shares.len() * per_thread == (shares.len() - 1) * per_thread + per_thread)
            by (nonlinear_arith);
    }
}

/// The sum of the shares that the workers add.
pub open spec fn share_total(shares: Seq<nat>) -> nat
    decreases shares.len(),
{
    if shares.len() == 0 {
        0
    } else {
        share_total(shares.drop_last()) + shares.last()
    }
}

/// Two counters that are only ever updated together, under one lock.
pub struct Resources {
    pub a: i32,
    pub b: i32,
}

impl Default for Resources {
    /// Both counters at zero.
    fn default() -> (r: Self)
        ensures
            r.a == 0,
            r.b == 0,
    {
        Resources { a: 0, b: 0 }
    }
}

impl Resources {
    /// Adds one to both counters.
    pub fn bump_both(&mut self)
        requires
            old(self).a < i32::MAX,
            old(self).b < i32::MAX,
        ensures
            final(self).a == old(self).a + 1,
            final(self).b == old(self).b + 1,
            // counters updated together stay equal
            old(self).a == old(self).b ==> final(self).a == final(self).b,
    {
        self.a = self.a + 1;
        self.b = self.b + 1;
    }
}

} // verus!
