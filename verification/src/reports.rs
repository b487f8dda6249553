use vstd::prelude::*;

verus! {

/// How badly the low-priority task was starved of CPU time.
#[derive(Debug, Clone, Copy, PartialEq, Eq, Structural)]
pub enum StarvationVerdict {
    /// The low-priority task never ran.
    NeverRan,
    /// The high-priority tasks did more than a thousand times its work.
    SeverelyStarved,
    /// The low-priority task got some CPU time.
    GotCpuTime,
}

/// Judges starvation from the iteration counts of the high- and
/// low-priority tasks.
pub fn starvation_verdict(high_total: usize, low_total: usize) -> (v: StarvationVerdict)
    ensures
        low_total == 0 ==> v == StarvationVerdict::NeverRan,
        low_total > 0 && high_total / low_total > 1000 ==> v == StarvationVerdict::SeverelyStarved,
        low_total > 0 && high_total / low_total <= 1000 ==> v == StarvationVerdict::GotCpuTime,
{
    if low_total == 0 {
        StarvationVerdict::NeverRan
    } else if high_total / low_total > 1000 {
        StarvationVerdict::SeverelyStarved
    } else {
        StarvationVerdict::GotCpuTime
    }
}

/// Every this many iterations the low-priority task looks at its progress.
pub const REPORT_EVERY: u64 = 100_000;

/// The bookkeeping of the low-priority task: it counts its iterations and,
/// at every checkpoint, reports progress when the shared counter moved.
pub struct ProgressMonitor {
    pub iterations: u64,
    pub last_count: usize,
}

impl ProgressMonitor {
    /// No iteration done, nothing seen yet.
    pub fn new() -> (m: Self)
        ensures
            m.iterations == 0,
            m.last_count == 0,
    {
        ProgressMonitor { iterations: 0, last_count: 0 }
    }

    /// Counts one iteration; tells whether it is a checkpoint.
    pub fn tick(&mut self) -> (checkpoint: bool)
        requires
            old(self).iterations < u64::MAX,
        ensures
            final(self).iterations == old(self).iterations + 1,
            final(self).last_count == old(self).last_count,
            checkpoint == (final(self).iterations % REPORT_EVERY == 0),
    {
        self.iterations = self.iterations + 1;
        self.iterations % REPORT_EVERY == 0
    }

    /// At a checkpoint: takes in the counter's `current` value and tells
    /// whether it moved since the last report.
    pub fn observe(&mut self, current: usize) -> (moved: bool)
        ensures
            moved == (current != old(self).last_count),
            final(self).last_count == current,
            final(self).iterations == old(self).iterations,
    {
        let moved = current != self.last_count;
        self.last_count = current;
        moved
    }
}

/// The sum `0 + 1 + ... + (n - 1)`.
pub open spec fn sum_below(n: nat) -> nat
    decreases n,
{
    if n == 0 {
        0
    } else {
        sum_below((n - 1) as nat) + (n - 1) as nat
    }
}

/// Gauss: `0 + 1 + ... + (n - 1) == (n - 1) * n / 2`.
pub proof fn law_sum_below_closed_form(n: nat)
    ensures
        2 * sum_below(n) == n * (n - 1),
    decreases n,
{
    if n > 0 {
        let m: nat = (n - 1) as nat;
        law_sum_below_closed_form(m);
        assert(sum_below(n) == sum_below(m) + m);
        assert(n * (n - 1) == m * (m - 1) + 2 * m) by (nonlinear_arith)
            requires
                m == n - 1,
        ;
    } else {
        assert(n * (n - 1) == 0) by (nonlinear_arith)
            requires
                n == 0,
        ;
    }
}

/// What a consumer that receives the items `0 .. n` must have summed:
/// `(n - 1) * n / 2`.
pub fn expected_sum(n: u64) -> (s: u64)
    requires
        1 <= n,
        (n - 1) * n <= u64::MAX,
    ensures
        s == sum_below(n as nat),
{
    proof {
        law_sum_below_closed_form(n as nat);
    }
    (n - 1) * n / 2
}

} // verus!
