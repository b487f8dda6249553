use vstd::prelude::*;

verus! {

/// Where an attempt to take two locks with `try_lock` stands.
#[derive(Debug, Clone, Copy, PartialEq, Eq, Structural)]
pub enum Phase {
    /// Holding nothing; the next step tries the first lock.
    TryingFirst,
    /// Holding the first lock; the next step tries the second.
    TryingSecond,
    /// Holding nothing after a failed round; the next step checks the deadline.
    Waiting,
    /// Holding both locks: the attempt succeeded.
    Acquired,
    /// Holding nothing: the deadline passed and the attempt was abandoned.
    TimedOut,
}

/// What the caller reports after carrying out the last action.
#[derive(Debug, Clone, Copy, PartialEq, Eq, Structural)]
pub enum Event {
    /// The result of `try_lock` on the first lock.
    FirstLock(bool),
    /// The result of `try_lock` on the second lock.
    SecondLock(bool),
    /// The time elapsed since the attempt started, in nanoseconds.
    Elapsed(u128),
}

/// What the caller is to do next.
#[derive(Debug, Clone, Copy, PartialEq, Eq, Structural)]
pub enum Action {
    /// Call `try_lock` on the first lock and report `FirstLock`.
    TryFirst,
    /// Call `try_lock` on the second lock and report `SecondLock`.
    TrySecond,
    /// Release the first lock, then measure the elapsed time and report `Elapsed`.
    ReleaseFirstThenCheck,
    /// Measure the elapsed time and report `Elapsed`.
    CheckDeadline,
    /// Pause briefly (yield or sleep), then call `try_lock` on the first lock.
    BackoffThenTryFirst,
    /// Both locks are held: stop, successfully.
    Succeed,
    /// The deadline passed: stop without any lock.
    GiveUp,
}

/// The decisions of the "take both locks or none" protocol: try the first
/// lock, then the second; when the second is busy, release the first; back
/// off and retry until both are held or the optional deadline passes.
#[derive(Debug, Clone, Copy, PartialEq, Eq, Structural)]
pub struct TryLockBoth {
    pub phase: Phase,
    /// The deadline in nanoseconds, or `None` to retry for ever.
    pub timeout_nanos: Option<u128>,
}

/// Whether the protocol holds the first and the second lock in `phase`.
pub open spec fn holds(phase: Phase) -> (bool, bool) {
    match phase {
        Phase::TryingSecond => (true, false),
        Phase::Acquired => (true, true),
        _ => (false, false),
    }
}

/// Whether `phase` is final.
pub open spec fn is_final(phase: Phase) -> bool {
    phase == Phase::Acquired || phase == Phase::TimedOut
}

/// The action that `phase` waits to have carried out.
pub open spec fn pending_action(phase: Phase) -> Action {
    match phase {
        Phase::TryingFirst => Action::TryFirst,
        Phase::TryingSecond => Action::TrySecond,
        Phase::Waiting => Action::CheckDeadline,
        Phase::Acquired => Action::Succeed,
        Phase::TimedOut => Action::GiveUp,
    }
}

/// Whether `elapsed` is past the deadline `timeout`.
pub open spec fn deadline_passed(timeout: Option<u128>, elapsed: u128) -> bool {
    match timeout {
        Some(t) => elapsed > t,
        None => false,
    }
}

/// The transition table of the protocol. An event that does not answer
/// the pending action changes nothing and repeats that action.
pub open spec fn transition(m: TryLockBoth, e: Event) -> (TryLockBoth, Action) {
    let to = |p: Phase| TryLockBoth { phase: p, timeout_nanos: m.timeout_nanos };
    match (m.phase, e) {
        (Phase::TryingFirst, Event::FirstLock(true)) => (to(Phase::TryingSecond), Action::TrySecond),
        (Phase::TryingFirst, Event::FirstLock(false)) => (to(Phase::Waiting), Action::CheckDeadline),
        (Phase::TryingSecond, Event::SecondLock(true)) => (to(Phase::Acquired), Action::Succeed),
        (Phase::TryingSecond, Event::SecondLock(false)) => (
            to(Phase::Waiting),
            Action::ReleaseFirstThenCheck,
        ),
        (Phase::Waiting, Event::Elapsed(t)) => if deadline_passed(m.timeout_nanos, t) {
            (to(Phase::TimedOut), Action::GiveUp)
        } else {
            (to(Phase::TryingFirst), Action::BackoffThenTryFirst)
        },
        _ => (m, pending_action(m.phase)),
    }
}

/// The machine after a whole sequence of events.
pub open spec fn run(m: TryLockBoth, events: Seq<Event>) -> TryLockBoth
    decreases events.len(),
{
    if events.len() == 0 {
        m
    } else {
        run(transition(m, events[0]).0, events.drop_first())
    }
}

impl TryLockBoth {
    /// A new attempt, holding nothing, with an optional deadline.
    pub fn new(timeout_nanos: Option<u128>) -> (m: Self)
        ensures
            m.phase == Phase::TryingFirst,
            m.timeout_nanos == timeout_nanos,
    {
        TryLockBoth { phase: Phase::TryingFirst, timeout_nanos }
    }

    /// The action that the current phase waits to have carried out.
    pub fn next_action(&self) -> (a: Action)
        ensures
            a == pending_action(self.phase),
    {
        match self.phase {
            Phase::TryingFirst => Action::TryFirst,
            Phase::TryingSecond => Action::TrySecond,
            Phase::Waiting => Action::CheckDeadline,
            Phase::Acquired => Action::Succeed,
            Phase::TimedOut => Action::GiveUp,
        }
    }

    /// Takes in the outcome of the last action and decides the next one.
    pub fn step(&mut self, event: Event) -> (a: Action)
        ensures
            (*final(self), a) == transition(*old(self), event),
            // the second lock is only ever held together with the first
            holds(final(self).phase).1 ==> holds(final(self).phase).0,
            // no lock is held while pausing, checking the clock or stopping for good
            a == Action::BackoffThenTryFirst || a == Action::CheckDeadline
                || a == Action::ReleaseFirstThenCheck || a == Action::GiveUp
                ==> holds(final(self).phase) == (false, false),
            // success is reported only when the second lock was just granted
            a == Action::Succeed ==> final(self).phase == Phase::Acquired,
            a == Action::Succeed && old(self).phase != Phase::Acquired
                ==> event == Event::SecondLock(true),
    {
        let next = match (self.phase, event) {
            (Phase::TryingFirst, Event::FirstLock(true)) => (Phase::TryingSecond, Action::TrySecond),
            (Phase::TryingFirst, Event::FirstLock(false)) => (Phase::Waiting, Action::CheckDeadline),
            (Phase::TryingSecond, Event::SecondLock(true)) => (Phase::Acquired, Action::Succeed),
            (Phase::TryingSecond, Event::SecondLock(false)) => (
                Phase::Waiting,
                Action::ReleaseFirstThenCheck,
            ),
            (Phase::Waiting, Event::Elapsed(t)) => {
                let passed = match self.timeout_nanos {
                    Some(limit) => t > limit,
                    None => false,
                };
                if passed {
                    (Phase::TimedOut, Action::GiveUp)
                } else {
                    (Phase::TryingFirst, Action::BackoffThenTryFirst)
                }
            },
            _ => (self.phase, self.next_action()),
        };
        self.phase = next.0;
        next.1
    }
}

/// The deadline: after a failed round, a clock reading `t` ends the attempt
/// (holding nothing) exactly when `t` is past the deadline `limit`; a reading
/// at or before the deadline, and every reading when there is no deadline,
/// leads to a pause and a new try of the first lock.
pub proof fn law_deadline(timeout: Option<u128>, t: u128)
    ensures
        ({
            let m = TryLockBoth { phase: Phase::Waiting, timeout_nanos: timeout };
            let (next, a) = transition(m, Event::Elapsed(t));
            &&& next.timeout_nanos == timeout
            &&& (timeout matches Some(limit) && t > limit) ==> next.phase == Phase::TimedOut
                && a == Action::GiveUp
            &&& !(timeout matches Some(limit) && t > limit) ==> next.phase == Phase::TryingFirst
                && a == Action::BackoffThenTryFirst
        }),
{
}

/// Every failed round is followed by a retry: without a deadline, a failed
/// round (first lock busy, or second lock busy and the first released) and
/// any clock reading bring the attempt back to trying the first lock.
pub proof fn law_failed_round_retries(m: TryLockBoth, failure: Event, t: u128)
    requires
        m.timeout_nanos is None,
        (m.phase == Phase::TryingFirst && failure == Event::FirstLock(false)) || (m.phase
            == Phase::TryingSecond && failure == Event::SecondLock(false)),
    ensures
        run(m, seq![failure, Event::Elapsed(t)]).phase == Phase::TryingFirst,
        transition(transition(m, failure).0, Event::Elapsed(t)).1 == Action::BackoffThenTryFirst,
{
    let s = seq![failure, Event::Elapsed(t)];
    assert(s.drop_first() =~= seq![Event::Elapsed(t)]);
    assert(s.drop_first().drop_first() =~= Seq::<Event>::empty());
    let m1 = transition(m, failure).0;
    let m2 = transition(m1, Event::Elapsed(t)).0;
    assert(run(m1, s.drop_first()) == run(m2, s.drop_first().drop_first()));
}

/// The first lock is held only after it was granted: one step reaches the
/// phase that holds the first lock only from trying the first lock with a
/// grant, or by staying there on an event that answers nothing; and success
/// is reached only from holding the first lock with a grant of the second.
pub proof fn law_grants_lead_to_holding(m: TryLockBoth, e: Event)
    ensures
        transition(m, e).0.phase == Phase::TryingSecond ==> (m.phase == Phase::TryingFirst
            && e == Event::FirstLock(true)) || (m.phase == Phase::TryingSecond && !(
        e is SecondLock)),
        transition(m, e).0.phase == Phase::Acquired ==> (m.phase == Phase::TryingSecond
            && e == Event::SecondLock(true)) || m.phase == Phase::Acquired,
        transition(m, e).0.timeout_nanos == m.timeout_nanos,
{
}

/// The actions a phase waits for: only an abandoned attempt asks to give up,
/// only a successful one asks to stop with success; a failed round waits for
/// a deadline check, and the other phases for their lock attempts.
pub proof fn law_pending_actions(p: Phase)
    ensures
        (pending_action(p) == Action::GiveUp) == (p == Phase::TimedOut),
        (pending_action(p) == Action::Succeed) == (p == Phase::Acquired),
        (pending_action(p) == Action::CheckDeadline) == (p == Phase::Waiting),
        (pending_action(p) == Action::TryFirst) == (p == Phase::TryingFirst),
        (pending_action(p) == Action::TrySecond) == (p == Phase::TryingSecond),
{
}

/// Whether event `e` reports the outcome of the action that `phase` waits for.
pub open spec fn answers(phase: Phase, e: Event) -> bool {
    ||| phase == Phase::TryingFirst && e is FirstLock
    ||| phase == Phase::TryingSecond && e is SecondLock
    ||| phase == Phase::Waiting && e is Elapsed
}

/// Where each phase can be entered from. Giving up happens only on a clock
/// reading past the deadline after a failed round; a failed round (holding
/// nothing, waiting for a deadline check) is entered only on a refusal of the
/// first lock, or of the second lock while the first is held; a new try of
/// the first lock follows only a reading within the deadline. An event that
/// does not answer the pending action changes nothing and repeats it.
pub proof fn law_phase_sources(m: TryLockBoth, e: Event)
    ensures
        !answers(m.phase, e) ==> transition(m, e) == (m, pending_action(m.phase)),
        transition(m, e).0.phase == Phase::TimedOut ==> m.phase == Phase::TimedOut || (m.phase
            == Phase::Waiting && e is Elapsed && m.timeout_nanos is Some && e->Elapsed_0
            > m.timeout_nanos->0),
        transition(m, e).0.phase == Phase::Waiting ==> (m.phase == Phase::TryingFirst && e
            == Event::FirstLock(false)) || (m.phase == Phase::TryingSecond && e
            == Event::SecondLock(false)) || (m.phase == Phase::Waiting && !(e is Elapsed)),
        transition(m, e).0.phase == Phase::TryingFirst ==> (m.phase == Phase::TryingFirst && !(
        e is FirstLock)) || (m.phase == Phase::Waiting && e is Elapsed && !(
        m.timeout_nanos is Some && e->Elapsed_0 > m.timeout_nanos->0)),
        m.phase == Phase::TryingFirst && e == Event::FirstLock(false) ==> transition(m, e).0.phase
            == Phase::Waiting,
        m.phase == Phase::TryingFirst && e == Event::FirstLock(true) ==> transition(m, e).0.phase
            == Phase::TryingSecond,
        m.phase == Phase::TryingSecond && e == Event::SecondLock(false) ==> transition(
            m,
            e,
        ).0.phase == Phase::Waiting,
        m.phase == Phase::TryingSecond && e == Event::SecondLock(true) ==> transition(
            m,
            e,
        ).0.phase == Phase::Acquired,
{
}

/// The action returned by a step fits the phase it leads to: it releases the
/// first lock exactly when the step gives up holding it, it pauses exactly
/// when the step starts a new try of the first lock, and otherwise it is the
/// action that the new phase waits for.
pub proof fn law_action_fits_phase(m: TryLockBoth, e: Event)
    ensures
        ({
            let (next, a) = transition(m, e);
            &&& (a == Action::ReleaseFirstThenCheck) == (holds(m.phase).0 && !holds(next.phase).0)
            &&& (a == Action::BackoffThenTryFirst) == (m.phase != Phase::TryingFirst && next.phase
                == Phase::TryingFirst)
            &&& a != Action::ReleaseFirstThenCheck && a != Action::BackoffThenTryFirst ==> a
                == pending_action(next.phase)
            &&& a == Action::ReleaseFirstThenCheck ==> next.phase == Phase::Waiting
        }),
{
}

/// A run that holds the first lock from its start and ends holding both:
/// the first lock stays held up to a grant of the second.
pub open spec fn holds_first_until_second_grant(m: TryLockBoth, events: Seq<Event>, j: int) -> bool {
    &&& 0 <= j < events.len()
    &&& events[j] == Event::SecondLock(true)
    &&& forall|k: int| 0 <= k <= j ==> #[trigger] run(m, events.take(k)).phase == Phase::TryingSecond
    &&& forall|k: int| 0 <= k < j ==> #[trigger] events[k] != Event::SecondLock(false)
}

/// A run in which the first lock is granted at `i`, while trying it, and the
/// second at `j`, with the first lock held throughout in between.
pub open spec fn grants_first_then_second(m: TryLockBoth, events: Seq<Event>, i: int, j: int) -> bool {
    &&& 0 <= i < j < events.len()
    &&& events[i] == Event::FirstLock(true)
    &&& events[j] == Event::SecondLock(true)
    &&& run(m, events.take(i)).phase == Phase::TryingFirst
    &&& forall|k: int| i < k <= j ==> #[trigger] run(m, events.take(k)).phase == Phase::TryingSecond
    &&& forall|k: int| i < k < j ==> #[trigger] events[k] != Event::SecondLock(false)
}

/// Running a prefix of length `k > 0` is one step and then the rest of it.
proof fn lemma_run_take_step(m: TryLockBoth, events: Seq<Event>, k: int)
    requires
        0 < k <= events.len(),
    ensures
        run(m, events.take(k)) == run(transition(m, events[0]).0, events.drop_first().take(k - 1)),
{
    assert(events.take(k).drop_first() =~= events.drop_first().take(k - 1));
    assert(events.take(k)[0] == events[0]);
}

/// Both grants, in the two forms a run can show them.
proof fn lemma_success_grants(m: TryLockBoth, events: Seq<Event>)
    requires
        m.phase != Phase::Acquired,
        run(m, events).phase == Phase::Acquired,
    ensures
        (exists|j: int| holds_first_until_second_grant(m, events, j)) || (exists|i: int, j: int|
            grants_first_then_second(m, events, i, j)),
    decreases events.len(),
{
    assert(events.take(0) =~= Seq::<Event>::empty());
    assert(run(m, events.take(0)) == m);
    if events.len() == 0 {
        assert(run(m, events) == m);
        return;
    }
    let e0 = events[0];
    let next = transition(m, e0).0;
    let rest = events.drop_first();
    if next.phase == Phase::Acquired {
        assert(m.phase == Phase::TryingSecond && e0 == Event::SecondLock(true));
        assert(holds_first_until_second_grant(m, events, 0));
        return;
    }
    lemma_success_grants(next, rest);
    if exists|i: int, j: int| grants_first_then_second(next, rest, i, j) {
        let (i0, j0): (int, int) = choose|i: int, j: int| grants_first_then_second(next, rest, i, j);
        lemma_run_take_step(m, events, i0 + 1);
        assert forall|k: int| i0 + 1 < k <= j0 + 1 implies #[trigger] run(m, events.take(k)).phase
            == Phase::TryingSecond by {
            lemma_run_take_step(m, events, k);
            assert(run(next, rest.take(k - 1)).phase == Phase::TryingSecond);
        }
        assert forall|k: int| i0 + 1 < k < j0 + 1 implies #[trigger] events[k]
            != Event::SecondLock(false) by {
            assert(events[k] == rest[k - 1]);
            assert(rest[k - 1] != Event::SecondLock(false));
        }
        assert(events[i0 + 1] == rest[i0]);
        assert(events[j0 + 1] == rest[j0]);
        assert(grants_first_then_second(m, events, i0 + 1, j0 + 1));
    } else {
        let j0: int = choose|j: int| holds_first_until_second_grant(next, rest, j);
        assert(run(next, rest.take(0)).phase == Phase::TryingSecond);
        assert(rest.take(0) =~= Seq::<Event>::empty());
        assert(next.phase == Phase::TryingSecond);
        assert forall|k: int| 0 < k <= j0 + 1 implies #[trigger] run(m, events.take(k)).phase
            == Phase::TryingSecond by {
            lemma_run_take_step(m, events, k);
            assert(run(next, rest.take(k - 1)).phase == Phase::TryingSecond);
        }
        assert(events[j0 + 1] == rest[j0]);
        if m.phase == Phase::TryingSecond {
            assert(e0 != Event::SecondLock(false));
            assert forall|k: int| 0 <= k < j0 + 1 implies #[trigger] events[k]
                != Event::SecondLock(false) by {
                if k > 0 {
                    assert(events[k] == rest[k - 1]);
                    assert(rest[k - 1] != Event::SecondLock(false));
                }
            }
            assert(holds_first_until_second_grant(m, events, j0 + 1));
        } else {
            assert(m.phase == Phase::TryingFirst && e0 == Event::FirstLock(true));
            assert forall|k: int| 0 < k < j0 + 1 implies #[trigger] events[k]
                != Event::SecondLock(false) by {
                assert(events[k] == rest[k - 1]);
                assert(rest[k - 1] != Event::SecondLock(false));
            }
            assert(grants_first_then_second(m, events, 0, j0 + 1));
        }
    }
}

/// A run that starts holding no lock and ends holding both contains a grant
/// of the first lock, made while trying the first lock, and a later grant of
/// the second; in between the attempt holds the first lock throughout, so no
/// refusal of the second lock occurs there.
pub proof fn law_success_needs_both_grants(m: TryLockBoth, events: Seq<Event>)
    requires
        holds(m.phase) == (false, false),
        run(m, events).phase == Phase::Acquired,
    ensures
        exists|i: int, j: int| grants_first_then_second(m, events, i, j),
{
    lemma_success_grants(m, events);
    if exists|j: int| holds_first_until_second_grant(m, events, j) {
        let j: int = choose|j: int| holds_first_until_second_grant(m, events, j);
        assert(events.take(0) =~= Seq::<Event>::empty());
        assert(run(m, events.take(0)).phase == Phase::TryingSecond);
        assert(false);
    }
}

/// Once the attempt has succeeded or been abandoned, no event changes it.
pub proof fn law_final_phases_are_absorbing(m: TryLockBoth, events: Seq<Event>)
    requires
        is_final(m.phase),
    ensures
        run(m, events) == m,
    decreases events.len(),
{
    if events.len() > 0 {
        law_final_phases_are_absorbing(transition(m, events[0]).0, events.drop_first());
    }
}

/// Without a deadline the attempt is never abandoned, whatever the locks answer.
pub proof fn law_no_deadline_never_gives_up(m: TryLockBoth, events: Seq<Event>)
    requires
        m.timeout_nanos is None,
        m.phase != Phase::TimedOut,
    ensures
        run(m, events).phase != Phase::TimedOut,
        run(m, events).timeout_nanos is None,
    decreases events.len(),
{
    if events.len() > 0 {
        law_no_deadline_never_gives_up(transition(m, events[0]).0, events.drop_first());
    }
}

/// At every point of every run the second lock is held only together with the
/// first, and a run ends up holding both locks only by a grant of the second
/// lock while the first was held.
pub proof fn law_both_locks_or_none(m: TryLockBoth, events: Seq<Event>)
    requires
        m.phase != Phase::Acquired,
    ensures
        holds(run(m, events).phase).1 ==> holds(run(m, events).phase).0,
        run(m, events).phase == Phase::Acquired ==> exists|i: int|
            0 <= i < events.len() && events[i] == Event::SecondLock(true)
                && #[trigger] run(m, events.take(i)).phase == Phase::TryingSecond,
    decreases events.len(),
{
    if events.len() > 0 {
        let next = transition(m, events[0]).0;
        let rest = events.drop_first();
        if next.phase == Phase::Acquired {
            assert(m.phase == Phase::TryingSecond && events[0] == Event::SecondLock(true));
            law_final_phases_are_absorbing(next, rest);
            assert(events.take(0) =~= Seq::<Event>::empty());
            assert(run(m, events.take(0)) == m);
        } else {
            law_both_locks_or_none(next, rest);
            if run(m, events).phase == Phase::Acquired {
                let j: int = choose|j: int|
                    0 <= j < rest.len() && rest[j] == Event::SecondLock(true)
                        && #[trigger] run(next, rest.take(j)).phase == Phase::TryingSecond;
                assert(events[j + 1] == rest[j]);
                assert(events.take(j + 1).drop_first() =~= rest.take(j));
                assert(events.take(j + 1)[0] == events[0]);
                assert(run(m, events.take(j + 1)) == run(next, rest.take(j)));
            }
        }
    }
}

} // verus!
