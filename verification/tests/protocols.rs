use rtos_hazards::try_lock::{Action, Event, Phase, TryLockBoth};

#[test]
fn both_free_locks_are_taken_at_once() {
    let mut m = TryLockBoth::new(Some(5_000_000_000));
    assert_eq!(m.next_action(), Action::TryFirst);
    assert_eq!(m.step(Event::FirstLock(true)), Action::TrySecond);
    assert_eq!(m.phase, Phase::TryingSecond);
    assert_eq!(m.step(Event::SecondLock(true)), Action::Succeed);
    assert_eq!(m.phase, Phase::Acquired);
}

#[test]
fn busy_second_lock_releases_the_first() {
    let mut m = TryLockBoth::new(Some(100));
    assert_eq!(m.step(Event::FirstLock(true)), Action::TrySecond);
    assert_eq!(m.step(Event::SecondLock(false)), Action::ReleaseFirstThenCheck);
    assert_eq!(m.phase, Phase::Waiting);
    assert_eq!(m.step(Event::Elapsed(50)), Action::BackoffThenTryFirst);
    assert_eq!(m.phase, Phase::TryingFirst);
}

#[test]
fn busy_first_lock_checks_the_deadline() {
    let mut m = TryLockBoth::new(Some(100));
    assert_eq!(m.step(Event::FirstLock(false)), Action::CheckDeadline);
    assert_eq!(m.step(Event::Elapsed(100)), Action::BackoffThenTryFirst);
    assert_eq!(m.step(Event::FirstLock(false)), Action::CheckDeadline);
    assert_eq!(m.step(Event::Elapsed(101)), Action::GiveUp);
    assert_eq!(m.phase, Phase::TimedOut);
}

#[test]
fn without_deadline_the_attempt_goes_on() {
    let mut m = TryLockBoth::new(None);
    for _ in 0..10 {
        assert_eq!(m.step(Event::FirstLock(true)), Action::TrySecond);
        assert_eq!(m.step(Event::SecondLock(false)), Action::ReleaseFirstThenCheck);
        assert_eq!(m.step(Event::Elapsed(u128::MAX)), Action::BackoffThenTryFirst);
    }
    assert_eq!(m.phase, Phase::TryingFirst);
}

#[test]
fn final_phases_ignore_further_events() {
    let mut m = TryLockBoth::new(Some(0));
    m.step(Event::FirstLock(false));
    assert_eq!(m.step(Event::Elapsed(1)), Action::GiveUp);
    assert_eq!(m.step(Event::FirstLock(true)), Action::GiveUp);
    assert_eq!(m.phase, Phase::TimedOut);

    let mut m = TryLockBoth::new(None);
    m.step(Event::FirstLock(true));
    m.step(Event::SecondLock(true));
    assert_eq!(m.step(Event::Elapsed(5)), Action::Succeed);
    assert_eq!(m.phase, Phase::Acquired);
}

#[test]
fn unexpected_event_repeats_the_pending_action() {
    let mut m = TryLockBoth::new(None);
    assert_eq!(m.step(Event::SecondLock(true)), Action::TryFirst);
    assert_eq!(m.phase, Phase::TryingFirst);
    m.step(Event::FirstLock(true));
    assert_eq!(m.step(Event::Elapsed(0)), Action::TrySecond);
    assert_eq!(m.phase, Phase::TryingSecond);
}
