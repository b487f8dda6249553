use rtos_hazards::priority::{Priority, Task};
use rtos_hazards::reports::{expected_sum, starvation_verdict, ProgressMonitor, StarvationVerdict};

#[test]
fn task_keeps_name_and_priority() {
    let t = Task::new("NISKI", Priority::Low);
    assert_eq!(t.name, "NISKI");
    assert_eq!(t.priority, Priority::Low);
    assert_eq!(t.priority.level(), 1);
    assert_eq!(Priority::Medium.level(), 2);
    assert_eq!(Priority::High.level(), 3);
    assert!(Priority::High > Priority::Medium && Priority::Medium > Priority::Low);
}

#[test]
fn starvation_verdicts() {
    assert_eq!(starvation_verdict(5_000_000, 0), StarvationVerdict::NeverRan);
    assert_eq!(starvation_verdict(5_000_000, 10), StarvationVerdict::SeverelyStarved);
    assert_eq!(starvation_verdict(10_000, 10), StarvationVerdict::GotCpuTime);
    assert_eq!(starvation_verdict(10_009, 10), StarvationVerdict::GotCpuTime);
    assert_eq!(starvation_verdict(10_010, 10), StarvationVerdict::SeverelyStarved);
}

#[test]
fn progress_checkpoints() {
    let mut m = ProgressMonitor::new();
    let mut checkpoints = 0;
    for _ in 0..250_000 {
        if m.tick() {
            checkpoints += 1;
        }
    }
    assert_eq!(checkpoints, 2);
    assert!(m.observe(17));
    assert!(!m.observe(17));
    assert!(m.observe(18));
    assert_eq!(m.last_count, 18);
}

#[test]
fn consumer_sum_formula() {
    assert_eq!(expected_sum(1), 0);
    assert_eq!(expected_sum(4), 6);
    assert_eq!(expected_sum(1_000_000), 499_999_500_000);
}
