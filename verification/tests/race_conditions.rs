use rtos_hazards::counting::{expected_total, lost_increments, Resources, SharedCounter};
use rtos_hazards::lazy::multiples_of_seven_below;
use rtos_hazards::once::{check_then_act, init_once, thread_label};
use rtos_hazards::shared_table::{sum_table, write_round};

#[test]
fn test_atomic_solution() {
    let mut counter = SharedCounter::new();
    for _ in 0..100 {
        counter.increment_times(1000);
    }
    assert_eq!(counter.value as u64, expected_total(100, 1000));
    assert_eq!(counter.value, 100000);
}

#[test]
fn test_mutex_solution() {
    let mut counter = SharedCounter::new();
    for _ in 0..100 {
        for _ in 0..1000 {
            counter.increment();
        }
    }
    assert_eq!(counter.value, 100000);
}

#[test]
fn expected_and_lost_counts() {
    assert_eq!(expected_total(10, 1_000_000), 10_000_000);
    assert_eq!(lost_increments(10_000_000, 9_876_543), 123_457);
    assert_eq!(lost_increments(10_000_000, 10_000_000), 0);
    assert_eq!(lost_increments(5, 7), 0);
}

#[test]
fn test_solution_single_mutex() {
    let mut r = Resources::default();
    assert_eq!((r.a, r.b), (0, 0));
    r.bump_both();
    r.bump_both();
    assert_eq!((r.a, r.b), (2, 2));
}

#[test]
fn writers_spread_over_the_table() {
    let mut table = vec![0u32; 1000];
    for _ in 0..10 {
        write_round(&mut table, 100);
    }
    assert_eq!(sum_table(&table), 1000);
    assert_eq!(table[0], 10);
    assert_eq!(table[99], 10);
    assert_eq!(table[100], 0);
}

#[test]
fn writes_wrap_around_a_short_table() {
    let mut table = vec![1u32, 2, 3];
    write_round(&mut table, 7);
    assert_eq!(table, vec![4, 4, 5]);
    assert_eq!(sum_table(&table), 13);
}

#[test]
fn thread_labels() {
    assert_eq!(thread_label(0), "Thread 0");
    assert_eq!(thread_label(7), "Thread 7");
    assert_eq!(thread_label(1234), "Thread 1234");
}

#[test]
fn check_then_act_initialises_once() {
    let mut cache: Option<String> = None;
    assert!(check_then_act(&mut cache, 3));
    assert_eq!(cache.as_deref(), Some("Thread 3"));
    for i in 0..10 {
        assert!(!check_then_act(&mut cache, i));
    }
    assert_eq!(cache.as_deref(), Some("Thread 3"));
}

#[test]
fn test_once_lock_solution() {
    let mut slot: Option<String> = None;
    let mut runs = 0;
    for i in 0..10usize {
        if init_once(&mut slot, || format!("Initialized by thread {}", i)) {
            runs += 1;
        }
    }
    assert_eq!(runs, 1);
    assert_eq!(slot.as_deref(), Some("Initialized by thread 0"));
}

#[test]
fn test_lazy_init() {
    let mut slot: Option<Vec<u64>> = None;
    let mut computed = 0;
    for _ in 0..5 {
        if init_once(&mut slot, || multiples_of_seven_below(1000)) {
            computed += 1;
        }
        assert_eq!(slot.as_ref().map(|v| v.len()), Some(143));
    }
    assert_eq!(computed, 1);
    let v = slot.unwrap();
    assert_eq!(v[0], 0);
    assert_eq!(v[1], 7);
    assert_eq!(v[142], 994);
}

#[test]
fn multiples_of_seven_edges() {
    assert_eq!(multiples_of_seven_below(0), Vec::<u64>::new());
    assert_eq!(multiples_of_seven_below(1), vec![0]);
    assert_eq!(multiples_of_seven_below(7), vec![0]);
    assert_eq!(multiples_of_seven_below(8), vec![0, 7]);
}
