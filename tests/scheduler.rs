use std::collections::HashMap;

use turing_screen::scheduler::{initial_snapshot, record_measurement, Mailbox, Scheduler, Task};

#[test]
fn faster_tasks_run_more_often() {
    let mut s = Scheduler::new(1000);
    s.register_task(Task::new(1, 2000));
    s.register_task(Task::new(2, 3000));
    s.register_task(Task::new(3, 10000));
    let mut runs = [0usize; 3];
    let mut now: u64 = 0;
    while now <= 3000 {
        let tick = s.tick(now);
        for i in tick.run {
            runs[i] += 1;
        }
        now += 100;
    }
    assert!(runs[0] >= 1 && runs[1] >= 1);
    assert!(runs[0] >= runs[2] + 1);
    assert_eq!(runs, [2, 2, 1]);
}

#[test]
fn tick_lists_due_tasks_in_registration_order() {
    let mut s = Scheduler::new(500);
    s.register_task(Task::new(7, 1000));
    s.register_task(Task::new(8, 200));
    s.register_task(Task::new(9, 1000));
    let t = s.tick(50);
    assert_eq!(t.run, vec![0, 1, 2]);
    assert!(t.publish);
    let t = s.tick(300);
    assert_eq!(t.run, vec![1]);
    assert!(!t.publish);
    let t = s.tick(1050);
    assert_eq!(t.run, vec![0, 1, 2]);
    assert!(t.publish);
    assert_eq!(s.task_list()[1], Task { id: 8, period: 200, last: Some(1050) });
}

#[test]
fn clock_going_backwards_runs_nothing_new() {
    let mut s = Scheduler::new(100);
    s.register_task(Task::new(1, 100));
    assert_eq!(s.tick(5000).run, vec![0]);
    let t = s.tick(4000);
    assert!(t.run.is_empty());
    assert!(!t.publish);
}

#[test]
fn measurements_update_known_meters_only() {
    let mut snap: HashMap<u64, i32> = initial_snapshot(&vec![1, 2], 0);
    assert_eq!(snap.len(), 2);
    record_measurement::<i32, ()>(&mut snap, 1, Ok(42));
    assert_eq!(snap[&1], 42);
    record_measurement(&mut snap, 1, Err("sensor missing"));
    assert_eq!(snap[&1], 42);
    record_measurement::<i32, ()>(&mut snap, 3, Ok(5));
    assert_eq!(snap.len(), 2);
    assert!(!snap.contains_key(&3));
    assert_eq!(snap[&2], 0);
}

#[test]
fn mailbox_drops_when_full() {
    let mut m: Mailbox<u32> = Mailbox::new();
    assert!(!m.is_full());
    assert!(m.try_send(1));
    assert!(m.is_full());
    assert!(!m.try_send(2));
    assert_eq!(m.take(), Some(1));
    assert_eq!(m.take(), None);
    assert!(m.try_send(3));
    assert_eq!(m.take(), Some(3));
}
