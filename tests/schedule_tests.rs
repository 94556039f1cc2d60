use std::cell::RefCell;
use tick_os::schedule::{add_task, task_one, task_two, Registry, RegistryFull, Scheduler, MAX_TASKS};

#[test]
fn four_registrations_succeed_fifth_fails() {
    let mut reg: Registry<u32> = Registry::new();
    for t in 0..4u32 {
        assert_eq!(add_task(&mut reg, t + 100), Ok(()));
    }
    assert_eq!(add_task(&mut reg, 999), Err(RegistryFull));
    for i in 0..MAX_TASKS {
        assert_eq!(*reg.slot(i), Some(i as u32 + 100));
    }
}

#[test]
fn registration_fills_slots_in_order() {
    let mut reg: Registry<char> = Registry::new();
    assert_eq!(*reg.slot(0), None);
    assert_eq!(add_task(&mut reg, 'a'), Ok(()));
    assert_eq!(add_task(&mut reg, 'b'), Ok(()));
    assert_eq!(*reg.slot(0), Some('a'));
    assert_eq!(*reg.slot(1), Some('b'));
    assert_eq!(*reg.slot(2), None);
    assert_eq!(*reg.slot(3), None);
}

#[test]
fn three_tasks_run_round_robin() {
    let mut reg: Registry<char> = Registry::new();
    add_task(&mut reg, 'A').unwrap();
    add_task(&mut reg, 'B').unwrap();
    add_task(&mut reg, 'C').unwrap();
    let mut sched = Scheduler::new();
    let log = RefCell::new(Vec::new());
    let invoke = |t: char| log.borrow_mut().push(t);
    for i in 0..9usize {
        assert_eq!(sched.run_once(&reg, &invoke), Some(i % 3));
    }
    let ran: String = log.borrow().iter().collect();
    assert_eq!(ran, "ABCABCABC");
}

#[test]
fn four_tasks_cycle_through_every_slot() {
    let mut reg: Registry<u8> = Registry::new();
    for t in 0..4u8 {
        add_task(&mut reg, t).unwrap();
    }
    let mut sched = Scheduler::new();
    let mut seen = Vec::new();
    for _ in 0..8 {
        seen.push(sched.select_next(&reg).unwrap().1);
    }
    assert_eq!(seen, vec![0, 1, 2, 3, 0, 1, 2, 3]);
}

#[test]
fn single_task_runs_every_iteration() {
    let mut reg: Registry<u8> = Registry::new();
    add_task(&mut reg, 7).unwrap();
    let mut sched = Scheduler::new();
    for _ in 0..5 {
        assert_eq!(sched.select_next(&reg), Some((0, 7)));
        assert_eq!(sched.cursor(), 0);
    }
}

#[test]
fn first_selection_starts_at_slot_zero() {
    let sched = Scheduler::new();
    assert_eq!(sched.cursor(), MAX_TASKS - 1);
    let mut reg: Registry<u8> = Registry::new();
    add_task(&mut reg, 1).unwrap();
    add_task(&mut reg, 2).unwrap();
    let mut sched = sched;
    assert_eq!(sched.select_next(&reg), Some((0, 1)));
    assert_eq!(sched.select_next(&reg), Some((1, 2)));
    assert_eq!(sched.select_next(&reg), Some((0, 1)));
}

#[test]
fn empty_registry_idles() {
    let reg: Registry<u8> = Registry::new();
    let mut sched = Scheduler::new();
    let calls = RefCell::new(0u32);
    let invoke = |_t: u8| *calls.borrow_mut() += 1;
    for _ in 0..100 {
        assert_eq!(sched.run_once(&reg, &invoke), None);
        assert_eq!(sched.cursor(), MAX_TASKS - 1);
    }
    assert_eq!(*calls.borrow(), 0);
}

#[test]
fn example_tasks_run_as_function_pointers() {
    let mut reg: Registry<fn()> = Registry::new();
    add_task(&mut reg, task_one as fn()).unwrap();
    add_task(&mut reg, task_two as fn()).unwrap();
    let mut sched = Scheduler::new();
    let invoke = |t: fn()| t();
    assert_eq!(sched.run_once(&reg, &invoke), Some(0));
    assert_eq!(sched.run_once(&reg, &invoke), Some(1));
    assert_eq!(sched.run_once(&reg, &invoke), Some(0));
}
