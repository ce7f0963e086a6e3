use minirt::countdown::{child, countdown};
use minirt::port::{Port, PortClosed, PortState};
use minirt::task::{Task, TaskState};
use std::cell::RefCell;

#[test]
fn countdown_counts_down_to_one() {
    assert_eq!(countdown(3), vec![3, 2, 1]);
    assert_eq!(countdown(1), vec![1]);
    assert_eq!(countdown(5), vec![5, 4, 3, 2, 1]);
}

#[test]
fn countdown_from_below_one_is_empty() {
    assert_eq!(countdown(0), Vec::<isize>::new());
    assert_eq!(countdown(-1), Vec::<isize>::new());
    assert_eq!(countdown(isize::MIN), Vec::<isize>::new());
}

#[test]
fn countdown_from_a_thousand() {
    let arguments = countdown(1000);
    assert_eq!(arguments.len(), 1000);
    assert_eq!(arguments[0], 1000);
    assert_eq!(arguments[1], 999);
    assert_eq!(arguments[499], 501);
    assert_eq!(arguments[999], 1);
}

#[test]
fn child_reports_its_number() {
    let mut port: Port<isize> = Port::new();
    assert_eq!(child(17, &mut port), Ok(()));
    assert_eq!(child(-4, &mut port), Ok(()));
    assert_eq!(port.state(), PortState::Active);
    assert_eq!(port.receive(), Some(17));
    assert_eq!(port.receive(), Some(-4));
    assert_eq!(port.receive(), None);
}

#[test]
fn child_fails_on_a_destroyed_port() {
    let mut port: Port<isize> = Port::new();
    port.destroy();
    assert_eq!(child(17, &mut port), Err(PortClosed { value: 17 }));
    assert_eq!(port.pending_count(), 0);
}

fn run_countdown(order: impl Fn(usize) -> usize) -> Vec<isize> {
    let port: RefCell<Port<isize>> = RefCell::new(Port::new());
    let mut tasks = Vec::new();
    for x in countdown(1000) {
        let report = |x: isize| child(x, &mut port.borrow_mut()).expect("the port is open");
        tasks.push(Task::spawn(report, x));
    }
    assert_eq!(tasks.len(), 1000);
    assert_eq!(port.borrow().pending_count(), 0);
    for turn in 0..1000 {
        assert!(tasks[order(turn)].run());
    }
    assert!(tasks.iter().all(|task| task.state() == TaskState::Completed));
    let mut received = Vec::new();
    while let Some(x) = port.borrow_mut().receive() {
        received.push(x);
    }
    received
}

#[test]
fn a_thousand_tasks_in_spawn_order() {
    let received = run_countdown(|turn| turn);
    assert_eq!(received, countdown(1000));
}

#[test]
fn a_thousand_tasks_in_any_order() {
    for stride in [999usize, 7, 333, 501] {
        let received = run_countdown(|turn| (turn * stride + 13) % 1000);
        assert_eq!(received.len(), 1000);
        let mut sorted = received.clone();
        sorted.sort();
        let expected: Vec<isize> = (1..=1000).collect();
        assert_eq!(sorted, expected);
    }
}

#[test]
fn a_thousand_tasks_while_the_receiver_drains() {
    let port: RefCell<Port<isize>> = RefCell::new(Port::new());
    let mut received = Vec::new();
    let mut idle = 0;
    for (turn, x) in countdown(1000).into_iter().enumerate() {
        let report = |x: isize| child(x, &mut port.borrow_mut()).expect("the port is open");
        let mut task = Task::spawn(report, x);
        assert!(task.run());
        if turn % 3 == 0 {
            for _ in 0..4 {
                match port.borrow_mut().receive() {
                    Some(value) => received.push(value),
                    None => idle += 1,
                }
            }
        }
    }
    while let Some(value) = port.borrow_mut().receive() {
        received.push(value);
    }
    assert!(idle > 0);
    assert_eq!(received, countdown(1000));
}

#[test]
fn tasks_that_find_the_port_destroyed_keep_their_numbers() {
    let port: RefCell<Port<isize>> = RefCell::new(Port::new());
    let kept = RefCell::new(Vec::new());
    let mut tasks = Vec::new();
    for x in countdown(10) {
        let report = |x: isize| {
            if let Err(closed) = child(x, &mut port.borrow_mut()) {
                kept.borrow_mut().push(closed.value);
            }
        };
        tasks.push(Task::spawn(report, x));
    }
    for task in tasks.iter_mut().take(4) {
        assert!(task.run());
    }
    port.borrow_mut().destroy();
    for task in tasks.iter_mut().skip(4) {
        assert!(task.run());
    }
    assert_eq!(port.borrow().pending_count(), 0);
    assert_eq!(*kept.borrow(), vec![6, 5, 4, 3, 2, 1]);
}
