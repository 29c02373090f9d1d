use engine::command::{Command, CommandStack, CommandUndo};
use engine::event::{Event, Payload, Routes};
use engine::observe::{Observer, Subject};

use std::cell::{Cell, RefCell};
use std::rc::Rc;

struct Test {
    pub value: String,
}

impl Test {
    pub fn new(value: &str) -> Self {
        Self {
            value: value.to_string(),
        }
    }
}

impl Command for Test {
    fn execute(&mut self, _target: ()) -> () {
        self.value = "Goodbye".to_string();
    }
}

struct Test2 {
    pub value: String,
    last_value: String,
}

impl Test2 {
    pub fn new(value: &str) -> Self {
        Self {
            value: value.to_string(),
            last_value: "".to_string(),
        }
    }
}

impl CommandUndo for Test2 {
    fn is_done(&self) -> bool {
        self.value == "Goodbye"
    }

    fn execute(&mut self) -> () {
        self.last_value = self.value.clone();
        self.value = "Goodbye".to_string();
    }

    fn undo(&mut self) -> () {
        self.value = self.last_value.clone();
    }
}

#[test]
fn command_test() {
    let mut test0 = Test::new("Hello!");

    test0.execute(());

    assert_eq!(test0.value, "Goodbye".to_string())
}

#[test]
fn command_undo_test() {
    let mut cmd_stack = CommandStack::new(None);

    let test1 = Test2::new("Hello");

    cmd_stack.execute(test1);

    cmd_stack.undo();

    cmd_stack.redo();
}

/// Counts how often it is executed and undone.
struct Counter {
    executed: Rc<Cell<i32>>,
    undone: Rc<Cell<i32>>,
}

impl CommandUndo for Counter {
    fn is_done(&self) -> bool {
        self.executed.get() > self.undone.get()
    }

    fn execute(&mut self) {
        self.executed.set(self.executed.get() + 1);
    }

    fn undo(&mut self) {
        self.undone.set(self.undone.get() + 1);
    }
}

fn counter(executed: &Rc<Cell<i32>>, undone: &Rc<Cell<i32>>) -> Counter {
    Counter {
        executed: executed.clone(),
        undone: undone.clone(),
    }
}

#[test]
fn undo_and_redo_on_empty_stack_do_nothing() {
    let mut stack = CommandStack::new(None);
    assert!(!stack.undo());
    assert!(!stack.redo());
}

#[test]
fn execute_runs_the_command_once_and_returns_true() {
    let executed = Rc::new(Cell::new(0));
    let undone = Rc::new(Cell::new(0));
    let mut stack = CommandStack::new(Some(3));
    assert!(stack.execute(counter(&executed, &undone)));
    assert_eq!(executed.get(), 1);
    assert_eq!(undone.get(), 0);
}

#[test]
fn undo_then_redo_comes_back() {
    let executed = Rc::new(Cell::new(0));
    let undone = Rc::new(Cell::new(0));
    let mut stack = CommandStack::new(None);
    stack.execute(counter(&executed, &undone));
    stack.execute(counter(&executed, &undone));
    assert!(stack.undo());
    assert_eq!(undone.get(), 1);
    assert!(stack.redo());
    assert_eq!(executed.get(), 3);
    // nothing left to redo
    assert!(!stack.redo());
    assert!(stack.undo());
    assert!(stack.undo());
    assert!(!stack.undo());
    assert_eq!(undone.get(), 3);
}

#[test]
fn full_history_drops_the_oldest_command() {
    let executed = Rc::new(Cell::new(0));
    let undone = Rc::new(Cell::new(0));
    let mut stack = CommandStack::new(Some(1));
    assert!(stack.execute(counter(&executed, &undone)));
    assert!(stack.execute(counter(&executed, &undone)));
    assert_eq!(executed.get(), 2);
}

/// Writes what it does, under its name, into a shared log.
struct Logged {
    name: &'static str,
    done: bool,
    log: Rc<RefCell<Vec<String>>>,
}

impl CommandUndo for Logged {
    fn is_done(&self) -> bool {
        self.done
    }

    fn execute(&mut self) {
        self.done = true;
        self.log.borrow_mut().push(format!("do {}", self.name));
    }

    fn undo(&mut self) {
        self.done = false;
        self.log.borrow_mut().push(format!("undo {}", self.name));
    }
}

fn logged(name: &'static str, log: &Rc<RefCell<Vec<String>>>) -> Logged {
    Logged {
        name,
        done: false,
        log: log.clone(),
    }
}

#[test]
fn execute_clears_only_the_commands_that_could_be_redone() {
    let log = Rc::new(RefCell::new(Vec::new()));
    let mut stack = CommandStack::new(None);
    stack.execute(logged("a", &log));
    stack.execute(logged("b", &log));
    assert!(stack.undo());
    assert!(stack.execute(logged("c", &log)));
    assert!(!stack.redo());
    assert!(stack.undo());
    assert!(stack.undo());
    assert!(!stack.undo());
    assert_eq!(
        *log.borrow(),
        vec!["do a", "do b", "undo b", "do c", "undo c", "undo a"]
    );
}

#[test]
fn execute_after_undoing_everything_starts_afresh() {
    let log = Rc::new(RefCell::new(Vec::new()));
    let mut stack = CommandStack::new(None);
    stack.execute(logged("a", &log));
    assert!(stack.undo());
    assert!(stack.execute(logged("b", &log)));
    assert!(!stack.redo());
    assert!(stack.undo());
    assert!(!stack.undo());
    assert_eq!(*log.borrow(), vec!["do a", "undo a", "do b", "undo b"]);
}

#[test]
fn a_full_stack_forgets_its_oldest_command() {
    let log = Rc::new(RefCell::new(Vec::new()));
    let mut stack = CommandStack::new(Some(2));
    stack.execute(logged("a", &log));
    stack.execute(logged("b", &log));
    assert!(stack.execute(logged("c", &log)));
    assert!(stack.undo());
    assert!(stack.undo());
    assert!(!stack.undo());
    assert!(stack.redo());
    assert!(stack.redo());
    assert!(!stack.redo());
    assert_eq!(
        *log.borrow(),
        vec!["do a", "do b", "do c", "undo c", "undo b", "do b", "do c"]
    );
}

struct TestObserver {}

#[derive(Debug, Clone, Copy)]
struct TestSubject(i32);

impl Observer<TestSubject> for TestObserver {
    fn told(&self, _state: TestSubject) -> bool {
        true
    }

    fn update(&self, state: &TestSubject) {
        assert_eq!(state.0, 50);
    }
}

#[test]
fn observe_test() {
    let mut test_subject = Subject::new(TestSubject(30));

    let o0 = TestObserver {};
    let o1 = TestObserver {};
    let o2 = TestObserver {};
    let o3 = TestObserver {};

    test_subject.attach(Box::new(o0));
    test_subject.attach(Box::new(o1));
    test_subject.attach(Box::new(o2));
    test_subject.attach(Box::new(o3));

    test_subject.update_state(TestSubject(50));
}

struct Recorder {
    seen: Rc<Cell<i32>>,
}

impl Observer<i32> for Recorder {
    fn told(&self, state: i32) -> bool {
        self.seen.get() == state
    }

    fn update(&self, state: &i32) {
        self.seen.set(*state);
    }
}

#[test]
fn observers_see_every_new_state_and_state_returns_it() {
    let seen = Rc::new(Cell::new(0));
    let mut subject = Subject::new(1);
    assert_eq!(subject.state(), 1);
    subject.attach(Box::new(Recorder { seen: seen.clone() }));
    subject.update_state(7);
    assert_eq!(seen.get(), 7);
    assert_eq!(subject.state(), 7);
}

struct Numbered {
    number: i32,
    log: Rc<RefCell<Vec<(i32, i32)>>>,
}

impl Observer<i32> for Numbered {
    fn told(&self, state: i32) -> bool {
        self.log.borrow().contains(&(self.number, state))
    }

    fn update(&self, state: &i32) {
        self.log.borrow_mut().push((self.number, *state));
    }
}

#[test]
fn every_observer_is_told_once_in_attach_order() {
    let log = Rc::new(RefCell::new(Vec::new()));
    let mut subject = Subject::new(0);
    for number in 0..3 {
        subject.attach(Box::new(Numbered { number, log: log.clone() }));
    }
    subject.update_state(9);
    assert_eq!(*log.borrow(), vec![(0, 9), (1, 9), (2, 9)]);
}

#[test]
fn event_new_keeps_its_parts() {
    let event = Event::new("audio".to_string(), Payload::Post("(1)".to_string()));
    assert_eq!(event.module, "audio".to_string());
    match event.payload {
        Payload::Post(data) => assert_eq!(data, "(1)".to_string()),
        Payload::Empty => panic!("payload lost"),
    }
}

#[test]
fn routes_send_events_to_the_latest_subscriber_of_their_module() {
    let mut routes = Routes::new();
    assert_eq!(routes.subscribe("test".to_string()), (0, false));
    assert_eq!(routes.subscribe("other".to_string()), (1, false));
    assert_eq!(routes.subscribe("test".to_string()), (0, true));
    let to_test = Event::new("test".to_string(), Payload::Empty);
    let to_other = Event::new("other".to_string(), Payload::Empty);
    let to_nobody = Event::new("nobody".to_string(), Payload::Empty);
    assert_eq!(routes.route(&to_test), Some(0));
    assert_eq!(routes.route(&to_other), Some(1));
    assert_eq!(routes.route(&to_nobody), None);
}
