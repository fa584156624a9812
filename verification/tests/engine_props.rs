use small_fsm::Action;
use small_fsm::Event;
use small_fsm::EventDesc;
use small_fsm::FSMError;
use small_fsm::HookType;
use small_fsm::FSM;
use std::cell::Cell;
use std::rc::Rc;

/// A callback that always fails with the given message.
struct FailWith(&'static str);

impl<I> Action<I> for FailWith {
    fn call(&self, _e: &Event<I>) -> Result<(), String> {
        Err(self.0.to_string())
    }
}

/// A callback that counts its invocations.
struct Tally(Rc<Cell<u32>>);

impl<I> Action<I> for Tally {
    fn call(&self, _e: &Event<I>) -> Result<(), String> {
        self.0.set(self.0.get() + 1);
        Ok(())
    }
}

fn door_rules() -> Vec<EventDesc> {
    vec![
        EventDesc {
            name: "open".to_string(),
            src: vec!["closed".to_string()],
            dst: "opened".to_string(),
        },
        EventDesc {
            name: "close".to_string(),
            src: vec!["opened".to_string()],
            dst: "closed".to_string(),
        },
    ]
}

#[test]
fn test_unknown_event() {
    let mut fsm: FSM<Vec<u32>, Tally> = FSM::new("closed".to_string(), door_rules(), Vec::new());
    let ret = fsm.on_event("shake", None);
    assert_eq!(ret.err().unwrap(), FSMError::UnknownEvent("shake".to_string()));
    assert_eq!("closed", fsm.get_current());
}

#[test]
fn test_self_transition_no_transition() {
    let rules = vec![EventDesc {
        name: "knock".to_string(),
        src: vec!["closed".to_string()],
        dst: "closed".to_string(),
    }];
    let mut fsm: FSM<Vec<u32>, Tally> = FSM::new("closed".to_string(), rules, Vec::new());
    let ret = fsm.on_event("knock", None);
    assert_eq!(ret.err().unwrap(), FSMError::NoTransition);
    assert_eq!("closed", fsm.get_current());
}

#[test]
fn test_self_transition_after_fail() {
    let rules = vec![EventDesc {
        name: "knock".to_string(),
        src: vec!["closed".to_string()],
        dst: "closed".to_string(),
    }];
    let hooks = vec![(HookType::AfterEvent, FailWith("still here"))];
    let mut fsm: FSM<Vec<u32>, FailWith> = FSM::new("closed".to_string(), rules, hooks);
    let ret = fsm.on_event("knock", None);
    assert_eq!(
        ret.err().unwrap(),
        FSMError::NoTransitionWithError("still here".to_string())
    );
    assert_eq!("closed", fsm.get_current());
}

#[test]
fn test_duplicate_rule_last_wins() {
    let rules = vec![
        EventDesc {
            name: "go".to_string(),
            src: vec!["start".to_string()],
            dst: "left".to_string(),
        },
        EventDesc {
            name: "go".to_string(),
            src: vec!["start".to_string()],
            dst: "right".to_string(),
        },
    ];
    let mut fsm: FSM<Vec<u32>, Tally> = FSM::new("start".to_string(), rules, Vec::new());
    assert!(fsm.on_event("go", None).is_ok());
    assert_eq!("right", fsm.get_current());
}

#[test]
fn test_duplicate_hook_last_wins() {
    let hooks = vec![
        (HookType::BeforeEvent, FailWith("first")),
        (HookType::BeforeEvent, FailWith("second")),
    ];
    let mut fsm: FSM<Vec<u32>, FailWith> = FSM::new("closed".to_string(), door_rules(), hooks);
    let ret = fsm.on_event("open", None);
    assert_eq!(ret.err().unwrap(), FSMError::InternalError("second".to_string()));
    assert_eq!("closed", fsm.get_current());
}

#[test]
fn test_custom_hook_unknown_dropped() {
    let hooks = vec![(HookType::Custom("bogus".to_string()), FailWith("never runs"))];
    let mut fsm: FSM<Vec<u32>, FailWith> = FSM::new("closed".to_string(), door_rules(), hooks);
    assert!(fsm.on_event("open", None).is_ok());
    assert_eq!("opened", fsm.get_current());
}

#[test]
fn test_custom_hook_event_name_runs_after() {
    let count = Rc::new(Cell::new(0u32));
    let hooks = vec![(HookType::Custom("open".to_string()), Tally(Rc::clone(&count)))];
    let mut fsm: FSM<Vec<u32>, Tally> = FSM::new("closed".to_string(), door_rules(), hooks);
    assert!(fsm.on_event("open", None).is_ok());
    assert_eq!("opened", fsm.get_current());
    assert_eq!(1, count.get());
}

#[test]
fn test_custom_hook_state_name_runs_on_enter() {
    let count = Rc::new(Cell::new(0u32));
    let hooks = vec![(HookType::Custom("opened".to_string()), Tally(Rc::clone(&count)))];
    let mut fsm: FSM<Vec<u32>, Tally> = FSM::new("closed".to_string(), door_rules(), hooks);
    assert!(fsm.on_event("open", None).is_ok());
    assert_eq!(1, count.get());
    // the hook is bound to entering "opened", so closing again does not run it
    assert!(fsm.on_event("close", None).is_ok());
    assert_eq!(1, count.get());
}

#[test]
fn test_replay_deterministic() {
    let script = ["open", "close", "open", "open", "close"];
    let mut first: FSM<Vec<u32>, Tally> = FSM::new("closed".to_string(), door_rules(), Vec::new());
    let mut second: FSM<Vec<u32>, Tally> = FSM::new("closed".to_string(), door_rules(), Vec::new());
    for ev in script {
        let a = first.on_event(ev, None);
        let b = second.on_event(ev, None);
        assert_eq!(a, b);
        assert_eq!(first.get_current(), second.get_current());
    }
    assert_eq!("closed", first.get_current());
}

#[test]
fn test_no_mutation_on_failure() {
    let hooks = vec![(HookType::LeaveState, FailWith("blocked"))];
    let mut fsm: FSM<Vec<u32>, FailWith> = FSM::new("closed".to_string(), door_rules(), hooks);

    let before = fsm.get_current();
    assert!(matches!(fsm.on_event("shake", None), Err(FSMError::UnknownEvent(_))));
    assert_eq!(before, fsm.get_current());

    assert!(matches!(fsm.on_event("close", None), Err(FSMError::InvalidEvent(_, _))));
    assert_eq!(before, fsm.get_current());

    assert!(matches!(fsm.on_event("open", None), Err(FSMError::InternalError(_))));
    assert_eq!(before, fsm.get_current());
}

#[test]
fn test_commit_survives_after_fail() {
    let hooks = vec![
        (HookType::Enter("opened".to_string()), FailWith("enter fail")),
        (HookType::After("open".to_string()), FailWith("after fail")),
    ];
    let mut fsm: FSM<Vec<u32>, FailWith> = FSM::new("closed".to_string(), door_rules(), hooks);
    assert!(fsm.on_event("open", None).is_ok());
    assert_eq!("opened", fsm.get_current());
}

#[test]
fn test_can_invokes_no_callback() {
    let count = Rc::new(Cell::new(0u32));
    let hooks = vec![
        (HookType::BeforeEvent, Tally(Rc::clone(&count))),
        (HookType::AfterEvent, Tally(Rc::clone(&count))),
    ];
    let fsm: FSM<Vec<u32>, Tally> = FSM::new("closed".to_string(), door_rules(), hooks);
    assert!(fsm.can("open"));
    assert!(!fsm.can("close"));
    assert!(!fsm.can("shake"));
    assert_eq!(0, count.get());
}

#[test]
fn test_multi_source_rule() {
    let rules = vec![EventDesc {
        name: "reset".to_string(),
        src: vec!["opened".to_string(), "jammed".to_string()],
        dst: "closed".to_string(),
    }];
    let mut from_opened: FSM<Vec<u32>, Tally> =
        FSM::new("opened".to_string(), rules.clone(), Vec::new());
    assert!(from_opened.on_event("reset", None).is_ok());
    assert_eq!("closed", from_opened.get_current());

    let mut from_jammed: FSM<Vec<u32>, Tally> = FSM::new("jammed".to_string(), rules, Vec::new());
    assert!(from_jammed.on_event("reset", None).is_ok());
    assert_eq!("closed", from_jammed.get_current());
}

/// A callback that asserts its position in the invocation order and then
/// advances the shared counter.
struct Expect {
    counter: Rc<Cell<u32>>,
    at: u32,
}

impl Expect {
    fn nth(counter: &Rc<Cell<u32>>, at: u32) -> Self {
        Expect { counter: Rc::clone(counter), at }
    }
}

impl<I> Action<I> for Expect {
    fn call(&self, _e: &Event<I>) -> Result<(), String> {
        assert_eq!(self.at, self.counter.get());
        self.counter.set(self.counter.get() + 1);
        Ok(())
    }
}

#[test]
fn test_all_eight_hook_points_in_order() {
    let counter = Rc::new(Cell::new(0u32));
    let hooks = vec![
        (HookType::AfterEvent, Expect::nth(&counter, 7)),
        (HookType::After("open".to_string()), Expect::nth(&counter, 6)),
        (HookType::EnterState, Expect::nth(&counter, 5)),
        (HookType::Enter("opened".to_string()), Expect::nth(&counter, 4)),
        (HookType::LeaveState, Expect::nth(&counter, 3)),
        (HookType::Leave("closed".to_string()), Expect::nth(&counter, 2)),
        (HookType::BeforeEvent, Expect::nth(&counter, 1)),
        (HookType::Before("open".to_string()), Expect::nth(&counter, 0)),
    ];
    let mut fsm: FSM<Vec<u32>, Expect> = FSM::new("closed".to_string(), door_rules(), hooks);
    assert!(fsm.on_event("open", None).is_ok());
    assert_eq!("opened", fsm.get_current());
    assert_eq!(8, counter.get());
}

/// A callback that checks the transition event it was handed.
struct WantsArgs;

impl Action<Vec<u32>> for WantsArgs {
    fn call(&self, e: &Event<Vec<u32>>) -> Result<(), String> {
        assert_eq!("open", e.event);
        assert_eq!("closed", e.src);
        assert_eq!("opened", e.dst);
        assert_eq!(&Some(vec![7, 9]), &e.args);
        Ok(())
    }
}

#[test]
fn test_args_passed_through() {
    let hooks = vec![(HookType::BeforeEvent, WantsArgs)];
    let mut fsm: FSM<Vec<u32>, WantsArgs> = FSM::new("closed".to_string(), door_rules(), hooks);
    assert!(fsm.on_event("open", Some(vec![7, 9])).is_ok());
}
