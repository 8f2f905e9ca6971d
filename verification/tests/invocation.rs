use wasm_bench::invoke::{start, Action, Event, InvokeError, Phase};

fn drive(input_len: usize, events: Vec<Event>) -> Vec<Action> {
    let (mut phase, first) = start(input_len);
    assert!(matches!(first, Action::Instantiate));
    let mut actions = Vec::new();
    for e in events {
        assert!(phase.can_accept(&e));
        let (next, a) = phase.step(e);
        phase = next;
        actions.push(a);
    }
    actions
}

#[test]
fn successful_request_runs_every_step_in_order() {
    let acts = drive(
        5,
        vec![
            Event::Instantiated,
            Event::Allocated(1024),
            Event::Written,
            Event::Handled(0),
            Event::ReadBack(vec![9, 8, 7, 6, 5]),
            Event::Released,
        ],
    );
    assert_eq!(acts.len(), 6);
    assert!(matches!(acts[0], Action::Alloc { len: 5 }));
    assert!(matches!(acts[1], Action::Write { ptr: 1024 }));
    assert!(matches!(acts[2], Action::Handle { ptr: 1024, len: 5 }));
    assert!(matches!(acts[3], Action::Read { ptr: 1024, count: 5 }));
    assert!(matches!(acts[4], Action::Dealloc { ptr: 1024, len: 5 }));
    match &acts[5] {
        Action::Finish(Ok(reply)) => assert_eq!(reply, &vec![9, 8, 7, 6, 5]),
        _ => panic!("expected a reply"),
    }
}

#[test]
fn nonzero_code_releases_memory_then_fails() {
    let acts = drive(
        3,
        vec![Event::Instantiated, Event::Allocated(64), Event::Written, Event::Handled(7), Event::Released],
    );
    assert!(matches!(acts[3], Action::Dealloc { ptr: 64, len: 3 }));
    assert!(matches!(acts[4], Action::Finish(Err(InvokeError::GuestCode(7)))));
}

#[test]
fn nonzero_code_wins_over_release_failure() {
    let acts = drive(
        3,
        vec![
            Event::Instantiated,
            Event::Allocated(64),
            Event::Written,
            Event::Handled(-1),
            Event::Failed("trap".to_string()),
        ],
    );
    assert!(matches!(acts[4], Action::Finish(Err(InvokeError::GuestCode(-1)))));
}

#[test]
fn oversized_request_is_refused_after_instantiation() {
    let big = i32::MAX as usize + 1;
    let acts = drive(big, vec![Event::Instantiated]);
    assert!(matches!(acts[0], Action::Finish(Err(InvokeError::RequestTooLarge))));
}

#[test]
fn largest_request_is_accepted() {
    let acts = drive(i32::MAX as usize, vec![Event::Instantiated]);
    assert!(matches!(acts[0], Action::Alloc { len: i32::MAX }));
}

#[test]
fn failures_name_the_failing_step() {
    let acts = drive(1, vec![Event::Failed("no memory export".to_string())]);
    match &acts[0] {
        Action::Finish(Err(InvokeError::Instantiate(m))) => assert_eq!(m, "no memory export"),
        _ => panic!("expected instantiation failure"),
    }
    let acts = drive(1, vec![Event::Instantiated, Event::Failed("a".to_string())]);
    assert!(matches!(acts[1], Action::Finish(Err(InvokeError::Alloc(_)))));
    let acts = drive(1, vec![Event::Instantiated, Event::Allocated(8), Event::Failed("w".to_string())]);
    assert!(matches!(acts[2], Action::Finish(Err(InvokeError::Write(_)))));
    let acts = drive(
        1,
        vec![Event::Instantiated, Event::Allocated(8), Event::Written, Event::Failed("h".to_string())],
    );
    assert!(matches!(acts[3], Action::Finish(Err(InvokeError::Handle(_)))));
    let acts = drive(
        1,
        vec![
            Event::Instantiated,
            Event::Allocated(8),
            Event::Written,
            Event::Handled(0),
            Event::Failed("r".to_string()),
        ],
    );
    assert!(matches!(acts[4], Action::Finish(Err(InvokeError::Read(_)))));
    let acts = drive(
        1,
        vec![
            Event::Instantiated,
            Event::Allocated(8),
            Event::Written,
            Event::Handled(0),
            Event::ReadBack(vec![1]),
            Event::Failed("d".to_string()),
        ],
    );
    assert!(matches!(acts[5], Action::Finish(Err(InvokeError::Dealloc(_)))));
}

#[test]
fn phases_refuse_out_of_order_events() {
    let (phase, _) = start(4);
    assert!(!phase.can_accept(&Event::Written));
    assert!(!phase.can_accept(&Event::Released));
    assert!(phase.can_accept(&Event::Failed(String::new())));
    assert!(!Phase::Finished.can_accept(&Event::Failed(String::new())));
    assert!(!Phase::Finished.can_accept(&Event::Instantiated));
}

#[test]
fn reply_of_the_wrong_length_is_refused() {
    let (p, _) = start(4);
    let (p, _) = p.step(Event::Instantiated);
    let (p, _) = p.step(Event::Allocated(16));
    let (p, _) = p.step(Event::Written);
    let (p, a) = p.step(Event::Handled(0));
    assert!(matches!(a, Action::Read { ptr: 16, count: 4 }));
    assert!(!p.can_accept(&Event::ReadBack(vec![1, 2, 3])));
    assert!(!p.can_accept(&Event::ReadBack(vec![1, 2, 3, 4, 5])));
    assert!(p.can_accept(&Event::ReadBack(vec![1, 2, 3, 4])));
}
