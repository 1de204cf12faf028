use orgb::connection::{route, ConnectStep, RetryPolicy, Routed, Startup};
use orgb::protocol::{ControllerData, ControllerType, Response};
use orgb::state_machine::{Event, State, StateMachine};

fn packet(id: u32, payload: &[u8]) -> Vec<u8> {
    let mut out = b"ORGB".to_vec();
    out.extend_from_slice(&0u32.to_le_bytes());
    out.extend_from_slice(&id.to_le_bytes());
    out.extend_from_slice(&(payload.len() as u32).to_le_bytes());
    out.extend_from_slice(payload);
    out
}

#[test]
fn notifications_never_reach_the_foreground() {
    let mut data = Vec::new();
    data.extend_from_slice(&0u32.to_le_bytes());
    data.extend_from_slice(&3u32.to_le_bytes());
    for _ in 0..5 {
        data.extend_from_slice(&[1, 0, 0]);
    }
    data.extend_from_slice(&[0, 0, 0, 0, 0, 0, 0, 0, 0, 0, 0, 0]);
    let stream = [packet(0, &2u32.to_le_bytes()), packet(100, &[]), packet(1, &data)];
    let mut replies = Vec::new();
    let mut flag_raised = 0;
    for bytes in &stream {
        match route(Response::decode_packet(bytes).unwrap()) {
            Routed::Reply(r) => replies.push(r),
            Routed::DevicesUpdated => flag_raised += 1,
        }
    }
    assert_eq!(flag_raised, 1);
    assert_eq!(replies.len(), 2);
    assert!(matches!(replies[0], Response::ControllerCount(2)));
    assert!(matches!(replies[1], Response::ControllerData(_)));
}

#[test]
fn startup_connects_on_tenth_attempt() {
    let mut s = Startup::new(RetryPolicy::standard());
    for _ in 0..9 {
        assert_eq!(s.on_failure(), ConnectStep::Retry);
    }
    assert_eq!(s.failures, 9);
}

#[test]
fn startup_gives_up_after_ten_refusals() {
    let policy = RetryPolicy::standard();
    assert_eq!(policy, RetryPolicy { max_attempts: 10, backoff_ms: 1000 });
    let mut s = Startup::new(policy);
    let mut steps = Vec::new();
    for _ in 0..10 {
        steps.push(s.on_failure());
    }
    assert!(steps[..9].iter().all(|s| *s == ConnectStep::Retry));
    assert_eq!(steps[9], ConnectStep::GiveUp);
}

fn controller(ty: ControllerType) -> ControllerData {
    ControllerData {
        ty,
        name: String::new(),
        description: String::new(),
        version: String::new(),
        serial: String::new(),
        location: String::new(),
        modes: vec![],
        active_mode: 0,
        zones: vec![],
        leds: vec![],
        colors: vec![],
    }
}

#[test]
fn first_dram_controller_is_chosen() {
    let mut sm = StateMachine::new();
    assert_eq!(sm.update(None), None);
    sm.controllers_updated(&[controller(ControllerType::Gpu), controller(ControllerType::Dram), controller(ControllerType::Dram)]);
    assert_eq!(sm.dram_idx, Some(1));
    sm.controllers_updated(&[controller(ControllerType::Keyboard)]);
    assert_eq!(sm.dram_idx, None);
    sm.controllers_updated(&[]);
    assert_eq!(sm.dram_idx, None);
}

#[test]
fn sleep_and_wake_cycle() {
    let mut sm = StateMachine::new();
    sm.controllers_updated(&[controller(ControllerType::Dram)]);
    assert_eq!(sm.update(None), Some((0, State::Normal { ticks: 1 })));
    assert_eq!(sm.update(Some(Event::On)), Some((0, State::Normal { ticks: 2 })));
    assert_eq!(sm.update(Some(Event::Dimmed)), Some((0, State::Sleep)));
    assert_eq!(sm.update(Some(Event::Off)), Some((0, State::Sleep)));
    assert_eq!(sm.update(Some(Event::On)), Some((0, State::Wake { ticks: 0, ticks_max: 5 })));
    for t in 1..5 {
        assert_eq!(sm.update(Some(Event::Off)), Some((0, State::Wake { ticks: t, ticks_max: 5 })));
    }
    assert_eq!(sm.update(None), Some((0, State::Normal { ticks: 0 })));
}

#[test]
fn normal_ticks_wrap() {
    let mut sm = StateMachine { dram_idx: Some(3), state: State::Normal { ticks: u32::MAX } };
    assert_eq!(sm.update(None), Some((3, State::Normal { ticks: 0 })));
}
