use mpd_utils::supervisor::{LoopAction, LoopInput, LoopPhase, Supervisor};

type Input = LoopInput<u32, &'static str>;

fn started() -> Supervisor<u32> {
    let mut s: Supervisor<u32> = Supervisor::new();
    assert!(!s.is_connected());
    assert_eq!(s.phase, LoopPhase::Idle);
    let a = s.step(Input::Start);
    assert!(matches!(a, LoopAction::Connect));
    s
}

#[test]
fn failing_connects_never_connect() {
    let mut s = started();
    for _ in 0..100 {
        assert!(matches!(s.step(Input::ConnectFailed), LoopAction::Sleep));
        assert!(!s.is_connected());
        assert!(s.client().is_none());
        assert!(matches!(s.step(Input::RetryElapsed), LoopAction::Connect));
        assert!(!s.is_connected());
    }
}

#[test]
fn success_is_visible_at_once() {
    let mut s = started();
    assert!(matches!(s.step(Input::ConnectSucceeded(7)), LoopAction::Publish));
    assert!(s.is_connected());
    assert_eq!(s.client(), Some(&7));
    assert_eq!(s.phase, LoopPhase::Streaming);
}

#[test]
fn closure_disconnects_before_next_attempt() {
    let mut s = started();
    s.step(Input::ConnectSucceeded(1));
    assert!(matches!(s.step(Input::Closed), LoopAction::Sleep));
    assert!(!s.is_connected());
    assert!(s.client().is_none());
    assert!(matches!(s.step(Input::RetryElapsed), LoopAction::Connect));
    assert!(!s.is_connected());
    assert!(matches!(s.step(Input::ConnectSucceeded(2)), LoopAction::Publish));
    assert_eq!(s.client(), Some(&2));
}

#[test]
fn stream_end_disconnects() {
    let mut s = started();
    s.step(Input::ConnectSucceeded(1));
    assert!(matches!(s.step(Input::StreamEnded), LoopAction::Sleep));
    assert!(!s.is_connected());
    assert_eq!(s.phase, LoopPhase::Sleeping);
}

#[test]
fn events_are_forwarded_in_order() {
    let mut s = started();
    s.step(Input::ConnectSucceeded(3));
    let events = ["player", "mixer", "playlist", "options"];
    let mut forwarded = Vec::new();
    for e in events {
        match s.step(Input::Event(e)) {
            LoopAction::Forward(f) => forwarded.push(f),
            _ => panic!("event not forwarded"),
        }
        assert_eq!(s.client(), Some(&3));
    }
    assert_eq!(forwarded, events.to_vec());
}

#[test]
fn out_of_phase_inputs_change_nothing() {
    let mut s: Supervisor<u32> = Supervisor::new();
    assert!(matches!(s.step(Input::ConnectSucceeded(1)), LoopAction::Nothing));
    assert!(!s.is_connected());
    assert_eq!(s.phase, LoopPhase::Idle);
    let mut s = started();
    assert!(matches!(s.step(Input::Event("x")), LoopAction::Nothing));
    assert!(matches!(s.step(Input::Start), LoopAction::Nothing));
    assert!(matches!(s.step(Input::RetryElapsed), LoopAction::Nothing));
    assert_eq!(s.phase, LoopPhase::Connecting);
}
