use fmod_audio::{InstanceOp, InstanceState, StopMode};

#[test]
fn created_starts_stops_and_releases() {
    let s = InstanceState::Created;
    let s = s.after(InstanceOp::Start).unwrap();
    assert_eq!(s, InstanceState::Started);
    let s = s.after(InstanceOp::Stop(StopMode::Immediate)).unwrap();
    assert_eq!(s, InstanceState::Stopped);
    let s = s.after(InstanceOp::Start).unwrap();
    assert_eq!(s, InstanceState::Started);
    let s = s.after(InstanceOp::Stop(StopMode::AllowFadeout)).unwrap();
    assert_eq!(s.after(InstanceOp::Release), Some(InstanceState::Released));
}

#[test]
fn release_from_any_live_state() {
    for s in [InstanceState::Created, InstanceState::Started, InstanceState::Stopped] {
        assert_eq!(s.after(InstanceOp::Release), Some(InstanceState::Released));
    }
}

#[test]
fn released_takes_nothing() {
    let s = InstanceState::Released;
    assert_eq!(s.after(InstanceOp::Start), None);
    assert_eq!(s.after(InstanceOp::Stop(StopMode::Immediate)), None);
    assert_eq!(s.after(InstanceOp::Release), None);
}

#[test]
fn transitions_not_in_the_lifecycle() {
    assert_eq!(InstanceState::Created.after(InstanceOp::Stop(StopMode::Immediate)), None);
    assert_eq!(InstanceState::Started.after(InstanceOp::Start), None);
    assert_eq!(InstanceState::Stopped.after(InstanceOp::Stop(StopMode::AllowFadeout)), None);
}
