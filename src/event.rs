//! The lifecycle of an event instance.

use vstd::prelude::*;

verus! {

/// How an instance stops.
#[derive(PartialEq, Eq, Structural, Clone, Copy, Debug)]
pub enum StopMode {
    /// Let the event play out its fade-out.
    AllowFadeout,
    /// Stop at once.
    Immediate,
}

/// An operation on an event instance.
#[derive(PartialEq, Eq, Structural, Clone, Copy, Debug)]
pub enum InstanceOp {
    Start,
    Stop(StopMode),
    Release,
}

/// Where an event instance is in its life.
#[derive(PartialEq, Eq, Structural, Clone, Copy, Debug)]
pub enum InstanceState {
    Created,
    Started,
    Stopped,
    Released,
}

/// The state after `op`, or `None` when `op` is not allowed in state `s`:
/// a created or stopped instance can start, a started one can stop, any
/// instance not yet released can be released, and a released one takes
/// nothing more.
pub open spec fn next_state(s: InstanceState, op: InstanceOp) -> Option<InstanceState> {
    match (s, op) {
        (InstanceState::Released, _) => None,
        (_, InstanceOp::Release) => Some(InstanceState::Released),
        (InstanceState::Created, InstanceOp::Start) => Some(InstanceState::Started),
        (InstanceState::Stopped, InstanceOp::Start) => Some(InstanceState::Started),
        (InstanceState::Started, InstanceOp::Stop(_)) => Some(InstanceState::Stopped),
        _ => None,
    }
}

impl InstanceState {
    /// The state after `op`, or `None` when `op` is not allowed now.
    pub fn after(self, op: InstanceOp) -> (r: Option<InstanceState>)
        ensures
            r == next_state(self, op),
    {
        match (self, op) {
            (InstanceState::Released, _) => None,
            (_, InstanceOp::Release) => Some(InstanceState::Released),
            (InstanceState::Created, InstanceOp::Start) => Some(InstanceState::Started),
            (InstanceState::Stopped, InstanceOp::Start) => Some(InstanceState::Started),
            (InstanceState::Started, InstanceOp::Stop(_)) => Some(InstanceState::Stopped),
            _ => None,
        }
    }
}

} // verus!
