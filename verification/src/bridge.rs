//! The decisions of the operations that have to wait for their engine.
//!
//! An engine that answers later cannot be called from here: whoever drives
//! it waits for each answer. What is decided between two waits is decided
//! here. The driver starts with [`SetNxState::Idle`] and
//! [`SetNxEvent::Start`], does what [`set_nx_step`] tells it, hands back what
//! came of it, and goes on until it is told to finish.
use vstd::prelude::*;
use crate::error::Error;

verus! {

/// Where a `set_nx` in steps stands.
#[derive(Debug)]
pub enum SetNxState {
    /// Nothing was asked of the engine yet.
    Idle,
    /// The engine was asked whether the key is there.
    Looking,
    /// The engine was asked to set the key.
    Writing,
    /// The operation is over.
    Done,
}

/// What the driver hands back.
#[derive(Debug)]
pub enum SetNxEvent {
    /// The operation begins.
    Start,
    /// The engine's answer to whether the key is there.
    Contained(Result<bool, Error>),
    /// The engine's answer to the write.
    Written(Result<(), Error>),
}

/// What the driver is to do next.
#[derive(Debug)]
pub enum SetNxAction {
    /// Ask the engine whether the key is there.
    Look,
    /// Ask the engine to set the key to the value.
    Write,
    /// Stop, with this result.
    Finish(Result<bool, Error>),
}

/// Whether `event` is the one that a `set_nx` in `state` waits for.
pub open spec fn awaited(state: SetNxState, event: SetNxEvent) -> bool {
    match (state, event) {
        (SetNxState::Idle, SetNxEvent::Start) => true,
        (SetNxState::Looking, SetNxEvent::Contained(_)) => true,
        (SetNxState::Writing, SetNxEvent::Written(_)) => true,
        _ => false,
    }
}

/// What the failure says where an event was not waited for.
pub open spec fn not_awaited() -> Seq<char> {
    "set_nx was handed an answer it did not wait for"@
}

/// The next step of a `set_nx` that waits for its engine: look the key up,
/// write only where it is absent, and report whether the write was made. A
/// failure of the engine ends the operation with that failure. An event that
/// the state does not wait for ends it with an error of the kind `Unknown`.
pub fn set_nx_step(state: SetNxState, event: SetNxEvent) -> (r: (SetNxState, SetNxAction))
    ensures
        !awaited(state, event) ==> r.0 is Done && (r.1 matches SetNxAction::Finish(Err(Error::Unknown(message)))
            && message@ == not_awaited()),
        awaited(state, event) ==> match event {
            SetNxEvent::Start => r.0 is Looking && r.1 is Look,
            SetNxEvent::Contained(Ok(true)) => r.0 is Done && r.1 == SetNxAction::Finish(Ok(false)),
            SetNxEvent::Contained(Ok(false)) => r.0 is Writing && r.1 is Write,
            SetNxEvent::Contained(Err(e)) => r.0 is Done && r.1 == SetNxAction::Finish(Err(e)),
            SetNxEvent::Written(Ok(())) => r.0 is Done && r.1 == SetNxAction::Finish(Ok(true)),
            SetNxEvent::Written(Err(e)) => r.0 is Done && r.1 == SetNxAction::Finish(Err(e)),
        },
{
    match (state, event) {
        (SetNxState::Idle, SetNxEvent::Start) => (SetNxState::Looking, SetNxAction::Look),
        (SetNxState::Looking, SetNxEvent::Contained(Ok(true))) => (SetNxState::Done, SetNxAction::Finish(Ok(false))),
        (SetNxState::Looking, SetNxEvent::Contained(Ok(false))) => (SetNxState::Writing, SetNxAction::Write),
        (SetNxState::Looking, SetNxEvent::Contained(Err(e))) => (SetNxState::Done, SetNxAction::Finish(Err(e))),
        (SetNxState::Writing, SetNxEvent::Written(Ok(()))) => (SetNxState::Done, SetNxAction::Finish(Ok(true))),
        (SetNxState::Writing, SetNxEvent::Written(Err(e))) => (SetNxState::Done, SetNxAction::Finish(Err(e))),
        _ => (SetNxState::Done, SetNxAction::Finish(Err(Error::Unknown("set_nx was handed an answer it did not wait for".to_owned())))),
    }
}

} // verus!
