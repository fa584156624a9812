use vstd::prelude::*;

verus! {

/// The failure taxonomy of a dispatch call.
///
/// Every error is local to the call that returned it: the machine stays
/// valid, and only a successful call moves the current state.
#[derive(Debug, PartialEq, Eq)]
pub enum FSMError {
    /// The rule mapped the current state to itself and an after-event
    /// callback failed; carries that callback's message.
    NoTransitionWithError(String),
    /// The rule mapped the current state to itself: a benign no-op. The
    /// after-event callbacks ran and succeeded.
    NoTransition,
    /// A before-event or leave-state callback failed, strictly before the
    /// commit point; carries that callback's message.
    InternalError(String),
    /// The event name appears in no transition rule at all.
    UnknownEvent(String),
    /// The event exists, but no rule allows it from the current state;
    /// carries the event name and the current state's name.
    InvalidEvent(String, String),
}

} // verus!
