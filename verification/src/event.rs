use vstd::prelude::*;

verus! {

/// The information handed by reference to every callback invoked during one
/// dispatch call.
pub struct Event<I> {
    /// The name of the event that triggered the call.
    pub event: String,

    /// The name of the state before the transition.
    pub src: String,

    /// The name of the state after the transition.
    pub dst: String,

    /// Optional caller-supplied arguments, passed through unchanged.
    pub args: Option<I>,
}

} // verus!
