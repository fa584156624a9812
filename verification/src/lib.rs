//! A small, verified finite-state-machine engine.
//!
//! An [`FSM`] is built once from an initial state, a list of transition
//! rules ([`EventDesc`]) and a list of lifecycle hooks ([`HookType`] paired
//! with an [`Action`]), and is then driven synchronously through
//! [`FSM::on_event`]. Every state and event is identified by its canonical
//! string name; the transition table and the callback registry are immutable
//! after construction, and the current state is the only mutable field.

mod action;
mod error;
mod event;
mod fsm;

pub use action::Action;
pub use action::Closure;
pub use error::FSMError;
pub use event::Event;
pub use fsm::CallbackType;
pub use fsm::EventDesc;
pub use fsm::FSM;
pub use fsm::FSMState;
pub use fsm::HookType;
