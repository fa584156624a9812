use crate::event::Event;
use core::marker::PhantomData;
use vstd::prelude::*;

verus! {

/// The interface of a lifecycle callback.
///
/// The engine invokes a callback through this trait at the hook point it was
/// registered for. A callback may carry arbitrary caller logic; it reports a
/// failure as a message string, which the dispatcher wraps in the matching
/// [`crate::FSMError`] variant.
pub trait Action<I> {
    /// Runs the callback for the given transition event.
    fn call(&self, e: &Event<I>) -> Result<(), String>;
}

/// Wraps a plain closure as an [`Action`], so that a hook can be written
/// inline at construction time.
pub struct Closure<I, F> where F: Fn(&Event<I>) -> Result<(), String> {
    f: F,
    marker: PhantomData<I>,
}

impl<I, F> Clone for Closure<I, F> where F: Copy + Fn(&Event<I>) -> Result<(), String> {
    /// The clone carries the very same closure.
    fn clone(&self) -> (r: Self)
        ensures
            r == *self,
    {
        proof {
            use_type_invariant(self);
        }
        Closure { f: self.f, marker: PhantomData }
    }
}

impl<I, F> Closure<I, F> where F: Fn(&Event<I>) -> Result<(), String> {
    /// The wrapped closure can be called on every transition event.
    #[verifier::type_invariant]
    spec fn callable(self) -> bool {
        forall|e: Event<I>| call_requires(self.f, (&e,))
    }

    /// Wraps `f`; the closure must accept every transition event.
    pub fn new(f: F) -> (r: Self)
        requires
            forall|e: Event<I>| call_requires(f, (&e,)),
    {
        Closure { f, marker: PhantomData }
    }
}

impl<I, F> Action<I> for Closure<I, F> where F: Fn(&Event<I>) -> Result<(), String> {
    fn call(&self, e: &Event<I>) -> Result<(), String> {
        proof {
            use_type_invariant(self);
        }
        (self.f)(e)
    }
}

} // verus!
