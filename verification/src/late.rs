//! A once-initialized deferred value.
//!
//! The slot is either still pending or holds a computed value, never both;
//! the tagged representation makes teardown release exactly the live branch.
//! The initializer runs at most once: the first access that finds the slot
//! pending runs it and memoizes the result, every later access returns the
//! memoized value without running anything.

use vstd::prelude::*;

verus! {

/// A value computed on first access and memoized afterwards.
pub struct LateInit<T> {
    value: Option<T>,
}

impl<T> LateInit<T> {
    /// The memoized value, if the initializer has run.
    pub closed spec fn spec_value(self) -> Option<T> {
        self.value
    }

    /// Whether the initializer has run.
    pub open spec fn is_initialized(self) -> bool {
        self.spec_value() is Some
    }

    /// A slot whose initializer is still pending.
    pub fn new() -> (r: Self)
        ensures
            !r.is_initialized(),
    {
        LateInit { value: None }
    }

    /// Runs `init` and memoizes its result if the slot is still pending;
    /// returns whether the initializer ran.  A second call finds the slot
    /// filled and leaves it untouched, so the initializer runs exactly once
    /// over the slot's lifetime.
    pub fn ensure_initialized<F: FnOnce() -> T>(&mut self, init: F) -> (ran: bool)
        requires
            !old(self).is_initialized() ==> call_requires(init, ()),
        ensures
            final(self).is_initialized(),
            ran == !old(self).is_initialized(),
            !ran ==> *final(self) == *old(self),
            ran ==> call_ensures(init, (), final(self).spec_value().unwrap()),
    {
        match &self.value {
            Some(_) => false,
            None => {
                let v = init();
                self.value = Some(v);
                true
            },
        }
    }

    /// The memoized value; the precondition rules out access before
    /// initialization.
    pub fn get(&self) -> (r: &T)
        requires
            self.is_initialized(),
        ensures
            Some(*r) == self.spec_value(),
    {
        match &self.value {
            Some(v) => v,
            None => vstd::pervasive::unreached(),
        }
    }
}

} // verus!
