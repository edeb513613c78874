//! Event kinds of the runtime.
//!
//! Events either come from the runtime itself (built-in: forks, readiness,
//! disposal, and internal diagnostics) or from users (a name plus the token
//! of an opaque argument payload).  The classification predicates here are
//! what dispatch goes by; matching and delivery live outside this crate.

use vstd::prelude::*;

use crate::context::ScopeState;

verus! {

/// Events the runtime generates internally; not user-specified.
#[derive(Clone, PartialEq, Eq, Debug)]
pub enum InternalEvent {
    /// A scope was forked; carries its slot.
    Fork(usize),
    /// A root node was created; carries its slot.
    Runtime(usize),
    /// A scope's status was recomputed; carries the slot and the status.
    State(usize, ScopeState),
    Trace(String),
    Info(String),
    Warn(String),
    Debug(String),
    Error(String),
    Service,
    Listener,
}

/// Built-in events: the lifecycle of scopes plus the internal diagnostics.
#[derive(Clone, PartialEq, Eq, Debug)]
pub enum BuiltinEvent {
    /// A scope was forked; carries the token of its configuration payload.
    Fork(u64),
    Ready,
    Dispose,
    Internal(InternalEvent),
}

/// Any event: built-in or user-defined.
#[derive(Clone, PartialEq, Eq, Debug)]
pub enum EventMessage {
    Builtin(BuiltinEvent),
    User(UserEvent),
}

/// A user-defined event: a name and the token of its opaque argument
/// payload.
#[derive(Clone, PartialEq, Eq, Debug)]
pub struct UserEvent {
    name: String,
    args: u64,
}

impl UserEvent {
    /// The event's name.
    pub closed spec fn spec_name(self) -> Seq<char> {
        self.name@
    }

    /// The token of the event's argument payload.
    pub closed spec fn spec_args(self) -> u64 {
        self.args
    }

    /// A user event with the given name and argument-payload token.
    pub fn new(name: String, args: u64) -> (e: UserEvent)
        ensures
            e.spec_name() == name@,
            e.spec_args() == args,
    {
        UserEvent { name, args }
    }

    /// The event's name.
    pub fn name(&self) -> (r: &str)
        ensures
            r@ == self.spec_name(),
    {
        self.name.as_str()
    }

    /// The token of the event's argument payload.
    pub fn args(&self) -> (r: u64)
        ensures
            r == self.spec_args(),
    {
        self.args
    }
}

impl BuiltinEvent {
    /// Whether this event marks the creation or destruction of a scope:
    /// `Fork`, `Ready` or `Dispose`.
    pub fn is_lifecycle(&self) -> (r: bool)
        ensures
            r == (self matches BuiltinEvent::Fork(_) || self matches BuiltinEvent::Ready
                || self matches BuiltinEvent::Dispose),
    {
        matches!(self, BuiltinEvent::Fork(..) | BuiltinEvent::Ready | BuiltinEvent::Dispose)
    }

    /// Whether this event marks the creation of a scope: `Fork` or `Ready`.
    pub fn is_strict_lifecycle(&self) -> (r: bool)
        ensures
            r == (self matches BuiltinEvent::Fork(_) || self matches BuiltinEvent::Ready),
    {
        matches!(self, BuiltinEvent::Fork(..) | BuiltinEvent::Ready)
    }

    /// Whether this event is an internal diagnostic of the runtime.
    pub fn is_internal(&self) -> (r: bool)
        ensures
            r == (self matches BuiltinEvent::Internal(_)),
    {
        matches!(self, BuiltinEvent::Internal(..))
    }
}

impl EventMessage {
    /// Wraps a built-in event.
    pub(crate) fn internal(evt: BuiltinEvent) -> (e: EventMessage)
        ensures
            e == EventMessage::Builtin(evt),
    {
        EventMessage::Builtin(evt)
    }

    /// A user event with the given name and argument-payload token.
    pub fn new(name: String, args: u64) -> (e: EventMessage)
        ensures
            e matches EventMessage::User(u) && u.spec_name() == name@ && u.spec_args() == args,
    {
        EventMessage::User(UserEvent::new(name, args))
    }

    /// Whether this message wraps a built-in event.
    pub fn is_builtin(&self) -> (r: bool)
        ensures
            r == (self matches EventMessage::Builtin(_)),
    {
        matches!(self, EventMessage::Builtin(..))
    }

    /// Whether this message wraps a user event.
    pub fn is_user(&self) -> (r: bool)
        ensures
            r == (self matches EventMessage::User(_)),
    {
        matches!(self, EventMessage::User(..))
    }

    /// Unwraps the built-in event; the precondition rules out user events.
    pub fn unwrap_builtin(self) -> (r: BuiltinEvent)
        requires
            self matches EventMessage::Builtin(_),
        ensures
            self == EventMessage::Builtin(r),
    {
        match self {
            EventMessage::Builtin(evt) => evt,
            EventMessage::User(..) => vstd::pervasive::unreached(),
        }
    }

    /// Unwraps the user event's name and argument-payload token; the
    /// precondition rules out built-in events.
    pub fn unwrap_user(self) -> (r: (String, u64))
        requires
            self matches EventMessage::User(_),
        ensures
            self matches EventMessage::User(u) && u.spec_name() == r.0@ && u.spec_args() == r.1,
    {
        match self {
            EventMessage::User(u) => (u.name, u.args),
            EventMessage::Builtin(_) => vstd::pervasive::unreached(),
        }
    }

    /// Whether this message wraps an internal diagnostic.
    pub fn is_lifecycle(&self) -> (r: bool)
        ensures
            r == (self matches EventMessage::Builtin(b) && b matches BuiltinEvent::Internal(_)),
    {
        if let EventMessage::Builtin(evt) = self {
            evt.is_internal()
        } else {
            false
        }
    }

    /// Whether this message marks the creation of a scope.
    pub fn is_strict_lifecycle(&self) -> (r: bool)
        ensures
            r == (self matches EventMessage::Builtin(b) && (b matches BuiltinEvent::Fork(_)
                || b matches BuiltinEvent::Ready)),
    {
        if let EventMessage::Builtin(evt) = self {
            evt.is_strict_lifecycle()
        } else {
            false
        }
    }

    /// Whether this message wraps an internal diagnostic.
    pub fn is_internal(&self) -> (r: bool)
        ensures
            r == (self matches EventMessage::Builtin(b) && b matches BuiltinEvent::Internal(_)),
    {
        if let EventMessage::Builtin(evt) = self {
            evt.is_internal()
        } else {
            false
        }
    }
}

/// The three stages of a scope's life that handlers can subscribe to.
#[derive(Copy, Clone, PartialEq, Eq, Structural, Debug)]
pub enum LifecycleEvent {
    Fork,
    Ready,
    Dispose,
}

/// A typed event: the argument type handlers receive and the result type
/// they produce.
pub trait EventNya {
    type Args;

    type Result;
}

impl EventNya for InternalEvent {
    type Args = InternalEvent;

    type Result = ();
}

impl EventNya for LifecycleEvent {
    type Args = LifecycleEvent;

    type Result = ();
}

} // verus!
