//! Tests for event classification and the error taxonomy.

use crowd::events::{BuiltinEvent, EventMessage, InternalEvent, UserEvent};
use crowd::pnp::Hot;
use crowd::result::{CrowdError, Error};

#[test]
fn test_builtin_event_classification() {
    assert!(BuiltinEvent::Ready.is_lifecycle());
    assert!(BuiltinEvent::Dispose.is_lifecycle());
    assert!(BuiltinEvent::Fork(3).is_lifecycle());
    assert!(!BuiltinEvent::Internal(InternalEvent::Service).is_lifecycle());

    assert!(BuiltinEvent::Fork(3).is_strict_lifecycle());
    assert!(BuiltinEvent::Ready.is_strict_lifecycle());
    assert!(!BuiltinEvent::Dispose.is_strict_lifecycle());

    assert!(BuiltinEvent::Internal(InternalEvent::Trace("t".to_string())).is_internal());
    assert!(!BuiltinEvent::Ready.is_internal());
}

#[test]
fn test_event_message_classification() {
    let user = EventMessage::new("ping".to_string(), 11);
    assert!(user.is_user());
    assert!(!user.is_builtin());
    assert!(!user.is_internal());
    assert!(!user.is_strict_lifecycle());

    let builtin = EventMessage::Builtin(BuiltinEvent::Ready);
    assert!(builtin.is_builtin());
    assert!(!builtin.is_user());
    assert!(builtin.is_strict_lifecycle());
    assert!(!builtin.is_internal());

    let internal = EventMessage::Builtin(BuiltinEvent::Internal(InternalEvent::Listener));
    assert!(internal.is_internal());
    assert!(internal.is_lifecycle());
}

#[test]
fn test_event_message_unwrap() {
    let builtin = EventMessage::Builtin(BuiltinEvent::Dispose);
    assert_eq!(builtin.unwrap_builtin(), BuiltinEvent::Dispose);

    let user = EventMessage::new("ping".to_string(), 11);
    let (name, args) = user.unwrap_user();
    assert_eq!(name, "ping");
    assert_eq!(args, 11);
}

#[test]
fn test_user_event_accessors() {
    let e = UserEvent::new("custom/event".to_string(), 99);
    assert_eq!(e.name(), "custom/event");
    assert_eq!(e.args(), 99);
}

#[test]
fn test_hot_outcome() {
    assert!(Hot::ToRestart.requires_restart());
    assert!(!Hot::Updated.requires_restart());
}

#[test]
fn test_error_messages() {
    assert_eq!(
        CrowdError::InactiveScope.message(),
        "cannot create effect in a inactive scope"
    );
    assert_eq!(CrowdError::InvalidPlug.message(), "expect a Pluggable");
    assert!(Error::PnpPanic("p".to_string()).is_panic());
    assert!(!Error::Other("o".to_string()).is_panic());
    assert!(!Error::Crowd(CrowdError::InactiveScope).is_panic());
}
