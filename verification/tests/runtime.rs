//! Scenario tests for the supervision tree: activation, lifecycle status,
//! disposal, registry eviction and singleton serialization.

use crowd::context::{Cortex, PlugOutcome, PluginInfo, ScopeState};
use crowd::result::{CrowdError, Error};

fn info(identifier: u128, name: &str, alone: bool) -> PluginInfo {
    PluginInfo { identifier, name: name.to_string(), alone }
}

fn forked(r: Result<PlugOutcome, CrowdError>) -> usize {
    match r.expect("plug should succeed") {
        PlugOutcome::Forked(s) => s,
        PlugOutcome::Serialized(_) => panic!("expected a forked scope"),
    }
}

#[test]
fn test_plug() {
    // A plugin whose effect prints, then disposes its own scope; `run`
    // (the drive-to-completion loop) must observe an empty tree root.
    let mut cortex = Cortex::new(0);
    let root_scope = cortex.root_scope();
    assert!(!cortex.done());

    let s = forked(cortex.plug(info(7, "hello", false), 0));
    let task = cortex
        .scope_worker_step(s)
        .expect("the effect task should be scheduled");
    assert!(task.is_blocking());

    // The effect itself:
    println!("Hello World");
    let was = cortex.dispose_scope(root_scope);
    assert!(was);
    cortex.effect_success(s);

    // run() returns once the tree root's child set is empty.
    while !cortex.done() {
        unreachable!("the tree root's child set is already empty");
    }
    assert!(cortex.done());
}

#[test]
fn test_construction() {
    let cortex = Cortex::new(42);
    // The anonymous tree root is named "root" and has no plugin; the root
    // scope is its only child, holds the given configuration, and has
    // nothing scheduled — the tree root has no effect to run.
    assert_eq!(cortex.runtime().name(), Some("root"));
    assert_eq!(cortex.runtime().plugin(), None);
    assert_eq!(cortex.config_of(cortex.root_scope()), 42);
    assert_eq!(cortex.scope_queue_len(cortex.root_scope()), 0);
    assert_eq!(cortex.child_count(cortex.root_main()), 1);
    assert!(cortex.is_child(cortex.root_main(), cortex.root_scope()));
}

#[test]
fn test_fresh_scope_is_pending() {
    let mut cortex = Cortex::new(0);
    assert_eq!(cortex.status(cortex.root_scope()), ScopeState::Pending);
    let s = forked(cortex.plug(info(7, "hello", false), 0));
    assert_eq!(cortex.status(s), ScopeState::Pending);
    assert!(!cortex.has_error(s));
}

#[test]
fn test_effect_success_makes_active() {
    let mut cortex = Cortex::new(0);
    let s = forked(cortex.plug(info(7, "hello", false), 0));
    cortex.effect_success(s);
    assert_eq!(cortex.status(s), ScopeState::Active);
    assert!(!cortex.has_error(s));
    assert_eq!(cortex.error_of(s), &None);
}

#[test]
fn test_effect_failure_records_error() {
    let mut cortex = Cortex::new(0);
    let s = forked(cortex.plug(info(7, "hello", false), 0));
    let rr = cortex.runtime_of(s);
    cortex.effect_failure(s, Error::Other("boom".to_string()));
    assert_eq!(cortex.status(s), ScopeState::Failed);
    assert_eq!(cortex.error_of(s), &Some(Error::Other("boom".to_string())));
    // The scope remains registered in its root's child set: no auto-dispose.
    assert!(cortex.is_child(rr, s));
    assert_eq!(cortex.registered(7), Some(rr));
}

#[test]
fn test_effect_panic_records_fault() {
    let mut cortex = Cortex::new(0);
    let s = forked(cortex.plug(info(7, "hello", false), 0));
    cortex.effect_panic(s, "effect blew up".to_string());
    assert_eq!(cortex.status(s), ScopeState::Failed);
    assert_eq!(
        cortex.error_of(s),
        &Some(Error::PnpPanic("effect blew up".to_string()))
    );
}

#[test]
fn test_dispose_clears_scope() {
    let mut cortex = Cortex::new(0);
    let s = forked(cortex.plug(info(7, "hello", false), 0));
    let rr = cortex.runtime_of(s);
    assert!(cortex.is_child(rr, s));

    let was = cortex.dispose_scope(s);
    assert!(was);
    assert_eq!(cortex.status(s), ScopeState::Disposed);
    assert!(!cortex.is_child(rr, s));
    assert_eq!(cortex.scope_id(s), usize::MAX);

    // Idempotent: a second disposal reports the scope was already gone.
    let again = cortex.dispose_scope(s);
    assert!(!again);
    assert_eq!(cortex.status(s), ScopeState::Disposed);
}

#[test]
fn test_eviction_and_fresh_root() {
    let mut cortex = Cortex::new(0);
    let s = forked(cortex.plug(info(7, "hello", false), 0));
    let rr = cortex.runtime_of(s);
    assert_eq!(cortex.registered(7), Some(rr));

    // Disposing the only scope evicts the root from the registry.
    cortex.dispose_scope(s);
    assert_eq!(cortex.registered(7), None);

    // A new activation of the same identity creates a fresh root node.
    let s2 = forked(cortex.plug(info(7, "hello", false), 0));
    let rr2 = cortex.runtime_of(s2);
    assert_ne!(rr2, rr);
    assert_eq!(cortex.registered(7), Some(rr2));
    assert_eq!(cortex.scope_id(s2), 6);
}

#[test]
fn test_non_singleton_shares_root() {
    let mut cortex = Cortex::new(0);
    let s1 = forked(cortex.plug(info(7, "hello", false), 1));
    let roots_before = cortex.root_count();
    let s2 = forked(cortex.plug(info(7, "hello", false), 2));
    assert_ne!(s1, s2);
    assert_eq!(cortex.runtime_of(s1), cortex.runtime_of(s2));
    assert_eq!(cortex.root_count(), roots_before);
}

#[test]
fn test_singleton_is_serialized() {
    let mut cortex = Cortex::new(0);
    let s1 = forked(cortex.plug(info(9, "single", true), 0));
    let scopes_before = cortex.scope_count();
    match cortex.plug(info(9, "single", true), 1) {
        Ok(PlugOutcome::Serialized(e)) => assert_eq!(e, s1),
        other => panic!("expected serialization against the existing scope, got {:?}", other),
    }
    // No concurrent sibling was created.
    assert_eq!(cortex.scope_count(), scopes_before);
}

#[test]
fn test_invalid_plug_is_rejected() {
    let mut cortex = Cortex::new(0);
    // Identity 0 is the tree root's no-op plugin and is not pluggable.
    assert_eq!(
        cortex.plug(info(0, "root", false), 0),
        Err(CrowdError::InvalidPlug)
    );
}

#[test]
fn test_inactive_scope_is_rejected() {
    let mut cortex = Cortex::new(0);
    let root_scope = cortex.root_scope();
    cortex.dispose_scope(root_scope);
    assert_eq!(
        cortex.plug(info(7, "hello", false), 0),
        Err(CrowdError::InactiveScope)
    );
}

#[test]
fn test_ids_unique_and_increasing() {
    let mut cortex = Cortex::new(0);
    // The anonymous tree root takes id 1, the root scope id 2.
    assert_eq!(cortex.runtime().id(), 1);
    assert_eq!(cortex.scope_id(cortex.root_scope()), 2);

    // Each activation assigns fresh, strictly larger ids: first the new
    // root node's, then the new scope's.
    let s1 = forked(cortex.plug(info(7, "hello", false), 0));
    assert_eq!(cortex.scope_id(s1), 4);
    let s2 = forked(cortex.plug(info(8, "other", false), 0));
    assert_eq!(cortex.scope_id(s2), 6);

    let ids = [
        cortex.runtime().id(),
        cortex.scope_id(cortex.root_scope()),
        cortex.scope_id(s1),
        cortex.scope_id(s2),
    ];
    for w in ids.windows(2) {
        assert!(w[0] < w[1]);
    }
}

#[test]
fn test_dispose_two_children_evicts_once_both_gone() {
    let mut cortex = Cortex::new(0);
    let s1 = forked(cortex.plug(info(7, "hello", false), 0));
    let s2 = forked(cortex.plug(info(7, "hello", false), 0));
    let rr = cortex.runtime_of(s1);
    assert_eq!(cortex.runtime_of(s2), rr);
    assert_eq!(cortex.child_count(rr), 2);

    assert!(cortex.dispose_scope(s1));
    // One child remains: the root is still registered.
    assert_eq!(cortex.child_count(rr), 1);
    assert_eq!(cortex.registered(7), Some(rr));
    assert!(!cortex.is_child(rr, s1));
    assert!(cortex.is_child(rr, s2));

    assert!(cortex.dispose_scope(s2));
    // Both children gone: now, and only now, the root is evicted.
    assert_eq!(cortex.child_count(rr), 0);
    assert_eq!(cortex.registered(7), None);
}

#[test]
fn test_delete_unregisters_and_disposes_root() {
    let mut cortex = Cortex::new(0);
    let s = forked(cortex.plug(info(7, "hello", false), 0));
    let rr = cortex.runtime_of(s);
    assert!(cortex.delete(7));
    assert_eq!(cortex.registered(7), None);
    // The root node is disposed; its child scope is left as it was.
    assert_eq!(cortex.status(s), ScopeState::Pending);
    assert!(cortex.is_child(rr, s));
    assert!(!cortex.delete(7));
}

#[test]
fn test_disposal_stops_scope_scheduler() {
    let mut cortex = Cortex::new(0);
    let s = forked(cortex.plug(info(7, "hello", false), 0));
    assert_eq!(cortex.scope_queue_len(s), 1);
    cortex.dispose_scope(s);
    // Disposal wins over pending work: nothing is taken, nothing drained.
    assert!(cortex.scope_worker_step(s).is_none());
    assert_eq!(cortex.scope_queue_len(s), 1);
    assert_eq!(cortex.scope_processed(s), 0);
}
