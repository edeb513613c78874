//! The supervision tree: root context, per-plugin root nodes, per-activation
//! scopes, and the lifecycle state machine of each scope.
//!
//! The tree is held arena-style: [`Cortex`] owns one vector of root nodes
//! ([`MainScope`]) and one vector of activation scopes ([`Scope`]), and every
//! cross-reference is a slot index into those vectors.  A node is never
//! removed from its arena; disposal clears its numeric id, which is what the
//! status function and the registry go by.  The asynchronous executor that
//! actually runs plugin effects lives outside this crate: it takes scheduled
//! tasks through [`Cortex::scope_worker_step`], runs them, and reports the
//! outcome back through [`Cortex::effect_success`], [`Cortex::effect_failure`]
//! or [`Cortex::effect_panic`].

use vstd::prelude::*;

use crate::lazy::LazyState;
use crate::lazy::LazyUpdate;
use crate::registry::Registry;
use crate::result::CrowdError;
use crate::result::Error;
use crate::tasker::Task;
use crate::tasker::Tasker;

verus! {

/// Workers attached to each freshly forked scope's scheduler.
pub const WORKER_COUNT: u8 = 1;

/// The observable status of a scope, derived on demand from its lifecycle
/// flags.
#[derive(Copy, Clone, PartialEq, Eq, Structural, Debug, Hash)]
pub enum ScopeState {
    /// Created; the effect has not signalled completion yet.
    Pending,
    /// The effect reported success and no error is recorded.
    Active,
    /// Terminal: the numeric id is cleared and never restored.
    Disposed,
    /// An error is recorded in the error slot.
    Failed,
}

#[verifier::external_type_specification]
#[verifier::external_body]
#[verifier::reject_recursive_types(K)]
#[verifier::reject_recursive_types(S)]
pub struct ExDashSet<K, S>(dashmap::DashSet<K, S>);

/// The members of `s`: the scope slots in one root node's child set.
pub uninterp spec fn set_elems(s: dashmap::DashSet<usize>) -> Set<usize>;

/// Relies on dashmap::DashSet::new: a fresh set has no members.
#[verifier::external_body]
fn set_new() -> (s: dashmap::DashSet<usize>)
    ensures
        set_elems(s) == Set::<usize>::empty(),
{
    dashmap::DashSet::new()
}

/// Relies on dashmap::DashSet::insert: adds the value and reports whether it
/// was newly inserted.
#[verifier::external_body]
fn set_insert(s: &mut dashmap::DashSet<usize>, v: usize) -> (r: bool)
    ensures
        set_elems(*final(s)) == set_elems(*old(s)).insert(v),
        r == !set_elems(*old(s)).contains(v),
{
    s.insert(v)
}

/// Relies on dashmap::DashSet::remove: takes the value out and reports
/// whether it was present.
#[verifier::external_body]
fn set_remove(s: &mut dashmap::DashSet<usize>, v: usize) -> (r: bool)
    ensures
        set_elems(*final(s)) == set_elems(*old(s)).remove(v),
        r == set_elems(*old(s)).contains(v),
{
    s.remove(&v).is_some()
}

/// Relies on dashmap::DashSet::contains: membership of the value.
#[verifier::external_body]
fn set_contains(s: &dashmap::DashSet<usize>, v: usize) -> (r: bool)
    ensures
        r == set_elems(*s).contains(v),
{
    s.contains(&v)
}

/// Relies on dashmap::DashSet::len: the number of members.
#[verifier::external_body]
fn set_len(s: &dashmap::DashSet<usize>) -> (n: usize)
    ensures
        n == set_elems(*s).len(),
{
    s.len()
}

/// Relies on dashmap::DashSet::is_empty: whether the set has no members.
#[verifier::external_body]
fn set_is_empty(s: &dashmap::DashSet<usize>) -> (r: bool)
    ensures
        r == (set_elems(*s) =~= Set::<usize>::empty()),
{
    s.is_empty()
}

/// Relies on dashmap::DashSet::iter: some member of the set, when it has
/// one.  Which member comes first is left open, as iteration order is.
#[verifier::external_body]
fn set_first(s: &dashmap::DashSet<usize>) -> (r: Option<usize>)
    ensures
        r is Some ==> set_elems(*s).contains(r.unwrap()),
        r is None ==> set_elems(*s) =~= Set::<usize>::empty(),
{
    s.iter().next().map(|v| *v)
}

/// The flags written by the effect-execution wrapper: whether the effect has
/// reported success, and the error it left behind, if any.
pub struct LifeStatus {
    pub(crate) is_active: bool,
    pub(crate) error: Option<Error>,
}

impl LifeStatus {
    /// Whether the error slot is filled.
    pub closed spec fn spec_error(self) -> Option<Error> {
        self.error
    }

    /// Whether the effect has reported success.
    pub closed spec fn spec_active(self) -> bool {
        self.is_active
    }

    /// Whether the error slot is filled.
    pub fn has_error(&self) -> (r: bool)
        ensures
            r == (self.spec_error() is Some),
    {
        self.error.is_some()
    }

    /// Whether the effect has reported success.
    pub fn is_active(&self) -> (r: bool)
        ensures
            r == self.spec_active(),
    {
        self.is_active
    }

    /// Records an error in the error slot.
    pub fn set_error(&mut self, err: Error)
        ensures
            final(self).spec_error() == Some(err),
            final(self).spec_active() == old(self).spec_active(),
    {
        self.error = Some(err);
    }
}

/// The per-scope lifecycle: the numeric id (cleared forever on disposal),
/// the lazily-recomputed status cache, the disposal flag, the scope's
/// scheduler, and the flags the effect wrapper writes.
pub struct Lifecycle {
    pub(crate) uid: Option<usize>,
    pub(crate) state: LazyUpdate<ScopeState>,
    pub(crate) disposed: bool,
    pub(crate) tasker: Tasker,
    pub(crate) status: LifeStatus,
}

impl Lifecycle {
    /// The numeric id; `None` once disposed.
    pub closed spec fn spec_uid(self) -> Option<usize> {
        self.uid
    }

    /// Whether disposal has been signalled.
    pub closed spec fn spec_disposed(self) -> bool {
        self.disposed
    }

    /// Whether the effect has reported success.
    pub closed spec fn spec_active(self) -> bool {
        self.status.spec_active()
    }

    /// The recorded error, if any.
    pub closed spec fn spec_error(self) -> Option<Error> {
        self.status.spec_error()
    }

    /// The attached scheduler.
    pub closed spec fn spec_tasker(self) -> Tasker {
        self.tasker
    }

    /// The cached status, as the lazily-recomputed cell holds it.
    pub closed spec fn spec_cached(self) -> Option<ScopeState> {
        self.state.spec_value()
    }

    /// The status cache is at rest: not mid-recomputation, slot filled when
    /// initialized.
    pub closed spec fn cache_at_rest(self) -> bool {
        self.state.inv() && self.state.spec_state() != LazyState::Updating
    }

    /// The status cache has completed at least one recomputation.
    pub closed spec fn cache_initialized(self) -> bool {
        self.state.spec_state() == LazyState::Initialized
    }

    /// The status transition function, evaluated from the current flags:
    /// disposal wins, then a recorded error, then reported success.
    pub open spec fn derived_status(self) -> ScopeState {
        if self.spec_uid() is None {
            ScopeState::Disposed
        } else if self.spec_error() is Some {
            ScopeState::Failed
        } else if self.spec_active() {
            ScopeState::Active
        } else {
            ScopeState::Pending
        }
    }

    /// Well-formed: the cache is at rest and holds exactly the status
    /// derived from the flags, and the disposal flag agrees with the
    /// cleared id.
    pub open spec fn wf(self) -> bool {
        &&& self.cache_at_rest()
        &&& self.cache_initialized()
        &&& self.spec_cached() == Some(self.derived_status())
        &&& (self.spec_disposed() <==> self.spec_uid() is None)
    }

    /// A fresh lifecycle: live under `uid`, no error, effect not yet
    /// confirmed, status `Pending`, an idle scheduler with `worker_count`
    /// workers.
    pub fn new(uid: usize, worker_count: u8) -> (r: Lifecycle)
        ensures
            r.wf(),
            r.spec_uid() == Some(uid),
            !r.spec_disposed(),
            !r.spec_active(),
            r.spec_error() is None,
            r.derived_status() == ScopeState::Pending,
            r.spec_tasker().spec_items() == Seq::<Task>::empty(),
            !r.spec_tasker().spec_disposed(),
            r.spec_tasker().spec_workers().len() == worker_count as int,
            forall|i: int|
                0 <= i < worker_count as int ==> r.spec_tasker().spec_workers()[i].spec_processed()
                    == 0,
    {
        let mut life = Lifecycle {
            uid: Some(uid),
            state: LazyUpdate::new(),
            disposed: false,
            tasker: Tasker::new(worker_count),
            status: LifeStatus { is_active: false, error: None },
        };
        life.recompute();
        life
    }

    /// Recomputes the cached status from the current flags.  This is the
    /// explicit recomputation request that must follow any flag change; the
    /// cache is not kept in sync by the flags themselves.
    pub fn recompute(&mut self)
        requires
            old(self).cache_at_rest(),
        ensures
            final(self).wf() == (final(self).spec_disposed() <==> final(self).spec_uid() is None),
            final(self).spec_uid() == old(self).spec_uid(),
            final(self).spec_disposed() == old(self).spec_disposed(),
            final(self).spec_active() == old(self).spec_active(),
            final(self).spec_error() == old(self).spec_error(),
            final(self).spec_tasker() == old(self).spec_tasker(),
            final(self).spec_cached() == Some(final(self).derived_status()),
            final(self).cache_at_rest(),
    {
        let s: ScopeState = if self.uid.is_none() {
            ScopeState::Disposed
        } else if self.status.error.is_some() {
            ScopeState::Failed
        } else if self.status.is_active {
            ScopeState::Active
        } else {
            ScopeState::Pending
        };
        let updater = |_prev: Option<ScopeState>| -> (r: ScopeState)
            ensures
                r == s,
            {
                s
            };
        let _ = self.state.update(updater);
    }

    /// The numeric id, or `None` once disposed.
    pub fn id(&self) -> (r: Option<usize>)
        ensures
            r == self.spec_uid(),
    {
        self.uid
    }

    /// Whether disposal has been signalled.
    pub fn is_disposed(&self) -> (r: bool)
        ensures
            r == self.spec_disposed(),
    {
        self.disposed
    }

    /// The current status, from the cache.
    pub fn status(&self) -> (r: ScopeState)
        requires
            self.wf(),
        ensures
            r == self.derived_status(),
    {
        *self.state.get()
    }

    /// Records an error without recomputing the status cache; the caller
    /// must request recomputation afterwards.
    pub(crate) fn set_error(&mut self, err: Error)
        ensures
            final(self).spec_error() == Some(err),
            final(self).spec_uid() == old(self).spec_uid(),
            final(self).spec_disposed() == old(self).spec_disposed(),
            final(self).spec_active() == old(self).spec_active(),
            final(self).spec_tasker() == old(self).spec_tasker(),
            final(self).spec_cached() == old(self).spec_cached(),
            old(self).cache_at_rest() ==> final(self).cache_at_rest(),
    {
        self.status.set_error(err);
    }

    /// What disposal does to a lifecycle: the id is cleared forever, the
    /// disposal flag is raised, the status becomes `Disposed`, the scheduler
    /// is told to stop without draining its queue.
    pub open spec fn dispose_transition(pre: Lifecycle, post: Lifecycle) -> bool {
        &&& post.spec_uid() is None
        &&& post.spec_disposed()
        &&& post.wf()
        &&& post.derived_status() == ScopeState::Disposed
        &&& post.spec_active() == pre.spec_active()
        &&& post.spec_error() == pre.spec_error()
        &&& post.spec_tasker().spec_disposed()
        &&& post.spec_tasker().spec_items() == pre.spec_tasker().spec_items()
        &&& post.spec_tasker().spec_workers() == pre.spec_tasker().spec_workers()
    }

    /// Signals disposal: clears the id, raises the flag, recomputes the
    /// status (now `Disposed` for good) and stops the scheduler.  Idempotent.
    pub fn notify_dispose(&mut self)
        requires
            old(self).cache_at_rest(),
        ensures
            Self::dispose_transition(*old(self), *final(self)),
    {
        self.uid = None;
        self.disposed = true;
        self.recompute();
        self.tasker.dispose();
    }

    /// The effect-execution wrapper reported success: the scope is confirmed
    /// active, the error slot is cleared, and the status is recomputed.
    pub fn effect_success(&mut self)
        requires
            old(self).wf(),
        ensures
            final(self).wf(),
            final(self).spec_active(),
            final(self).spec_error() is None,
            final(self).spec_uid() == old(self).spec_uid(),
            final(self).spec_disposed() == old(self).spec_disposed(),
            final(self).spec_tasker() == old(self).spec_tasker(),
            !old(self).spec_disposed() ==> final(self).derived_status() == ScopeState::Active,
            old(self).spec_disposed() ==> final(self).derived_status() == ScopeState::Disposed,
    {
        self.status.is_active = true;
        self.status.error = None;
        self.recompute();
    }

    /// The effect returned an application error: it is recorded in the
    /// error slot and the status recomputed, `Failed` unless the scope was
    /// already disposed.
    pub fn effect_failure(&mut self, err: Error)
        requires
            old(self).wf(),
        ensures
            final(self).wf(),
            final(self).spec_error() == Some(err),
            final(self).spec_active() == old(self).spec_active(),
            final(self).spec_uid() == old(self).spec_uid(),
            final(self).spec_disposed() == old(self).spec_disposed(),
            final(self).spec_tasker() == old(self).spec_tasker(),
            !old(self).spec_disposed() ==> final(self).derived_status() == ScopeState::Failed,
            old(self).spec_disposed() ==> final(self).derived_status() == ScopeState::Disposed,
    {
        self.set_error(err);
        self.recompute();
    }

    /// The effect raised an unrecoverable fault: it is recorded as such and
    /// the status recomputed; re-raising the fault on the worker is the
    /// executor's part.
    pub fn effect_panic(&mut self, message: String)
        requires
            old(self).wf(),
        ensures
            final(self).wf(),
            final(self).spec_error() == Some(Error::PnpPanic(message)),
            final(self).spec_active() == old(self).spec_active(),
            final(self).spec_uid() == old(self).spec_uid(),
            final(self).spec_disposed() == old(self).spec_disposed(),
            final(self).spec_tasker() == old(self).spec_tasker(),
            !old(self).spec_disposed() ==> final(self).derived_status() == ScopeState::Failed,
            old(self).spec_disposed() ==> final(self).derived_status() == ScopeState::Disposed,
    {
        self.set_error(Error::PnpPanic(message));
        self.recompute();
    }
}

/// One root node per distinct plugin identity that has ever been activated,
/// owning all of that plugin's concurrent activation scopes.  The tree root
/// itself is the one root node without a plugin.
pub struct MainScope {
    pub(crate) id: Option<usize>,
    pub(crate) name: Option<String>,
    pub(crate) plugin: Option<u128>,
    pub(crate) children: dashmap::DashSet<usize>,
    /// Whether this root permits only one concurrent activation.
    pub alone: bool,
}

impl MainScope {
    /// The numeric id; `None` once disposed.
    pub closed spec fn spec_id(self) -> Option<usize> {
        self.id
    }

    /// The display name, if any.
    pub closed spec fn spec_name(self) -> Option<Seq<char>> {
        match self.name {
            Some(n) => Some(n@),
            None => None,
        }
    }

    /// The identity of the plugin this root belongs to; `None` for the
    /// anonymous tree root.
    pub closed spec fn spec_plugin(self) -> Option<u128> {
        self.plugin
    }

    /// The slots of this root's child scopes.
    pub closed spec fn spec_children(self) -> Set<usize> {
        set_elems(self.children)
    }

    /// Whether this root permits only one concurrent activation.
    pub closed spec fn spec_alone(self) -> bool {
        self.alone
    }

    /// The numeric id, reading the cleared id of a disposed root as the
    /// largest value.
    pub fn id(&self) -> (r: usize)
        ensures
            self.spec_id() is Some ==> r == self.spec_id().unwrap(),
            self.spec_id() is None ==> r == usize::MAX,
    {
        match self.id {
            Some(v) => v,
            None => usize::MAX,
        }
    }

    /// The identity of this root's plugin, if it has one.
    pub fn plugin(&self) -> (r: Option<u128>)
        ensures
            r == self.spec_plugin(),
    {
        self.plugin
    }

    /// The display name, if any.
    pub fn name(&self) -> (r: Option<&str>)
        ensures
            self.spec_name() is Some ==> r is Some && r.unwrap()@ == self.spec_name().unwrap(),
            self.spec_name() is None ==> r is None,
    {
        match &self.name {
            Some(n) => Some(n.as_str()),
            None => None,
        }
    }
}

/// One activation of a plugin (or the tree root itself): its lifecycle, the
/// slot of its owning root node, and the token of its opaque configuration
/// payload.
pub struct Scope {
    pub(crate) lifecycle: Lifecycle,
    pub(crate) runtime: usize,
    pub(crate) config: u64,
}

impl Scope {
    /// The scope's lifecycle.
    pub closed spec fn spec_lifecycle(self) -> Lifecycle {
        self.lifecycle
    }

    /// The slot of the owning root node.
    pub closed spec fn spec_runtime(self) -> usize {
        self.runtime
    }

    /// The token of the opaque configuration payload.
    pub closed spec fn spec_config(self) -> u64 {
        self.config
    }

    /// The numeric id, reading the cleared id of a disposed scope as the
    /// largest value.
    pub fn id(&self) -> (r: usize)
        ensures
            self.spec_lifecycle().spec_uid() is Some ==> r == self.spec_lifecycle(
            ).spec_uid().unwrap(),
            self.spec_lifecycle().spec_uid() is None ==> r == usize::MAX,
    {
        match self.lifecycle.uid {
            Some(v) => v,
            None => usize::MAX,
        }
    }

    /// The token of the opaque configuration payload.
    pub fn config(&self) -> (r: u64)
        ensures
            r == self.spec_config(),
    {
        self.config
    }

    /// Recognizes the task that the effect-execution wrapper schedules.
    pub open spec fn is_effect_task(t: Task) -> bool {
        t.spec_blocking() && t.spec_name() == "anonymous"@
    }

    /// Schedules the wrapped effect on this scope's own scheduler: one
    /// blocking task, named after the anonymous wrapper, behind whatever is
    /// already queued.
    pub fn ensure(&mut self)
        ensures
            final(self).spec_runtime() == old(self).spec_runtime(),
            final(self).spec_config() == old(self).spec_config(),
            final(self).spec_lifecycle().spec_uid() == old(self).spec_lifecycle().spec_uid(),
            final(self).spec_lifecycle().spec_disposed() == old(self).spec_lifecycle(
            ).spec_disposed(),
            final(self).spec_lifecycle().spec_active() == old(self).spec_lifecycle().spec_active(),
            final(self).spec_lifecycle().spec_error() == old(self).spec_lifecycle().spec_error(),
            final(self).spec_lifecycle().spec_cached() == old(self).spec_lifecycle().spec_cached(),
            old(self).spec_lifecycle().wf() ==> final(self).spec_lifecycle().wf(),
            final(self).spec_lifecycle().spec_tasker().spec_disposed() == old(self).spec_lifecycle().spec_tasker().spec_disposed(),
            final(self).spec_lifecycle().spec_tasker().spec_workers() == old(self).spec_lifecycle().spec_tasker().spec_workers(),
            final(self).spec_lifecycle().spec_tasker().spec_items() == old(self).spec_lifecycle().spec_tasker().spec_items().push(
                final(self).spec_lifecycle().spec_tasker().spec_items().last(),
            ),
            Self::is_effect_task(final(self).spec_lifecycle().spec_tasker().spec_items().last()),
    {
        let name = "anonymous".to_owned();
        let t = Task::new_blocking(name);
        self.lifecycle.tasker.sched(t);
    }
}

/// What an activation request carries: the plugin's stable identity, its
/// display name, and whether it is a singleton.  Identity 0 is reserved for
/// the no-op plugin of the tree root and is not pluggable.
pub struct PluginInfo {
    /// Stable identity, unique per distinct plugin implementation.
    pub identifier: u128,
    /// Display name.
    pub name: String,
    /// Whether at most one concurrent activation is permitted.
    pub alone: bool,
}

/// What a successful plug request did.
#[derive(Copy, Clone, PartialEq, Eq, Structural, Debug)]
pub enum PlugOutcome {
    /// A new scope was forked; its effect is scheduled on its scheduler.
    Forked(usize),
    /// The plugin is a singleton with a live scope: no sibling is created,
    /// and the activation is to be serialized against the returned existing
    /// scope as a hot-update request.
    Serialized(usize),
}

/// The root context: the registry, the two arenas of the supervision tree,
/// and the slots of the anonymous tree root and its root scope.
pub struct Cortex {
    pub(crate) registry: Registry,
    pub(crate) roots: Vec<MainScope>,
    pub(crate) scopes: Vec<Scope>,
    pub(crate) root_main: usize,
    pub(crate) root_scope: usize,
    pub(crate) assigned: Ghost<Seq<usize>>,
}

impl Cortex {
    /// The root-node arena.
    pub closed spec fn spec_roots(self) -> Seq<MainScope> {
        self.roots@
    }

    /// The scope arena.
    pub closed spec fn spec_scopes(self) -> Seq<Scope> {
        self.scopes@
    }

    /// The registry's identity map.
    pub closed spec fn spec_entries(self) -> Map<u128, usize> {
        self.registry.spec_entries()
    }

    /// The id the next activation will receive.
    pub closed spec fn spec_counter(self) -> usize {
        self.registry.spec_counter()
    }

    /// Every numeric id ever assigned, in assignment order.
    pub closed spec fn spec_assigned(self) -> Seq<usize> {
        self.assigned@
    }

    /// The slot of the anonymous tree root.
    pub closed spec fn spec_root_main(self) -> usize {
        self.root_main
    }

    /// The slot of the root scope.
    pub closed spec fn spec_root_scope(self) -> usize {
        self.root_scope
    }

    /// The status of the scope in slot `s`.
    pub open spec fn spec_status(self, s: int) -> ScopeState {
        self.spec_scopes()[s].spec_lifecycle().derived_status()
    }

    /// The child set of the root node in slot `r`.
    pub open spec fn spec_children(self, r: int) -> Set<usize> {
        self.spec_roots()[r].spec_children()
    }

    /// A scope is live while its numeric id is not cleared.
    pub open spec fn scope_live(self, s: int) -> bool {
        self.spec_scopes()[s].spec_lifecycle().spec_uid() is Some
    }

    /// Per-scope well-formedness: a well-formed lifecycle, a valid owner
    /// slot, the configured worker count, an id below the counter, and
    /// membership in the owner's child set exactly while live.
    pub open spec fn scope_wf_at(self, s: int) -> bool {
        let sc = self.spec_scopes()[s];
        &&& sc.spec_lifecycle().wf()
        &&& sc.spec_runtime() < self.spec_roots().len()
        &&& sc.spec_lifecycle().spec_tasker().spec_workers().len() == WORKER_COUNT as int
        &&& sc.spec_lifecycle().spec_uid() is Some ==> sc.spec_lifecycle().spec_uid().unwrap()
            < self.spec_counter()
        &&& sc.spec_lifecycle().spec_uid() is Some ==> self.spec_children(
            sc.spec_runtime() as int,
        ).contains(s as usize)
    }

    /// Per-root well-formedness: an id below the counter, children that are
    /// valid live scopes owned by this root, and — while live and owned by a
    /// plugin — exactly this slot registered under that plugin's identity.
    pub open spec fn root_wf_at(self, r: int) -> bool {
        let rt = self.spec_roots()[r];
        &&& rt.spec_id() is Some ==> rt.spec_id().unwrap() < self.spec_counter()
        &&& forall|s: usize| #[trigger]
            rt.spec_children().contains(s) ==> s < self.spec_scopes().len() && self.spec_scopes()[
                s as int].spec_runtime() == r && self.scope_live(s as int)
        &&& rt.spec_id() is Some && rt.spec_plugin() is Some ==> self.spec_entries().contains_key(
            rt.spec_plugin().unwrap(),
        ) && self.spec_entries()[rt.spec_plugin().unwrap()] == r as usize
    }

    /// Per-entry well-formedness: every registered identity points at a live
    /// root node carrying exactly that identity.
    pub open spec fn entry_wf_at(self, p: u128) -> bool {
        let r = self.spec_entries()[p];
        &&& r < self.spec_roots().len()
        &&& self.spec_roots()[r as int].spec_plugin() == Some(p)
        &&& self.spec_roots()[r as int].spec_id() is Some
    }

    /// Structural well-formedness of the arenas, the registry and the id
    /// history: ids were assigned in strictly increasing order below the
    /// counter.
    pub open spec fn wf_nodes(self) -> bool {
        &&& self.spec_scopes().len() <= usize::MAX
        &&& self.spec_roots().len() <= usize::MAX
        &&& forall|s: int| 0 <= s < self.spec_scopes().len() ==> #[trigger] self.scope_wf_at(s)
        &&& forall|r: int| 0 <= r < self.spec_roots().len() ==> #[trigger] self.root_wf_at(r)
        &&& forall|p: u128| #[trigger]
            self.spec_entries().contains_key(p) ==> self.entry_wf_at(p)
        &&& forall|i: int|
            0 <= i < self.spec_assigned().len() ==> #[trigger] self.spec_assigned()[i]
                < self.spec_counter()
        &&& forall|i: int, j: int|
            #![trigger self.spec_assigned()[i], self.spec_assigned()[j]]
            0 <= i < j < self.spec_assigned().len() ==> self.spec_assigned()[i]
                < self.spec_assigned()[j]
    }

    /// The anonymous tree root and the root scope are valid and linked.
    pub open spec fn wf_links(self) -> bool {
        &&& self.spec_root_main() < self.spec_roots().len()
        &&& self.spec_root_scope() < self.spec_scopes().len()
        &&& self.spec_roots()[self.spec_root_main() as int].spec_plugin() is None
        &&& self.spec_scopes()[self.spec_root_scope() as int].spec_runtime()
            == self.spec_root_main()
    }

    /// Every registered root still has at least one child: a root whose
    /// child set empties is evicted from the registry in the same step.
    pub open spec fn registered_roots_populated(self) -> bool {
        forall|p: u128| #[trigger]
            self.spec_entries().contains_key(p) ==> !self.spec_children(
                self.spec_entries()[p] as int,
            ).is_empty()
    }

    /// The set has at most one member.
    pub open spec fn at_most_one(s: Set<usize>) -> bool {
        forall|a: usize, b: usize| s.contains(a) && s.contains(b) ==> a == b
    }

    /// A registered singleton root never has a second concurrent scope.
    pub open spec fn singleton_roots_single(self) -> bool {
        forall|p: u128| #[trigger]
            self.spec_entries().contains_key(p) && self.spec_roots()[
                self.spec_entries()[p] as int].spec_alone() ==> Self::at_most_one(
                self.spec_children(self.spec_entries()[p] as int),
            )
    }

    /// Well-formed root context.
    pub open spec fn wf(self) -> bool {
        &&& self.wf_nodes()
        &&& self.wf_links()
        &&& self.registered_roots_populated()
        &&& self.singleton_roots_single()
    }

    /// What forking a scope under the root node in slot `rr` does: one fresh
    /// scope in slot `s` with the next id, status `Pending`, its effect
    /// scheduled exactly when the root has a plugin; the root gains `s` as a
    /// child; nothing else moves.
    pub open spec fn fork_transition(
        pre: Cortex,
        post: Cortex,
        rr: usize,
        config: u64,
        s: usize,
    ) -> bool {
        let uid = pre.spec_counter();
        let sc = post.spec_scopes()[s as int];
        &&& s == pre.spec_scopes().len()
        &&& post.spec_scopes().len() == pre.spec_scopes().len() + 1
        &&& forall|i: int|
            0 <= i < pre.spec_scopes().len() ==> #[trigger] post.spec_scopes()[i]
                == pre.spec_scopes()[i]
        &&& sc.spec_runtime() == rr
        &&& sc.spec_config() == config
        &&& sc.spec_lifecycle().spec_uid() == Some(uid)
        &&& !sc.spec_lifecycle().spec_disposed()
        &&& sc.spec_lifecycle().spec_error() is None
        &&& !sc.spec_lifecycle().spec_active()
        &&& post.spec_status(s as int) == ScopeState::Pending
        &&& !sc.spec_lifecycle().spec_tasker().spec_disposed()
        &&& (pre.spec_roots()[rr as int].spec_plugin() is Some ==> {
            let items = sc.spec_lifecycle().spec_tasker().spec_items();
            items.len() == 1 && Scope::is_effect_task(items[0])
        })
        &&& (pre.spec_roots()[rr as int].spec_plugin() is None
            ==> sc.spec_lifecycle().spec_tasker().spec_items().len() == 0)
        &&& post.spec_roots().len() == pre.spec_roots().len()
        &&& forall|i: int|
            0 <= i < pre.spec_roots().len() && i != rr as int ==> #[trigger] post.spec_roots()[i]
                == pre.spec_roots()[i]
        &&& post.spec_children(rr as int) == pre.spec_children(rr as int).insert(s)
        &&& post.spec_roots()[rr as int].spec_id() == pre.spec_roots()[rr as int].spec_id()
        &&& post.spec_roots()[rr as int].spec_plugin() == pre.spec_roots()[
            rr as int].spec_plugin()
        &&& post.spec_roots()[rr as int].spec_alone() == pre.spec_roots()[
            rr as int].spec_alone()
        &&& post.spec_roots()[rr as int].spec_name() == pre.spec_roots()[rr as int].spec_name()
        &&& post.spec_entries() == pre.spec_entries()
        &&& post.spec_counter() == pre.spec_counter() + 1
        &&& post.spec_assigned() == pre.spec_assigned().push(uid)
        &&& post.spec_root_main() == pre.spec_root_main()
        &&& post.spec_root_scope() == pre.spec_root_scope()
    }

    /// Forks a new scope under the root node in slot `rr`: assigns it the
    /// next registry-issued id, registers it in the root's child set, and
    /// schedules the plugin's effect unless this is the anonymous tree root.
    pub(crate) fn fork(&mut self, rr: usize, config: u64) -> (s: usize)
        requires
            old(self).wf_nodes(),
            rr < old(self).spec_roots().len(),
            old(self).spec_counter() < usize::MAX,
            old(self).spec_scopes().len() < usize::MAX,
        ensures
            final(self).wf_nodes(),
            Self::fork_transition(*old(self), *final(self), rr, config, s),
    {
        let uid = self.registry.next_id();
        let mut scope = Scope { lifecycle: Lifecycle::new(uid, WORKER_COUNT), runtime: rr, config };
        let has_plugin = self.roots[rr].plugin.is_some();
        if has_plugin {
            scope.ensure();
        }
        let s = self.scopes.len();
        self.scopes.push(scope);
        let root = &mut self.roots[rr];
        let _ = set_insert(&mut root.children, s);
        self.assigned = Ghost(self.assigned@.push(uid));
        proof {
            let pre = *old(self);
            assert forall|i: int| 0 <= i < self.spec_scopes().len() implies #[trigger] self
                .scope_wf_at(i) by {
                if i < pre.spec_scopes().len() {
                    assert(pre.scope_wf_at(i));
                    assert(self.spec_scopes()[i] == pre.spec_scopes()[i]);
                    if pre.spec_scopes()[i].spec_lifecycle().spec_uid() is Some {
                        let rt = pre.spec_scopes()[i].spec_runtime() as int;
                        assert(pre.spec_children(rt).contains(i as usize));
                    }
                }
            }
            assert forall|r: int| 0 <= r < self.spec_roots().len() implies #[trigger] self
                .root_wf_at(r) by {
                assert(pre.root_wf_at(r));
                let rt = self.spec_roots()[r];
                assert forall|t: usize| #[trigger]
                    rt.spec_children().contains(t) implies t < self.spec_scopes().len()
                    && self.spec_scopes()[t as int].spec_runtime() == r && self.scope_live(
                    t as int,
                ) by {
                    if r == rr as int && t == s {
                    } else {
                        assert(pre.spec_roots()[r].spec_children().contains(t));
                        assert(self.spec_scopes()[t as int] == pre.spec_scopes()[t as int]);
                    }
                }
            }
            assert forall|p: u128| #[trigger]
                self.spec_entries().contains_key(p) implies self.entry_wf_at(p) by {
                assert(pre.entry_wf_at(p));
                let r = pre.spec_entries()[p] as int;
                if r != rr as int {
                    assert(self.spec_roots()[r] == pre.spec_roots()[r]);
                }
            }
            assert forall|i: int| 0 <= i < self.spec_assigned().len() implies #[trigger] self
                .spec_assigned()[i] < self.spec_counter() by {
                if i < pre.spec_assigned().len() {
                    assert(pre.spec_assigned()[i] < pre.spec_counter());
                }
            }
            assert forall|i: int, j: int|
                #![trigger self.spec_assigned()[i], self.spec_assigned()[j]]
                0 <= i < j < self.spec_assigned().len() implies self.spec_assigned()[i]
                < self.spec_assigned()[j] by {
                if j == self.spec_assigned().len() - 1 {
                    assert(pre.spec_assigned()[i] < pre.spec_counter());
                } else {
                    assert(pre.spec_assigned()[i] < pre.spec_assigned()[j]);
                }
            }
        }
        s
    }

    /// A fresh root context: the registry, the anonymous tree root (id 1)
    /// and the root scope forked under it (id 2), whose status is `Pending`
    /// and stays so — the tree root has no effect to run.
    pub fn new(config: u64) -> (c: Cortex)
        ensures
            c.wf(),
            c.spec_roots().len() == 1,
            c.spec_scopes().len() == 1,
            c.spec_root_main() == 0,
            c.spec_root_scope() == 0,
            c.spec_status(0) == ScopeState::Pending,
            c.scope_live(0),
            !c.spec_scopes()[0].spec_lifecycle().spec_disposed(),
            c.spec_roots()[0].spec_name() == Some("root"@),
            c.spec_scopes()[0].spec_config() == config,
            c.spec_scopes()[0].spec_lifecycle().spec_tasker().spec_items() == Seq::<Task>::empty(),
            c.spec_children(0) == Set::<usize>::empty().insert(0usize),
            crate::registry::entries_empty(c.spec_entries()),
            c.spec_counter() == 3,
            c.spec_assigned() == Seq::<usize>::empty().push(1usize).push(2usize),
    {
        let mut registry = Registry::new();
        let rid = registry.next_id();
        let root = MainScope {
            id: Some(rid),
            name: Some("root".to_owned()),
            plugin: None,
            children: set_new(),
            alone: true,
        };
        let mut roots: Vec<MainScope> = Vec::new();
        roots.push(root);
        let scopes: Vec<Scope> = Vec::new();
        let mut c = Cortex {
            registry,
            roots,
            scopes,
            root_main: 0,
            root_scope: 0,
            assigned: Ghost(Seq::<usize>::empty().push(rid)),
        };
        proof {
            assert forall|s: int| 0 <= s < c.spec_scopes().len() implies #[trigger] c.scope_wf_at(
                s,
            ) by {}
            assert forall|r: int| 0 <= r < c.spec_roots().len() implies #[trigger] c.root_wf_at(
                r,
            ) by {
                assert(c.spec_roots()[r].spec_children() =~= Set::<usize>::empty());
            }
        }
        let s = c.fork(0, config);
        c.root_scope = s;
        c
    }

    /// What a plug request does.  A request against a disposed calling scope
    /// is rejected with `InactiveScope`; identity 0 (the tree root's no-op
    /// plugin) is rejected with `InvalidPlug`; otherwise the request
    /// succeeds: an unknown identity gets a fresh registered root node and a
    /// first scope, a known non-singleton identity gets a sibling scope
    /// under its existing root, and a known singleton identity gets no new
    /// scope — the activation is to be serialized against the existing one.
    pub open spec fn plug_transition(
        pre: Cortex,
        post: Cortex,
        info: PluginInfo,
        config: u64,
        r: Result<PlugOutcome, CrowdError>,
    ) -> bool {
        let inactive = pre.spec_scopes()[pre.spec_root_scope() as int].spec_lifecycle(
        ).spec_disposed();
        let known = pre.spec_entries().contains_key(info.identifier);
        let rr0 = pre.spec_entries()[info.identifier];
        &&& (r is Err <==> (inactive || info.identifier == 0))
        &&& (inactive ==> r == Result::<PlugOutcome, CrowdError>::Err(CrowdError::InactiveScope)
            && post == pre)
        &&& (!inactive && info.identifier == 0 ==> r == Result::<
            PlugOutcome,
            CrowdError,
        >::Err(CrowdError::InvalidPlug) && post == pre)
        &&& (!inactive && info.identifier != 0 && known && pre.spec_roots()[
            rr0 as int].spec_alone() ==> post == pre && (r matches Ok(
            PlugOutcome::Serialized(e),
        ) && pre.spec_children(rr0 as int).contains(e) && (forall|t: usize|
            pre.spec_children(rr0 as int).contains(t) ==> t == e)))
        &&& (!inactive && info.identifier != 0 && known && !pre.spec_roots()[
            rr0 as int].spec_alone() ==> (r matches Ok(PlugOutcome::Forked(s))
            && Self::fork_transition(pre, post, rr0, config, s)))
        &&& (!inactive && info.identifier != 0 && !known ==> (r matches Ok(
            PlugOutcome::Forked(s),
        ) && Self::plug_new_root_transition(pre, post, info, config, s)))
    }

    /// The fresh-root arm of [`Self::plug_transition`]: a new root node in
    /// the next root slot, registered under the plugin's identity with the
    /// next id, and its first scope forked with the id after that.
    pub open spec fn plug_new_root_transition(
        pre: Cortex,
        post: Cortex,
        info: PluginInfo,
        config: u64,
        s: usize,
    ) -> bool {
        let rr = pre.spec_roots().len() as int;
        let rid = pre.spec_counter();
        let sc = post.spec_scopes()[s as int];
        &&& s == pre.spec_scopes().len()
        &&& post.spec_scopes().len() == pre.spec_scopes().len() + 1
        &&& forall|i: int|
            0 <= i < pre.spec_scopes().len() ==> #[trigger] post.spec_scopes()[i]
                == pre.spec_scopes()[i]
        &&& post.spec_roots().len() == pre.spec_roots().len() + 1
        &&& forall|i: int|
            0 <= i < pre.spec_roots().len() ==> #[trigger] post.spec_roots()[i]
                == pre.spec_roots()[i]
        &&& post.spec_roots()[rr].spec_id() == Some(rid)
        &&& post.spec_roots()[rr].spec_plugin() == Some(info.identifier)
        &&& post.spec_roots()[rr].spec_alone() == info.alone
        &&& post.spec_roots()[rr].spec_name() == Some(info.name@)
        &&& post.spec_children(rr) == Set::<usize>::empty().insert(s)
        &&& sc.spec_runtime() == rr
        &&& sc.spec_config() == config
        &&& sc.spec_lifecycle().spec_uid() == Some((rid + 1) as usize)
        &&& !sc.spec_lifecycle().spec_disposed()
        &&& sc.spec_lifecycle().spec_error() is None
        &&& !sc.spec_lifecycle().spec_active()
        &&& post.spec_status(s as int) == ScopeState::Pending
        &&& ({
            let items = sc.spec_lifecycle().spec_tasker().spec_items();
            items.len() == 1 && Scope::is_effect_task(items[0])
        })
        &&& post.spec_entries() == pre.spec_entries().insert(info.identifier, rr as usize)
        &&& post.spec_counter() == pre.spec_counter() + 2
        &&& post.spec_assigned() == pre.spec_assigned().push(rid).push((rid + 1) as usize)
        &&& post.spec_root_main() == pre.spec_root_main()
        &&& post.spec_root_scope() == pre.spec_root_scope()
    }

    /// Requests activation of a plugin for this context (`RootContext::plug`
    /// followed by the registry's `plugin` step, under one exclusive borrow,
    /// which closes the registry's check-then-insert race by construction).
    pub fn plug(&mut self, info: PluginInfo, config: u64) -> (r: Result<PlugOutcome, CrowdError>)
        requires
            old(self).wf(),
            old(self).spec_counter() + 2 < usize::MAX,
            old(self).spec_scopes().len() + 1 < usize::MAX,
            old(self).spec_roots().len() + 1 < usize::MAX,
        ensures
            final(self).wf(),
            Self::plug_transition(*old(self), *final(self), info, config, r),
    {
        let inactive = self.scopes[self.root_scope].lifecycle.is_disposed();
        if inactive {
            return Err(CrowdError::InactiveScope);
        }
        if info.identifier == 0 {
            return Err(CrowdError::InvalidPlug);
        }
        match self.registry.get(info.identifier) {
            Some(rr0) => {
                proof {
                    assert(self.entry_wf_at(info.identifier));
                }
                if self.roots[rr0].alone {
                    let existing = set_first(&self.roots[rr0].children);
                    match existing {
                        Some(e) => Ok(PlugOutcome::Serialized(e)),
                        None => {
                            proof {
                                assert(!self.spec_children(rr0 as int).is_empty());
                            }
                            vstd::pervasive::unreached()
                        },
                    }
                } else {
                    let s = self.fork(rr0, config);
                    proof {
                        let pre = *old(self);
                        assert forall|p: u128| #[trigger]
                            self.spec_entries().contains_key(p) implies !self.spec_children(
                            self.spec_entries()[p] as int,
                        ).is_empty() by {
                            assert(pre.entry_wf_at(p));
                            if pre.spec_entries()[p] == rr0 {
                                assert(self.spec_children(rr0 as int).contains(s));
                            } else {
                                assert(self.spec_roots()[pre.spec_entries()[p] as int]
                                    == pre.spec_roots()[pre.spec_entries()[p] as int]);
                                assert(!pre.spec_children(pre.spec_entries()[p] as int).is_empty());
                            }
                        }
                        assert forall|p: u128| #[trigger]
                            self.spec_entries().contains_key(p) && self.spec_roots()[
                            self.spec_entries()[p] as int].spec_alone() implies Self::at_most_one(
                            self.spec_children(self.spec_entries()[p] as int),
                        ) by {
                            assert(pre.entry_wf_at(p));
                            let r = pre.spec_entries()[p] as int;
                            if r == rr0 as int {
                                assert(self.spec_roots()[r].spec_alone() == pre.spec_roots()[
                                    r].spec_alone());
                                assert(false);
                            } else {
                                assert(self.spec_roots()[r] == pre.spec_roots()[r]);
                                assert(Self::at_most_one(pre.spec_children(r)));
                            }
                        }
                    }
                    Ok(PlugOutcome::Forked(s))
                }
            },
            None => {
                let rid = self.registry.next_id();
                let rr = self.roots.len();
                let root = MainScope {
                    id: Some(rid),
                    name: Some(info.name),
                    plugin: Some(info.identifier),
                    children: set_new(),
                    alone: info.alone,
                };
                self.roots.push(root);
                self.registry.set(info.identifier, rr);
                self.assigned = Ghost(self.assigned@.push(rid));
                proof {
                    let pre = *old(self);
                    let mid = *self;
                    assert forall|i: int| 0 <= i < mid.spec_scopes().len() implies #[trigger] mid
                        .scope_wf_at(i) by {
                        assert(pre.scope_wf_at(i));
                        assert(mid.spec_scopes()[i] == pre.spec_scopes()[i]);
                        if pre.spec_scopes()[i].spec_lifecycle().spec_uid() is Some {
                            let rt = pre.spec_scopes()[i].spec_runtime() as int;
                            assert(pre.spec_children(rt).contains(i as usize));
                            assert(mid.spec_roots()[rt] == pre.spec_roots()[rt]);
                        }
                    }
                    assert forall|rx: int| 0 <= rx < mid.spec_roots().len() implies #[trigger] mid
                        .root_wf_at(rx) by {
                        if rx < pre.spec_roots().len() {
                            assert(pre.root_wf_at(rx));
                            assert(mid.spec_roots()[rx] == pre.spec_roots()[rx]);
                            assert forall|t: usize| #[trigger]
                                mid.spec_roots()[rx].spec_children().contains(t) implies t < mid
                                .spec_scopes().len() && mid.spec_scopes()[t as int].spec_runtime()
                                == rx && mid.scope_live(t as int) by {
                                assert(pre.spec_roots()[rx].spec_children().contains(t));
                            }
                        } else {
                            assert(mid.spec_roots()[rx].spec_children() =~= Set::<usize>::empty());
                        }
                    }
                    assert forall|p: u128| #[trigger]
                        mid.spec_entries().contains_key(p) implies mid.entry_wf_at(p) by {
                        if p != info.identifier {
                            assert(pre.spec_entries().contains_key(p));
                            assert(pre.entry_wf_at(p));
                            assert(mid.spec_roots()[pre.spec_entries()[p] as int]
                                == pre.spec_roots()[pre.spec_entries()[p] as int]);
                        }
                    }
                    assert forall|i: int| 0 <= i < mid.spec_assigned().len() implies #[trigger] mid
                        .spec_assigned()[i] < mid.spec_counter() by {
                        if i < pre.spec_assigned().len() {
                            assert(pre.spec_assigned()[i] < pre.spec_counter());
                        }
                    }
                    assert forall|i: int, j: int|
                        #![trigger mid.spec_assigned()[i], mid.spec_assigned()[j]]
                        0 <= i < j < mid.spec_assigned().len() implies mid.spec_assigned()[i]
                        < mid.spec_assigned()[j] by {
                        if j == mid.spec_assigned().len() - 1 {
                            assert(pre.spec_assigned()[i] < pre.spec_counter());
                        } else {
                            assert(pre.spec_assigned()[i] < pre.spec_assigned()[j]);
                        }
                    }
                    assert(mid.wf_nodes());
                }
                let s = self.fork(rr, config);
                proof {
                    let pre = *old(self);
                    assert forall|p: u128| #[trigger]
                        self.spec_entries().contains_key(p) implies !self.spec_children(
                        self.spec_entries()[p] as int,
                    ).is_empty() by {
                        if p == info.identifier {
                            assert(self.spec_children(rr as int).contains(s));
                        } else {
                            assert(pre.entry_wf_at(p));
                            assert(!pre.spec_children(pre.spec_entries()[p] as int).is_empty());
                        }
                    }
                    assert(self.spec_children(rr as int) =~= Set::<usize>::empty().insert(s));
                    assert forall|p: u128| #[trigger]
                        self.spec_entries().contains_key(p) && self.spec_roots()[
                        self.spec_entries()[p] as int].spec_alone() implies Self::at_most_one(
                        self.spec_children(self.spec_entries()[p] as int),
                    ) by {
                        if p == info.identifier {
                            assert(self.spec_children(rr as int) =~= Set::<
                                usize,
                            >::empty().insert(s));
                        } else {
                            assert(pre.entry_wf_at(p));
                            let r = pre.spec_entries()[p] as int;
                            assert(self.spec_roots()[r] == pre.spec_roots()[r]);
                            assert(Self::at_most_one(pre.spec_children(r)));
                        }
                    }
                }
                Ok(PlugOutcome::Forked(s))
            },
        }
    }

    /// What disposing the scope in slot `s` does: the scope leaves its
    /// root's child set and its lifecycle becomes `Disposed`; if that
    /// removal emptied the child set of a plugin-owned root, the root is
    /// evicted from the registry and disposed in the same step.
    pub open spec fn dispose_scope_transition(
        pre: Cortex,
        post: Cortex,
        s: usize,
        was: bool,
    ) -> bool {
        let rr = pre.spec_scopes()[s as int].spec_runtime() as int;
        let plugin = pre.spec_roots()[rr].spec_plugin();
        let evicts = plugin is Some && pre.spec_roots()[rr].spec_id() is Some && was
            && pre.spec_children(rr).remove(s).is_empty();
        &&& was == pre.spec_children(rr).contains(s)
        &&& Lifecycle::dispose_transition(
            pre.spec_scopes()[s as int].spec_lifecycle(),
            post.spec_scopes()[s as int].spec_lifecycle(),
        )
        &&& post.spec_status(s as int) == ScopeState::Disposed
        &&& post.spec_scopes()[s as int].spec_runtime() == pre.spec_scopes()[
            s as int].spec_runtime()
        &&& post.spec_scopes()[s as int].spec_config() == pre.spec_scopes()[
            s as int].spec_config()
        &&& post.spec_scopes().len() == pre.spec_scopes().len()
        &&& forall|i: int|
            0 <= i < pre.spec_scopes().len() && i != s as int ==> #[trigger] post.spec_scopes()[i]
                == pre.spec_scopes()[i]
        &&& post.spec_roots().len() == pre.spec_roots().len()
        &&& forall|i: int|
            0 <= i < pre.spec_roots().len() && i != rr ==> #[trigger] post.spec_roots()[i]
                == pre.spec_roots()[i]
        &&& post.spec_children(rr) == pre.spec_children(rr).remove(s)
        &&& !post.spec_children(rr).contains(s)
        &&& post.spec_roots()[rr].spec_plugin() == plugin
        &&& post.spec_roots()[rr].spec_alone() == pre.spec_roots()[rr].spec_alone()
        &&& post.spec_roots()[rr].spec_name() == pre.spec_roots()[rr].spec_name()
        &&& (evicts ==> {
            &&& post.spec_entries() == pre.spec_entries().remove(plugin.unwrap())
            &&& !post.spec_entries().contains_key(plugin.unwrap())
            &&& post.spec_roots()[rr].spec_id() is None
        })
        &&& (!evicts ==> post.spec_entries() == pre.spec_entries() && post.spec_roots()[
            rr].spec_id() == pre.spec_roots()[rr].spec_id())
        &&& post.spec_counter() == pre.spec_counter()
        &&& post.spec_assigned() == pre.spec_assigned()
        &&& post.spec_root_main() == pre.spec_root_main()
        &&& post.spec_root_scope() == pre.spec_root_scope()
    }

    /// Disposes the scope in slot `s`: idempotent; removes it from its root
    /// node's child set (returning whether it was actually present), signals
    /// its lifecycle — which stops its scheduler and leaves the queue
    /// undrained — and, when this was the last child of a plugin-owned root,
    /// evicts that root from the registry and disposes it.  Cascading stops
    /// there: no deeper recursion.
    pub fn dispose_scope(&mut self, s: usize) -> (was: bool)
        requires
            old(self).wf(),
            s < old(self).spec_scopes().len(),
        ensures
            final(self).wf(),
            Self::dispose_scope_transition(*old(self), *final(self), s, was),
    {
        proof {
            assert(self.scope_wf_at(s as int));
        }
        let rr = self.scopes[s].runtime;
        let was = {
            let root = &mut self.roots[rr];
            set_remove(&mut root.children, s)
        };
        {
            let sc = &mut self.scopes[s];
            sc.lifecycle.notify_dispose();
        }
        let now_empty = set_is_empty(&self.roots[rr].children);
        let live = self.roots[rr].id.is_some();
        let mut evicted = false;
        if was && now_empty && live {
            let p_opt = self.roots[rr].plugin;
            if let Some(p) = p_opt {
                let _ = self.registry.remove(p);
                let root = &mut self.roots[rr];
                root.id = None;
                evicted = true;
            }
        }
        proof {
            let pre = *old(self);
            let rri = pre.spec_scopes()[s as int].spec_runtime() as int;
            assert forall|i: int| 0 <= i < self.spec_scopes().len() implies #[trigger] self
                .scope_wf_at(i) by {
                assert(pre.scope_wf_at(i));
                if i != s as int {
                    assert(self.spec_scopes()[i] == pre.spec_scopes()[i]);
                    if pre.spec_scopes()[i].spec_lifecycle().spec_uid() is Some {
                        let rt = pre.spec_scopes()[i].spec_runtime() as int;
                        assert(pre.spec_children(rt).contains(i as usize));
                        if rt == rri {
                            assert(self.spec_children(rt).contains(i as usize));
                        } else {
                            assert(self.spec_roots()[rt] == pre.spec_roots()[rt]);
                        }
                    }
                }
            }
            assert forall|r: int| 0 <= r < self.spec_roots().len() implies #[trigger] self
                .root_wf_at(r) by {
                assert(pre.root_wf_at(r));
                if r != rri {
                    assert(self.spec_roots()[r] == pre.spec_roots()[r]);
                }
                assert forall|t: usize| #[trigger]
                    self.spec_roots()[r].spec_children().contains(t) implies t < self.spec_scopes(
                ).len() && self.spec_scopes()[t as int].spec_runtime() == r && self.scope_live(
                    t as int,
                ) by {
                    assert(pre.spec_children(r).contains(t));
                    assert(t != s);
                    assert(self.spec_scopes()[t as int] == pre.spec_scopes()[t as int]);
                }
                if self.spec_roots()[r].spec_id() is Some && self.spec_roots()[
                    r].spec_plugin() is Some {
                    let q = self.spec_roots()[r].spec_plugin().unwrap();
                    if r == rri {
                        assert(!evicted);
                        assert(pre.spec_roots()[r].spec_id() is Some);
                        assert(pre.spec_entries().contains_key(q) && pre.spec_entries()[q]
                            == r as usize);
                    } else {
                        assert(pre.spec_entries().contains_key(q) && pre.spec_entries()[q]
                            == r as usize);
                        if evicted {
                            let p0 = pre.spec_roots()[rri].spec_plugin().unwrap();
                            assert(pre.root_wf_at(rri));
                            assert(pre.spec_entries().contains_key(p0) && pre.spec_entries()[p0]
                                == rri as usize);
                            assert(q != p0);
                        }
                    }
                }
            }
            assert forall|p: u128| #[trigger]
                self.spec_entries().contains_key(p) implies self.entry_wf_at(p) by {
                assert(pre.spec_entries().contains_key(p));
                assert(pre.entry_wf_at(p));
                let r = pre.spec_entries()[p] as int;
                if r != rri {
                    assert(self.spec_roots()[r] == pre.spec_roots()[r]);
                } else {
                    if evicted {
                        assert(pre.spec_roots()[rri].spec_plugin() == Some(p));
                        assert(false);
                    }
                }
            }
            assert forall|p: u128| #[trigger]
                self.spec_entries().contains_key(p) implies !self.spec_children(
                self.spec_entries()[p] as int,
            ).is_empty() by {
                assert(pre.spec_entries().contains_key(p));
                assert(pre.entry_wf_at(p));
                let r = pre.spec_entries()[p] as int;
                if r == rri {
                    assert(pre.spec_roots()[rri].spec_id() is Some);
                    if !pre.spec_children(rri).contains(s) {
                        assert(pre.spec_children(rri).remove(s) =~= pre.spec_children(rri));
                    }
                    assert(!self.spec_children(r).is_empty());
                } else {
                    assert(self.spec_roots()[r] == pre.spec_roots()[r]);
                    assert(!pre.spec_children(r).is_empty());
                }
            }
            assert forall|p: u128| #[trigger]
                self.spec_entries().contains_key(p) && self.spec_roots()[
                self.spec_entries()[p] as int].spec_alone() implies Self::at_most_one(
                self.spec_children(self.spec_entries()[p] as int),
            ) by {
                assert(pre.spec_entries().contains_key(p));
                assert(pre.entry_wf_at(p));
                let r = pre.spec_entries()[p] as int;
                if r == rri {
                    assert(self.spec_roots()[r].spec_alone() == pre.spec_roots()[r].spec_alone());
                    assert(Self::at_most_one(pre.spec_children(r)));
                } else {
                    assert(self.spec_roots()[r] == pre.spec_roots()[r]);
                    assert(Self::at_most_one(pre.spec_children(r)));
                }
            }
            assert(self.spec_assigned() == pre.spec_assigned());
            assert(self.spec_counter() == pre.spec_counter());
            assert forall|i: int| 0 <= i < self.spec_assigned().len() implies #[trigger] self
                .spec_assigned()[i] < self.spec_counter() by {
                assert(pre.spec_assigned()[i] < pre.spec_counter());
            }
            assert forall|i: int, j: int|
                #![trigger self.spec_assigned()[i], self.spec_assigned()[j]]
                0 <= i < j < self.spec_assigned().len() implies self.spec_assigned()[i]
                < self.spec_assigned()[j] by {
                assert(pre.spec_assigned()[i] < pre.spec_assigned()[j]);
            }
        }
        was
    }

    /// What deleting a registry entry does: the entry goes; if one was
    /// there, the root node it named is disposed (its id cleared), its
    /// children left untouched.
    pub open spec fn delete_transition(
        pre: Cortex,
        post: Cortex,
        identifier: u128,
        was: bool,
    ) -> bool {
        let known = pre.spec_entries().contains_key(identifier);
        let rr = pre.spec_entries()[identifier] as int;
        &&& was == known
        &&& (!known ==> post == pre)
        &&& (known ==> {
            &&& post.spec_entries() == pre.spec_entries().remove(identifier)
            &&& post.spec_scopes() == pre.spec_scopes()
            &&& post.spec_roots().len() == pre.spec_roots().len()
            &&& forall|i: int|
                0 <= i < pre.spec_roots().len() && i != rr ==> #[trigger] post.spec_roots()[i]
                    == pre.spec_roots()[i]
            &&& post.spec_roots()[rr].spec_id() is None
            &&& post.spec_roots()[rr].spec_plugin() == pre.spec_roots()[rr].spec_plugin()
            &&& post.spec_roots()[rr].spec_alone() == pre.spec_roots()[rr].spec_alone()
            &&& post.spec_roots()[rr].spec_name() == pre.spec_roots()[rr].spec_name()
            &&& post.spec_children(rr) == pre.spec_children(rr)
            &&& post.spec_counter() == pre.spec_counter()
            &&& post.spec_assigned() == pre.spec_assigned()
            &&& post.spec_root_main() == pre.spec_root_main()
            &&& post.spec_root_scope() == pre.spec_root_scope()
        })
    }

    /// Removes the registry entry for a plugin identity and, if one was
    /// there, disposes the root node it named.  Returns whether an entry
    /// was actually removed.
    pub fn delete(&mut self, identifier: u128) -> (was: bool)
        requires
            old(self).wf(),
        ensures
            final(self).wf(),
            Self::delete_transition(*old(self), *final(self), identifier, was),
    {
        match self.registry.get(identifier) {
            None => false,
            Some(rr) => {
                proof {
                    assert(old(self).entry_wf_at(identifier));
                }
                let _ = self.registry.remove(identifier);
                let root = &mut self.roots[rr];
                root.id = None;
                proof {
                    let pre = *old(self);
                    let rri = pre.spec_entries()[identifier] as int;
                    assert forall|i: int| 0 <= i < self.spec_scopes().len() implies #[trigger] self
                        .scope_wf_at(i) by {
                        assert(pre.scope_wf_at(i));
                        if pre.spec_scopes()[i].spec_lifecycle().spec_uid() is Some {
                            let rt = pre.spec_scopes()[i].spec_runtime() as int;
                            assert(pre.spec_children(rt).contains(i as usize));
                            if rt != rri {
                                assert(self.spec_roots()[rt] == pre.spec_roots()[rt]);
                            }
                        }
                    }
                    assert forall|r: int| 0 <= r < self.spec_roots().len() implies #[trigger] self
                        .root_wf_at(r) by {
                        assert(pre.root_wf_at(r));
                        assert forall|t: usize| #[trigger]
                            self.spec_roots()[r].spec_children().contains(t) implies t < self
                            .spec_scopes().len() && self.spec_scopes()[t as int].spec_runtime()
                            == r && self.scope_live(t as int) by {
                            assert(pre.spec_children(r).contains(t));
                        }
                        if self.spec_roots()[r].spec_id() is Some && self.spec_roots()[
                            r].spec_plugin() is Some {
                            let q = self.spec_roots()[r].spec_plugin().unwrap();
                            assert(r != rri);
                            assert(self.spec_roots()[r] == pre.spec_roots()[r]);
                            assert(pre.spec_entries().contains_key(q) && pre.spec_entries()[q]
                                == r as usize);
                            assert(q != identifier);
                        }
                    }
                    assert forall|p: u128| #[trigger]
                        self.spec_entries().contains_key(p) implies self.entry_wf_at(p) by {
                        assert(pre.spec_entries().contains_key(p));
                        assert(pre.entry_wf_at(p));
                        let r = pre.spec_entries()[p] as int;
                        if r != rri {
                            assert(self.spec_roots()[r] == pre.spec_roots()[r]);
                        } else {
                            assert(pre.spec_roots()[rri].spec_plugin() == Some(identifier));
                            assert(p == identifier);
                            assert(false);
                        }
                    }
                    assert forall|p: u128| #[trigger]
                        self.spec_entries().contains_key(p) implies !self.spec_children(
                        self.spec_entries()[p] as int,
                    ).is_empty() by {
                        assert(pre.spec_entries().contains_key(p));
                        assert(pre.entry_wf_at(p));
                        let r = pre.spec_entries()[p] as int;
                        assert(r != rri);
                        assert(self.spec_roots()[r] == pre.spec_roots()[r]);
                        assert(!pre.spec_children(r).is_empty());
                    }
                    assert forall|p: u128| #[trigger]
                        self.spec_entries().contains_key(p) && self.spec_roots()[
                        self.spec_entries()[p] as int].spec_alone() implies Self::at_most_one(
                        self.spec_children(self.spec_entries()[p] as int),
                    ) by {
                        assert(pre.spec_entries().contains_key(p));
                        assert(pre.entry_wf_at(p));
                        let r = pre.spec_entries()[p] as int;
                        assert(r != rri);
                        assert(self.spec_roots()[r] == pre.spec_roots()[r]);
                        assert(Self::at_most_one(pre.spec_children(r)));
                    }
                    assert(self.spec_assigned() == pre.spec_assigned());
                    assert(self.spec_counter() == pre.spec_counter());
                    assert forall|i: int| 0 <= i < self.spec_assigned().len() implies #[trigger] self
                        .spec_assigned()[i] < self.spec_counter() by {
                        assert(pre.spec_assigned()[i] < pre.spec_counter());
                    }
                    assert forall|i: int, j: int|
                        #![trigger self.spec_assigned()[i], self.spec_assigned()[j]]
                        0 <= i < j < self.spec_assigned().len() implies self.spec_assigned()[i]
                        < self.spec_assigned()[j] by {
                        assert(pre.spec_assigned()[i] < pre.spec_assigned()[j]);
                    }
                }
                true
            },
        }
    }

    /// Whether the tree root's child set is empty: the condition on which
    /// `run` — the executor's drive-to-completion loop — returns.
    pub fn done(&self) -> (r: bool)
        requires
            self.wf(),
        ensures
            r == self.spec_children(self.spec_root_main() as int).is_empty(),
    {
        set_is_empty(&self.roots[self.root_main].children)
    }

    /// The anonymous tree-root node.
    pub fn runtime(&self) -> (r: &MainScope)
        requires
            self.wf(),
        ensures
            *r == self.spec_roots()[self.spec_root_main() as int],
    {
        &self.roots[self.root_main]
    }

    /// Everything but the effect flags of the scope in slot `s` is as
    /// before.
    pub open spec fn only_scope_flags_changed(pre: Cortex, post: Cortex, s: usize) -> bool {
        &&& post.spec_scopes().len() == pre.spec_scopes().len()
        &&& forall|i: int|
            0 <= i < pre.spec_scopes().len() && i != s as int ==> #[trigger] post.spec_scopes()[i]
                == pre.spec_scopes()[i]
        &&& post.spec_scopes()[s as int].spec_runtime() == pre.spec_scopes()[
            s as int].spec_runtime()
        &&& post.spec_scopes()[s as int].spec_config() == pre.spec_scopes()[
            s as int].spec_config()
        &&& post.spec_scopes()[s as int].spec_lifecycle().spec_uid() == pre.spec_scopes()[
            s as int].spec_lifecycle().spec_uid()
        &&& post.spec_scopes()[s as int].spec_lifecycle().spec_disposed() == pre.spec_scopes()[
            s as int].spec_lifecycle().spec_disposed()
        &&& post.spec_scopes()[s as int].spec_lifecycle().spec_tasker() == pre.spec_scopes()[
            s as int].spec_lifecycle().spec_tasker()
        &&& post.spec_roots() == pre.spec_roots()
        &&& post.spec_entries() == pre.spec_entries()
        &&& post.spec_counter() == pre.spec_counter()
        &&& post.spec_assigned() == pre.spec_assigned()
        &&& post.spec_root_main() == pre.spec_root_main()
        &&& post.spec_root_scope() == pre.spec_root_scope()
    }

    /// The effect of the scope in slot `s` reported success: the scope is
    /// confirmed active, its error slot cleared, its status recomputed —
    /// `Active`, unless the scope was disposed meanwhile.
    pub fn effect_success(&mut self, s: usize)
        requires
            old(self).wf(),
            s < old(self).spec_scopes().len(),
        ensures
            final(self).wf(),
            Self::only_scope_flags_changed(*old(self), *final(self), s),
            final(self).spec_scopes()[s as int].spec_lifecycle().spec_active(),
            final(self).spec_scopes()[s as int].spec_lifecycle().spec_error() is None,
            !old(self).spec_scopes()[s as int].spec_lifecycle().spec_disposed() ==> final(self).spec_status(s as int) == ScopeState::Active,
            old(self).spec_scopes()[s as int].spec_lifecycle().spec_disposed() ==> final(self).spec_status(s as int) == ScopeState::Disposed,
    {
        proof {
            assert(self.scope_wf_at(s as int));
        }
        {
            let sc = &mut self.scopes[s];
            sc.lifecycle.effect_success();
        }
        proof {
            self.lemma_scope_flags_wf(*old(self), s);
        }
    }

    /// The effect of the scope in slot `s` returned an application error: it
    /// is recorded in the error slot and the status recomputed — `Failed`,
    /// unless the scope was disposed meanwhile.  The scope stays registered
    /// in its root's child set; nothing is auto-disposed.
    pub fn effect_failure(&mut self, s: usize, err: Error)
        requires
            old(self).wf(),
            s < old(self).spec_scopes().len(),
        ensures
            final(self).wf(),
            Self::only_scope_flags_changed(*old(self), *final(self), s),
            final(self).spec_scopes()[s as int].spec_lifecycle().spec_error() == Some(err),
            final(self).spec_scopes()[s as int].spec_lifecycle().spec_active() == old(self).spec_scopes()[s as int].spec_lifecycle().spec_active(),
            !old(self).spec_scopes()[s as int].spec_lifecycle().spec_disposed() ==> final(self).spec_status(s as int) == ScopeState::Failed,
            old(self).spec_scopes()[s as int].spec_lifecycle().spec_disposed() ==> final(self).spec_status(s as int) == ScopeState::Disposed,
    {
        proof {
            assert(self.scope_wf_at(s as int));
        }
        {
            let sc = &mut self.scopes[s];
            sc.lifecycle.effect_failure(err);
        }
        proof {
            self.lemma_scope_flags_wf(*old(self), s);
        }
    }

    /// The effect of the scope in slot `s` raised an unrecoverable fault: it
    /// is recorded as such and the status recomputed; the executor re-raises
    /// the fault on the worker that ran the effect.
    pub fn effect_panic(&mut self, s: usize, message: String)
        requires
            old(self).wf(),
            s < old(self).spec_scopes().len(),
        ensures
            final(self).wf(),
            Self::only_scope_flags_changed(*old(self), *final(self), s),
            final(self).spec_scopes()[s as int].spec_lifecycle().spec_error() == Some(
                Error::PnpPanic(message),
            ),
            !old(self).spec_scopes()[s as int].spec_lifecycle().spec_disposed() ==> final(self).spec_status(s as int) == ScopeState::Failed,
            old(self).spec_scopes()[s as int].spec_lifecycle().spec_disposed() ==> final(self).spec_status(s as int) == ScopeState::Disposed,
    {
        proof {
            assert(self.scope_wf_at(s as int));
        }
        {
            let sc = &mut self.scopes[s];
            sc.lifecycle.effect_panic(message);
        }
        proof {
            self.lemma_scope_flags_wf(*old(self), s);
        }
    }

    /// Well-formedness is kept when only the effect flags or the scheduler
    /// of one scope moved and its lifecycle is still well-formed.
    proof fn lemma_scope_flags_wf(&self, pre: Cortex, s: usize)
        requires
            pre.wf(),
            s < pre.spec_scopes().len(),
            self.spec_scopes().len() == pre.spec_scopes().len(),
            forall|i: int|
                0 <= i < pre.spec_scopes().len() && i != s as int ==> #[trigger] self.spec_scopes(
                )[i] == pre.spec_scopes()[i],
            self.spec_scopes()[s as int].spec_lifecycle().wf(),
            self.spec_scopes()[s as int].spec_lifecycle().spec_uid() == pre.spec_scopes()[
                s as int].spec_lifecycle().spec_uid(),
            self.spec_scopes()[s as int].spec_lifecycle().spec_tasker().spec_workers().len()
                == pre.spec_scopes()[s as int].spec_lifecycle().spec_tasker().spec_workers().len(),
            self.spec_scopes()[s as int].spec_runtime() == pre.spec_scopes()[
                s as int].spec_runtime(),
            self.spec_roots() == pre.spec_roots(),
            self.spec_entries() == pre.spec_entries(),
            self.spec_counter() == pre.spec_counter(),
            self.spec_assigned() == pre.spec_assigned(),
            self.spec_root_main() == pre.spec_root_main(),
            self.spec_root_scope() == pre.spec_root_scope(),
        ensures
            self.wf(),
    {
        assert forall|i: int| 0 <= i < self.spec_scopes().len() implies #[trigger] self
            .scope_wf_at(i) by {
            assert(pre.scope_wf_at(i));
        }
        assert forall|r: int| 0 <= r < self.spec_roots().len() implies #[trigger] self.root_wf_at(
            r,
        ) by {
            assert(pre.root_wf_at(r));
            assert forall|t: usize| #[trigger]
                self.spec_roots()[r].spec_children().contains(t) implies t < self.spec_scopes(
            ).len() && self.spec_scopes()[t as int].spec_runtime() == r && self.scope_live(
                t as int,
            ) by {
                assert(pre.spec_children(r).contains(t));
            }
        }
        assert forall|p: u128| #[trigger]
            self.spec_entries().contains_key(p) implies self.entry_wf_at(p) by {
            assert(pre.entry_wf_at(p));
        }
        assert forall|p: u128| #[trigger]
            self.spec_entries().contains_key(p) && self.spec_roots()[
            self.spec_entries()[p] as int].spec_alone() implies Self::at_most_one(
            self.spec_children(self.spec_entries()[p] as int),
        ) by {
            assert(pre.spec_entries().contains_key(p));
            assert(Self::at_most_one(pre.spec_children(pre.spec_entries()[p] as int)));
        }
    }

    /// One turn of the worker attached to the scope in slot `s`: disposal
    /// observed at the start of the turn ends it with nothing taken and the
    /// queue undrained; otherwise the oldest scheduled task is handed back
    /// to the executor, counted as processed.
    pub fn scope_worker_step(&mut self, s: usize) -> (r: Option<Task>)
        requires
            old(self).wf(),
            s < old(self).spec_scopes().len(),
            old(self).spec_scopes()[s as int].spec_lifecycle().spec_tasker().spec_workers()[
                0].spec_processed() < usize::MAX,
        ensures
            final(self).wf(),
            ({
                let pre_t = old(self).spec_scopes()[s as int].spec_lifecycle().spec_tasker();
                let post_t = final(self).spec_scopes()[s as int].spec_lifecycle().spec_tasker();
                &&& post_t.spec_disposed() == pre_t.spec_disposed()
                &&& (pre_t.spec_disposed() ==> r is None && post_t == pre_t)
                &&& (!pre_t.spec_disposed() && pre_t.spec_items().len() == 0 ==> r is None
                    && post_t == pre_t)
                &&& (!pre_t.spec_disposed() && pre_t.spec_items().len() > 0 ==> {
                    &&& r == Some(pre_t.spec_items().first())
                    &&& post_t.spec_items() == pre_t.spec_items().drop_first()
                    &&& post_t.spec_workers().len() == pre_t.spec_workers().len()
                    &&& post_t.spec_workers()[0].spec_processed() == pre_t.spec_workers()[
                        0].spec_processed() + 1
                })
            }),
            Self::only_scope_tasker_changed(*old(self), *final(self), s),
    {
        proof {
            assert(self.scope_wf_at(s as int));
        }
        let r = {
            let sc = &mut self.scopes[s];
            sc.lifecycle.tasker.worker_step(0)
        };
        proof {
            self.lemma_scope_flags_wf(*old(self), s);
        }
        r
    }

    /// Everything but the scheduler of the scope in slot `s` is as before.
    pub open spec fn only_scope_tasker_changed(pre: Cortex, post: Cortex, s: usize) -> bool {
        &&& post.spec_scopes().len() == pre.spec_scopes().len()
        &&& forall|i: int|
            0 <= i < pre.spec_scopes().len() && i != s as int ==> #[trigger] post.spec_scopes()[i]
                == pre.spec_scopes()[i]
        &&& post.spec_scopes()[s as int].spec_runtime() == pre.spec_scopes()[
            s as int].spec_runtime()
        &&& post.spec_scopes()[s as int].spec_config() == pre.spec_scopes()[
            s as int].spec_config()
        &&& post.spec_scopes()[s as int].spec_lifecycle().spec_uid() == pre.spec_scopes()[
            s as int].spec_lifecycle().spec_uid()
        &&& post.spec_scopes()[s as int].spec_lifecycle().spec_disposed() == pre.spec_scopes()[
            s as int].spec_lifecycle().spec_disposed()
        &&& post.spec_scopes()[s as int].spec_lifecycle().spec_active() == pre.spec_scopes()[
            s as int].spec_lifecycle().spec_active()
        &&& post.spec_scopes()[s as int].spec_lifecycle().spec_error() == pre.spec_scopes()[
            s as int].spec_lifecycle().spec_error()
        &&& post.spec_status(s as int) == pre.spec_status(s as int)
        &&& post.spec_roots() == pre.spec_roots()
        &&& post.spec_entries() == pre.spec_entries()
        &&& post.spec_counter() == pre.spec_counter()
        &&& post.spec_assigned() == pre.spec_assigned()
        &&& post.spec_root_main() == pre.spec_root_main()
        &&& post.spec_root_scope() == pre.spec_root_scope()
    }

    /// The status of the scope in slot `s`.
    pub fn status(&self, s: usize) -> (r: ScopeState)
        requires
            self.wf(),
            s < self.spec_scopes().len(),
        ensures
            r == self.spec_status(s as int),
    {
        proof {
            assert(self.scope_wf_at(s as int));
        }
        self.scopes[s].lifecycle.status()
    }

    /// The numeric id of the scope in slot `s`, reading a cleared id as the
    /// largest value.
    pub fn scope_id(&self, s: usize) -> (r: usize)
        requires
            s < self.spec_scopes().len(),
        ensures
            self.spec_scopes()[s as int].spec_lifecycle().spec_uid() is Some ==> r
                == self.spec_scopes()[s as int].spec_lifecycle().spec_uid().unwrap(),
            self.spec_scopes()[s as int].spec_lifecycle().spec_uid() is None ==> r == usize::MAX,
    {
        self.scopes[s].id()
    }

    /// Whether the error slot of the scope in slot `s` is filled.
    pub fn has_error(&self, s: usize) -> (r: bool)
        requires
            s < self.spec_scopes().len(),
        ensures
            r == (self.spec_scopes()[s as int].spec_lifecycle().spec_error() is Some),
    {
        self.scopes[s].lifecycle.status.has_error()
    }

    /// The recorded error of the scope in slot `s`, if any.
    pub fn error_of(&self, s: usize) -> (r: &Option<Error>)
        requires
            s < self.spec_scopes().len(),
        ensures
            *r == self.spec_scopes()[s as int].spec_lifecycle().spec_error(),
    {
        &self.scopes[s].lifecycle.status.error
    }

    /// The root slot registered for a plugin identity, if any.
    pub fn registered(&self, identifier: u128) -> (r: Option<usize>)
        ensures
            r == if self.spec_entries().contains_key(identifier) {
                Some(self.spec_entries()[identifier])
            } else {
                None::<usize>
            },
    {
        self.registry.get(identifier)
    }

    /// Whether the scope in slot `s` is in the child set of the root node in
    /// slot `r`.
    pub fn is_child(&self, r: usize, s: usize) -> (b: bool)
        requires
            r < self.spec_roots().len(),
        ensures
            b == self.spec_children(r as int).contains(s),
    {
        set_contains(&self.roots[r].children, s)
    }

    /// How many children the root node in slot `r` has.
    pub fn child_count(&self, r: usize) -> (n: usize)
        requires
            r < self.spec_roots().len(),
        ensures
            n == self.spec_children(r as int).len(),
    {
        set_len(&self.roots[r].children)
    }

    /// How many scope slots exist (disposed ones included).
    pub fn scope_count(&self) -> (n: usize)
        ensures
            n == self.spec_scopes().len(),
    {
        self.scopes.len()
    }

    /// How many root-node slots exist (disposed ones included).
    pub fn root_count(&self) -> (n: usize)
        ensures
            n == self.spec_roots().len(),
    {
        self.roots.len()
    }

    /// The slot of the root scope.
    pub fn root_scope(&self) -> (r: usize)
        ensures
            r == self.spec_root_scope(),
    {
        self.root_scope
    }

    /// The slot of the anonymous tree-root node.
    pub fn root_main(&self) -> (r: usize)
        ensures
            r == self.spec_root_main(),
    {
        self.root_main
    }

    /// The slot of the root node owning the scope in slot `s`.
    pub fn runtime_of(&self, s: usize) -> (r: usize)
        requires
            s < self.spec_scopes().len(),
        ensures
            r == self.spec_scopes()[s as int].spec_runtime(),
    {
        self.scopes[s].runtime
    }

    /// The token of the configuration payload of the scope in slot `s`.
    pub fn config_of(&self, s: usize) -> (r: u64)
        requires
            s < self.spec_scopes().len(),
        ensures
            r == self.spec_scopes()[s as int].spec_config(),
    {
        self.scopes[s].config
    }

    /// The id the next activation will receive.
    pub fn id_counter(&self) -> (n: usize)
        ensures
            n == self.spec_counter(),
    {
        self.registry.counter_value()
    }

    /// How many tasks are queued on the scheduler of the scope in slot `s`.
    pub fn scope_queue_len(&self, s: usize) -> (n: usize)
        requires
            s < self.spec_scopes().len(),
        ensures
            n == self.spec_scopes()[s as int].spec_lifecycle().spec_tasker().spec_items().len(),
    {
        self.scopes[s].lifecycle.tasker.queue_len()
    }

    /// How many tasks the worker of the scope in slot `s` has processed.
    pub fn scope_processed(&self, s: usize) -> (n: usize)
        requires
            self.wf(),
            s < self.spec_scopes().len(),
        ensures
            n == self.spec_scopes()[s as int].spec_lifecycle().spec_tasker().spec_workers()[
                0].spec_processed(),
    {
        proof {
            assert(self.scope_wf_at(s as int));
        }
        self.scopes[s].lifecycle.tasker.worker_processed(0)
    }
}

/// Law: on one root context, the numeric ids assigned to activations are
/// strictly increasing in assignment order — in particular, no id is ever
/// assigned twice.
pub proof fn lemma_assigned_ids_strictly_increase(c: Cortex)
    requires
        c.wf(),
    ensures
        forall|i: int, j: int|
            #![trigger c.spec_assigned()[i], c.spec_assigned()[j]]
            0 <= i < j < c.spec_assigned().len() ==> c.spec_assigned()[i] < c.spec_assigned()[j],
        forall|i: int, j: int|
            #![trigger c.spec_assigned()[i], c.spec_assigned()[j]]
            0 <= i < j < c.spec_assigned().len() ==> c.spec_assigned()[i] != c.spec_assigned()[j],
{
}

/// Law: activating the same non-singleton plugin identity twice yields two
/// distinct scopes sharing one root node.
pub proof fn lemma_non_singleton_shares_root(
    c0: Cortex,
    c1: Cortex,
    c2: Cortex,
    info1: PluginInfo,
    info2: PluginInfo,
    cfg1: u64,
    cfg2: u64,
    r1: Result<PlugOutcome, CrowdError>,
    r2: Result<PlugOutcome, CrowdError>,
    s1: usize,
    s2: usize,
)
    requires
        c0.wf(),
        c1.wf(),
        Cortex::plug_transition(c0, c1, info1, cfg1, r1),
        Cortex::plug_transition(c1, c2, info2, cfg2, r2),
        info1.identifier == info2.identifier,
        !info1.alone,
        !info2.alone,
        r1 matches Ok(PlugOutcome::Forked(f1)) && f1 == s1,
        r2 matches Ok(PlugOutcome::Forked(f2)) && f2 == s2,
    ensures
        s1 != s2,
        c2.spec_scopes()[s1 as int].spec_runtime() == c2.spec_scopes()[s2 as int].spec_runtime(),
{
    let p = info1.identifier;
    if c0.spec_entries().contains_key(p) {
        assert(c1.spec_entries()[p] == c0.spec_entries()[p]);
    }
    assert(c1.spec_entries().contains_key(p));
    assert(c1.spec_scopes()[s1 as int].spec_runtime() == c1.spec_entries()[p]);
    assert(!c1.spec_roots()[c1.spec_entries()[p] as int].spec_alone());
    assert(s2 == c1.spec_scopes().len());
    assert(c2.spec_scopes()[s1 as int] == c1.spec_scopes()[s1 as int]);
    assert(c2.spec_scopes()[s2 as int].spec_runtime() == c1.spec_entries()[p]);
}

/// Law: disposal is idempotent.  A second disposal of the same scope finds
/// it absent from its root's child set and leaves it `Disposed`.
pub proof fn lemma_dispose_idempotent(
    c0: Cortex,
    c1: Cortex,
    c2: Cortex,
    s: usize,
    w1: bool,
    w2: bool,
)
    requires
        s < c0.spec_scopes().len(),
        Cortex::dispose_scope_transition(c0, c1, s, w1),
        Cortex::dispose_scope_transition(c1, c2, s, w2),
    ensures
        !w2,
        c2.spec_status(s as int) == ScopeState::Disposed,
{
}

/// Law: when a disposal empties the child set of a plugin-owned root node,
/// the registry entry is gone, and the next activation of that identity
/// creates a fresh root node whose id is newly assigned.
pub proof fn lemma_eviction_then_fresh_root(
    c0: Cortex,
    c1: Cortex,
    c2: Cortex,
    s: usize,
    was: bool,
    info: PluginInfo,
    cfg: u64,
    r: Result<PlugOutcome, CrowdError>,
    s2: usize,
)
    requires
        c0.wf(),
        c1.wf(),
        s < c0.spec_scopes().len(),
        Cortex::dispose_scope_transition(c0, c1, s, was),
        was,
        c0.spec_roots()[c0.spec_scopes()[s as int].spec_runtime() as int].spec_plugin() == Some(
            info.identifier,
        ),
        c0.spec_roots()[c0.spec_scopes()[s as int].spec_runtime() as int].spec_id() is Some,
        c0.spec_children(c0.spec_scopes()[s as int].spec_runtime() as int).remove(s).is_empty(),
        Cortex::plug_transition(c1, c2, info, cfg, r),
        r matches Ok(PlugOutcome::Forked(f)) && f == s2,
    ensures
        !c1.spec_entries().contains_key(info.identifier),
        c2.spec_scopes()[s2 as int].spec_runtime() == c1.spec_roots().len(),
        c2.spec_roots()[c2.spec_scopes()[s2 as int].spec_runtime() as int].spec_id() == Some(
            c1.spec_counter(),
        ),
{
}

} // verus!
