//! A lazily-recomputed cached value.
//!
//! The cell holds a value slot together with a small state machine:
//! `Uninit` (no value yet), `Updating` (a caller is recomputing) and
//! `Initialized` (a value is cached).  A recomputation is one transition:
//! the caller that finds the cell at rest wins it, runs the updater with the
//! previous value (or none) and stores the result; a caller that finds the
//! cell mid-transition changes nothing and runs nothing.  `Updating` is
//! transient: it is never a rest state between public operations.
//!
//! Reading the slot before the first completed update is a contract
//! violation, not undefined behaviour: `get` requires `Initialized`.

use vstd::prelude::*;

verus! {

pub const UNINIT: u32 = 0;
pub const INITIALIZED: u32 = 1;
pub const UPDATING: u32 = 2;

/// The rest-or-transition state of a [`LazyUpdate`] cell.
#[derive(Copy, Clone, PartialEq, Eq, Structural, Debug)]
pub enum LazyState {
    Uninit,
    Initialized,
    Updating,
}

/// Decodes the packed numeric representation of a [`LazyState`].
pub fn u32_to_state(v: u32) -> (s: LazyState)
    requires
        v == UNINIT || v == INITIALIZED || v == UPDATING,
    ensures
        v == UNINIT ==> s == LazyState::Uninit,
        v == INITIALIZED ==> s == LazyState::Initialized,
        v == UPDATING ==> s == LazyState::Updating,
{
    if v == UNINIT {
        LazyState::Uninit
    } else if v == INITIALIZED {
        LazyState::Initialized
    } else {
        LazyState::Updating
    }
}

/// A value slot recomputed on demand by an updater function.
pub struct LazyUpdate<T> {
    state: LazyState,
    value: Option<T>,
}

impl<T> LazyUpdate<T> {
    /// The cell's current protocol state.
    pub closed spec fn spec_state(self) -> LazyState {
        self.state
    }

    /// The cached value, if any.
    pub closed spec fn spec_value(self) -> Option<T> {
        self.value
    }

    /// The value slot is filled from the first completed update on.
    pub open spec fn inv(self) -> bool {
        self.spec_state() == LazyState::Initialized ==> self.spec_value() is Some
    }

    /// One attempt to open a recomputation: the caller wins exactly when the
    /// cell is at rest; a loser leaves the cell untouched.
    pub open spec fn begin_transition(pre: Self, post: Self, won: bool) -> bool {
        &&& won == (pre.spec_state() != LazyState::Updating)
        &&& won ==> post.spec_state() == LazyState::Updating && post.spec_value()
            == pre.spec_value()
        &&& !won ==> post == pre
    }

    /// A fresh cell: no value, never updated.
    pub fn new() -> (r: Self)
        ensures
            r.spec_state() == LazyState::Uninit,
            r.spec_value() is None,
            r.inv(),
    {
        LazyUpdate { state: LazyState::Uninit, value: None }
    }

    /// The current protocol state.
    pub fn state(&self) -> (s: LazyState)
        ensures
            s == self.spec_state(),
    {
        self.state
    }

    /// Tries to open a recomputation; returns whether this caller won it.
    pub fn begin_update(&mut self) -> (won: bool)
        ensures
            Self::begin_transition(*old(self), *final(self), won),
            old(self).inv() ==> final(self).inv(),
    {
        match self.state {
            LazyState::Updating => false,
            _ => {
                self.state = LazyState::Updating;
                true
            },
        }
    }

    /// Closes the recomputation opened by a winning [`Self::begin_update`],
    /// storing the updater's result.
    pub fn finish_update(&mut self, v: T)
        requires
            old(self).spec_state() == LazyState::Updating,
        ensures
            final(self).spec_state() == LazyState::Initialized,
            final(self).spec_value() == Some(v),
            final(self).inv(),
    {
        self.state = LazyState::Initialized;
        self.value = Some(v);
    }

    /// Recomputes the cached value: if the cell is at rest, runs `updater`
    /// on the previous value (or none) and stores the result; if a
    /// recomputation is already open, changes nothing.  Returns whether the
    /// updater ran.
    pub fn update<F: FnOnce(Option<T>) -> T>(&mut self, updater: F) -> (ran: bool)
        requires
            old(self).inv(),
            old(self).spec_state() != LazyState::Updating ==> call_requires(
                updater,
                (old(self).spec_value(),),
            ),
        ensures
            final(self).inv(),
            ran == (old(self).spec_state() != LazyState::Updating),
            !ran ==> *final(self) == *old(self),
            ran ==> final(self).spec_state() == LazyState::Initialized
                && final(self).spec_value() is Some && call_ensures(
                updater,
                (old(self).spec_value(),),
                final(self).spec_value().unwrap(),
            ),
    {
        if self.begin_update() {
            let prev = self.value.take();
            let v = updater(prev);
            self.finish_update(v);
            true
        } else {
            false
        }
    }

    /// Computes the value only if it was never computed: runs `updater` on
    /// no previous value when the cell is `Uninit`, and otherwise changes
    /// nothing.  Returns whether the updater ran.
    pub fn force<F: FnOnce(Option<T>) -> T>(&mut self, updater: F) -> (ran: bool)
        requires
            old(self).inv(),
            old(self).spec_state() == LazyState::Uninit ==> call_requires(
                updater,
                (None::<T>,),
            ),
        ensures
            final(self).inv(),
            ran == (old(self).spec_state() == LazyState::Uninit),
            !ran ==> *final(self) == *old(self),
            ran ==> final(self).spec_state() == LazyState::Initialized
                && final(self).spec_value() is Some && call_ensures(
                updater,
                (None::<T>,),
                final(self).spec_value().unwrap(),
            ),
    {
        match self.state {
            LazyState::Uninit => {
                self.state = LazyState::Updating;
                let v = updater(None);
                self.finish_update(v);
                true
            },
            _ => false,
        }
    }

    /// The cached value.  Calling this before the first completed update is
    /// ruled out by the precondition.
    pub fn get(&self) -> (r: &T)
        requires
            self.inv(),
            self.spec_state() == LazyState::Initialized,
        ensures
            Some(*r) == self.spec_value(),
    {
        match &self.value {
            Some(v) => v,
            None => vstd::pervasive::unreached(),
        }
    }
}

/// Law: the updater runs exactly once per state transition.  Once one caller
/// has won a recomputation, every caller that arrives before the winner
/// finishes loses: it neither runs the updater nor changes the cell.
pub proof fn lemma_updater_single_winner<T>(
    s0: LazyUpdate<T>,
    s1: LazyUpdate<T>,
    s2: LazyUpdate<T>,
    won1: bool,
    won2: bool,
)
    requires
        LazyUpdate::begin_transition(s0, s1, won1),
        won1,
        LazyUpdate::begin_transition(s1, s2, won2),
    ensures
        !won2,
        s2 == s1,
{
}

} // verus!
