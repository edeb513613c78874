//! The hot-update side of the pluggable capability: whether new
//! configuration can be applied to a running scope in place, or only by
//! restarting the scope.  The serialized follow-up that a singleton
//! activation turns into (see `context::PlugOutcome::Serialized`) carries
//! its answer in this type.

use vstd::prelude::*;

verus! {

/// The outcome of applying new configuration to a running scope.
#[derive(Copy, Clone, PartialEq, Eq, Structural, Debug)]
pub enum Hot {
    /// The update cannot be applied in place: the scope must restart.
    ToRestart,
    /// The update was applied in place.
    Updated,
}

impl Hot {
    /// Whether the configuration update forces a full restart of the scope.
    pub fn requires_restart(&self) -> (r: bool)
        ensures
            r == (self is ToRestart),
    {
        matches!(self, Hot::ToRestart)
    }
}

} // verus!
