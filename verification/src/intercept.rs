//! Whether library calls are intercepted.

use vstd::prelude::*;

verus! {

/// Whether the library calls of a thread are intercepted. Those of other threads (e.g. any thread
/// doing real io) are unaffected.
#[derive(Debug, Clone, Copy, PartialEq, Eq, Structural)]
pub struct Intercepts {
    /// Library calls are intercepted.
    pub enabled: bool,
}

/// Keeps intercepts enabled until it is released.
pub struct InterceptsGuard(pub ());

/// Keeps intercepts disabled until it is released, and holds what they were set to before.
#[derive(Debug, Clone, Copy, PartialEq, Eq, Structural)]
pub struct InterceptsRestoreGuard(pub bool);

impl Intercepts {
    /// Intercepts are off until they are enabled.
    pub fn new() -> (r: Intercepts)
        ensures
            !r.enabled,
    {
        Intercepts { enabled: false }
    }

    /// Enables or disables intercepts.
    pub fn enable_intercepts(&mut self, e: bool)
        ensures
            final(self).enabled == e,
    {
        self.enabled = e;
    }

    /// Whether library calls are intercepted.
    pub fn intercepts_enabled(&self) -> (r: bool)
        ensures
            r == self.enabled,
    {
        self.enabled
    }

    /// Enables intercepts until the guard is released.
    pub fn enable_intercepts_scoped(&mut self) -> (r: InterceptsGuard)
        ensures
            final(self).enabled,
    {
        self.enable_intercepts(true);
        InterceptsGuard(())
    }

    /// Releases a guard: intercepts are off from now on.
    pub fn release(&mut self, guard: InterceptsGuard)
        ensures
            !final(self).enabled,
    {
        self.enable_intercepts(false);
    }

    /// Disables intercepts until the guard is released.
    pub fn disable_intercepts_scoped(&mut self) -> (r: InterceptsRestoreGuard)
        ensures
            !final(self).enabled,
            r.0 == old(self).enabled,
    {
        let previous: bool = self.intercepts_enabled();
        self.enable_intercepts(false);
        InterceptsRestoreGuard(previous)
    }

    /// Releases a guard: intercepts are what they were before it was made.
    pub fn restore(&mut self, guard: InterceptsRestoreGuard)
        ensures
            final(self).enabled == guard.0,
    {
        self.enable_intercepts(guard.0);
    }
}

} // verus!
