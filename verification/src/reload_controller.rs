//! The versioned invalidation signal.

use vstd::prelude::*;

verus! {

/// A counter that only grows.  Every fetch is tagged with the version under which it was
/// started; a result whose tag is no longer the current version is stale.
#[derive(Debug)]
pub struct ReloadController {
    version: u64,
}

impl ReloadController {
    /// The current version.
    pub closed spec fn version(&self) -> u64 {
        self.version
    }

    /// A controller at version zero.
    pub fn new() -> (c: ReloadController)
        ensures
            c.version() == 0,
    {
        ReloadController { version: 0 }
    }

    /// The current version.
    pub fn current_version(&self) -> (v: u64)
        ensures
            v == self.version(),
    {
        self.version
    }

    /// Whether the counter can still advance.
    pub fn can_invalidate(&self) -> (ok: bool)
        ensures
            ok == (self.version() < u64::MAX),
    {
        self.version < u64::MAX
    }

    /// Advances the version by one, which makes every fetch started before stale.
    pub fn invalidate(&mut self)
        requires
            old(self).version() < u64::MAX,
        ensures
            final(self).version() == old(self).version() + 1,
    {
        self.version = self.version + 1;
    }

    /// Whether a result tagged with `version` is stale.
    pub fn is_stale(&self, version: u64) -> (stale: bool)
        ensures
            stale == (version != self.version()),
    {
        version != self.version
    }
}

} // verus!
