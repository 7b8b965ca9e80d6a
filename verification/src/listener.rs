//! A one-way latch that records whether any of a series of inputs changed.

use vstd::prelude::*;

verus! {

/// Collects change notifications: once any of them is `true`, it stays set.
pub struct Listerner {
    changed: bool,
}

impl Listerner {
    /// Whether a change has been recorded so far.
    pub closed spec fn view(&self) -> bool {
        self.changed
    }

    /// A listener that has seen no change.
    pub fn new() -> (listener: Self)
        ensures
            !listener@,
    {
        Self { changed: false }
    }

    /// Whether any notification added so far reported a change.
    pub fn changed(&self) -> (seen: bool)
        ensures
            seen == self@,
    {
        self.changed
    }
}

impl core::ops::AddAssign<bool> for Listerner {
    /// Records `rhs`: the listener is set afterwards exactly if it was set
    /// before or `rhs` reports a change.
    fn add_assign(&mut self, rhs: bool)
        ensures
            final(self)@ == (old(self)@ || rhs),
    {
        self.changed = self.changed || rhs;
    }
}

} // verus!
