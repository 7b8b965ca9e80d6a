//! When a rendering pass starts: at most one pass is in flight, and a request
//! that arrives while one is running is dropped, not queued.

use vstd::prelude::*;

verus! {

/// What to do with the latest state of the controls.
#[derive(Clone, Copy, Debug, PartialEq, Eq, Structural)]
pub enum Action {
    /// Nothing changed, or there is no image to render.
    Nothing,
    /// A pass is in flight: show that work is going on and start nothing.
    Wait,
    /// Start a rendering pass.
    Render,
}

/// Decides on a frame. `changed` says whether any control changed,
/// `in_flight` whether a pass is running, `loaded` whether an image is there.
pub fn decide(changed: bool, in_flight: bool, loaded: bool) -> (action: Action)
    ensures
        action == Action::Render <==> changed && !in_flight && loaded,
        action == Action::Wait <==> changed && in_flight,
        action == Action::Nothing <==> !changed || (!in_flight && !loaded),
{
    if !changed {
        Action::Nothing
    } else if in_flight {
        Action::Wait
    } else if loaded {
        Action::Render
    } else {
        Action::Nothing
    }
}

} // verus!
