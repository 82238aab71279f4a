use vstd::prelude::*;

verus! {

/// The per-frame keyboard handling of the front end.
pub struct InputManager;

impl InputManager {
    /// The input manager.
    pub fn new() -> (r: InputManager)
        ensures
            r == InputManager,
    {
        InputManager
    }
}

} // verus!
