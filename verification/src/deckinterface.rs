//! The event a device reports when one of its buttons changes.

use vstd::prelude::*;

verus! {

/// Whether a button is held down or has been let go.
#[derive(Debug, Clone, Copy, PartialEq, Eq, Hash, Structural)]
pub enum ButtonState {
    Pressed,
    Released,
}

/// One button of one device changing its state.
#[derive(Debug, Clone, Copy, PartialEq, Eq, Hash, Structural)]
pub struct ButtonChange {
    pub btn: usize,
    pub state: ButtonState,
}

impl ButtonChange {
    pub fn new(btn: usize, state: ButtonState) -> (change: Self)
        ensures
            change.btn == btn,
            change.state == state,
    {
        Self { btn, state }
    }
}

} // verus!
