use crate::ui::event::MouseButton;
use vstd::prelude::*;

verus! {

/// How the pointer relates to a widget.
#[derive(Clone, Copy, PartialEq, Eq, Structural)]
pub enum WidgetState {
    Cold,
    Hot,
    Hover,
}

/// What a responsive widget reports for one frame.
pub struct ResponseState {
    pub state: WidgetState,
    pub clicked: Option<MouseButton>,
}

impl ResponseState {
    /// Cold and not clicked.
    pub fn new() -> (r: Self)
        ensures
            r.state == WidgetState::Cold,
            r.clicked is None,
    {
        ResponseState { state: WidgetState::Cold, clicked: None }
    }
}

} // verus!
