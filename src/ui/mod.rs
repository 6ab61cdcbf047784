//! Widget-tree plumbing that carries no geometry: input vocabulary, interaction
//! state, alignment choices, lenses into the data, and the containers that hold
//! widgets.

pub mod dynamic;
pub mod event;
pub mod interact;
pub mod layout;
pub mod lens;
pub mod pods;
pub mod widget;

use vstd::prelude::*;

verus! {

/// Handle of a top-level widget: its position among the widgets added.
pub struct UiKey(pub usize);

/// What an event handler may ask of the surrounding UI.
pub struct EventCtx<'a> {
    update_requested: &'a mut bool,
}

impl<'a> View for EventCtx<'a> {
    /// Whether an update has been asked for.
    type V = bool;

    closed spec fn view(&self) -> bool {
        *self.update_requested
    }
}

impl<'a> EventCtx<'a> {
    /// A context that records requests in `update_requested`.
    pub fn new(update_requested: &'a mut bool) -> (r: Self)
        ensures
            r@ == *old(update_requested),
    {
        EventCtx { update_requested }
    }

    /// Asks for the widgets to be laid out and painted again.
    pub fn request_update(&mut self)
        ensures
            final(self)@,
    {
        *self.update_requested = true;
    }
}

} // verus!
