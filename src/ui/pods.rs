use std::marker::PhantomData;
use vstd::prelude::*;

verus! {

/// Holds a widget that works on data of type `T`.
pub struct WidgetPod<T, W> {
    pub widget: W,
    _phantom: PhantomData<T>,
}

impl<T, W> View for WidgetPod<T, W> {
    /// The widget held.
    type V = W;

    closed spec fn view(&self) -> W {
        self.widget
    }
}

impl<T, W> WidgetPod<T, W> {
    pub fn new(widget: W) -> (r: Self)
        ensures
            r@ == widget,
    {
        WidgetPod { widget, _phantom: PhantomData }
    }
}

} // verus!
