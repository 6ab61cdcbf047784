use crate::ui::layout::Empty;
use crate::ui::pods::WidgetPod;
use std::marker::PhantomData;
use vstd::prelude::*;

verus! {

/// Shows `some` on the content of a `Some`, and `none` otherwise.
pub struct Maybe<T, W1, W2> {
    some: WidgetPod<T, W1>,
    none: W2,
}

impl<T, W1, W2> View for Maybe<T, W1, W2> {
    /// The widget for a value, and the one for none.
    type V = (W1, W2);

    closed spec fn view(&self) -> (W1, W2) {
        (self.some@, self.none)
    }
}

impl<T, W1, W2> Maybe<T, W1, W2> {
    pub fn new(some: W1, none: W2) -> (r: Self)
        ensures
            r@ == (some, none),
    {
        Maybe { some: WidgetPod::new(some), none }
    }
}

impl<T, W1> Maybe<T, W1, Empty<()>> {
    /// Shows nothing when there is no value.
    pub fn new_empty(widget: W1) -> (r: Self)
        ensures
            r@.0 == widget,
    {
        Maybe { some: WidgetPod::new(widget), none: Empty::new() }
    }
}

/// A widget that keeps its own data and ignores the data it is given.
pub struct Owning<U, T, W> {
    inner: WidgetPod<T, W>,
    data: T,
    _phantom: PhantomData<U>,
}

impl<U, T, W> View for Owning<U, T, W> {
    /// The widget, and the data it owns.
    type V = (W, T);

    closed spec fn view(&self) -> (W, T) {
        (self.inner@, self.data)
    }
}

impl<U, T, W> Owning<U, T, W> {
    pub fn new(widget: W, data: T) -> (r: Self)
        ensures
            r@ == (widget, data),
    {
        Owning { inner: WidgetPod::new(widget), data, _phantom: PhantomData }
    }
}

} // verus!
