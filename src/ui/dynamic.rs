use crate::ui::pods::WidgetPod;
use vstd::prelude::*;

verus! {

/// Wraps a widget and notices when the data it shows changes.
pub struct Watch<T, W> {
    inner: WidgetPod<T, W>,
    copy: Option<T>,
}

impl<T, W> View for Watch<T, W> {
    /// The widget, and the copy of the data last seen.
    type V = (W, Option<T>);

    closed spec fn view(&self) -> (W, Option<T>) {
        (self.inner@, self.copy)
    }
}

impl<T: Clone + PartialEq, W> Watch<T, W> {
    /// Watches `widget`, which has seen no data yet.
    pub fn new(widget: W) -> (r: Self)
        ensures
            r@ == (widget, None::<T>),
    {
        Watch { inner: WidgetPod::new(widget), copy: None }
    }

    /// Whether `data` differs from the copy last seen; a new copy is then kept. Data is
    /// new when no copy was seen yet.
    pub fn update(&mut self, data: &T) -> (r: bool)
        ensures
            old(self)@.1 is None ==> r,
            r ==> final(self)@.0 == old(self)@.0,
            r ==> (final(self)@.1 matches Some(c) && cloned(*data, c)),
            !r ==> final(self)@ == old(self)@,
    {
        let changed = match &self.copy {
            None => true,
            Some(copy) => *data != *copy,
        };
        if changed {
            self.copy = Some(data.clone());
        }
        changed
    }
}

/// What a dynamic widget shows next.
pub enum DynamicContent<W> {
    Keep,
    Show(W),
    Hide,
}

} // verus!
