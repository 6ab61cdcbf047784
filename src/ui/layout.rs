use std::marker::PhantomData;
use vstd::prelude::*;

verus! {

/// Where a widget sits along one axis of the space it is given.
#[derive(Clone, Copy, PartialEq, Eq, Structural)]
pub enum LayoutAlign {
    Front,
    Center,
    Back,
    Fill,
    FillPadding,
}

/// A widget that shows nothing and takes no space.
pub struct Empty<T> {
    _phantom: PhantomData<T>,
}

impl<T> Empty<T> {
    pub fn new() -> (r: Self) {
        Empty { _phantom: PhantomData }
    }
}

} // verus!
