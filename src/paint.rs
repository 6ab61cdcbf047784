//! Drawing parameters that carry no geometry.

use vstd::prelude::*;

verus! {

/// Size class of drawn text.
#[derive(Clone, Copy, PartialEq, Eq, Structural)]
pub enum TextSize {
    Small,
    Normal,
    Large,
}

/// Number of text size classes.
pub const NUM_TEXT_SIZES: usize = 3;

impl TextSize {
    /// Index of this size class in tables ordered from small to large.
    pub fn i(&self) -> (r: usize)
        ensures
            r < NUM_TEXT_SIZES,
            r == match *self {
                TextSize::Small => 0usize,
                TextSize::Normal => 1usize,
                TextSize::Large => 2usize,
            },
    {
        match self {
            TextSize::Small => 0,
            TextSize::Normal => 1,
            TextSize::Large => 2,
        }
    }
}

} // verus!
