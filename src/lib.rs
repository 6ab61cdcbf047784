//! Verified building blocks of a small graphics and UI toolkit.
//!
//! - [`thread`]: bookkeeping of a bounded background task pool: generation-tagged
//!   result slots with a free list, a FIFO task queue, and a per-worker state
//!   machine, with the laws that make stale handles harmless.
//! - [`image`], [`jpg`]: bringing decoded samples into grey, RGBA or BGRA layout,
//!   and extracting single channels.
//! - [`io`]: a `Read + Seek` cursor over a byte slice.
//! - [`paint`], [`ui`]: drawing and widget-tree pieces that carry no geometry.

pub mod image;
pub mod io;
pub mod jpg;
pub mod paint;
pub mod thread;
pub mod ui;
