//! A minimal abstraction for an addressable 2D grid of colored cells,
//! such as the LED button matrix of a hardware controller.
//!
//! The heart of the crate is the [`Canvas`] capability contract: geometry,
//! a validity predicate over coordinates, raw unchecked accessors and a
//! flush operation. On top of it stand a bounds-checked facade and a lazy
//! traversal that enumerates exactly the valid cells of the (possibly
//! non-rectangular) bounding box, in row-major order, as pre-validated
//! [`CanvasButton`] handles.

mod canvas;
mod color;
mod grids;
mod iterator;

pub use canvas::Canvas;
pub use canvas::flush_effect;
pub use canvas::lemma_flush_commits;
pub use canvas::lemma_is_valid_deterministic;
pub use canvas::lemma_out_of_bounds_invalid;
pub use canvas::lemma_set_then_get;
pub use canvas::set_effect;
pub use canvas::OutOfBounds;
pub use color::Color;
pub use grids::DiamondGrid;
pub use grids::OfflineGrid;
pub use grids::RectGrid;
pub use iterator::all_coords;
pub use iterator::iter;
pub use iterator::coords_from;
pub use iterator::lemma_empty_box_yields_nothing;
pub use iterator::lemma_full_grid_traversal;
pub use iterator::lemma_traversal_order;
pub use iterator::lemma_traversal_skips_invalid;
pub use iterator::row_major_le;
pub use iterator::row_major_lt;
pub use iterator::step;
pub use iterator::CanvasButton;
pub use iterator::CanvasIterator;
