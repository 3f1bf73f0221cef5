use vstd::prelude::*;

use crate::color::Color;

verus! {

/// The error type of the flush operation.
///
/// Relies on `anyhow::Error` (declared opaque): the grid core never looks
/// inside a transport error, it only hands it back to the caller.
#[verifier::external_type_specification]
#[verifier::external_body]
pub struct ExAnyhowError(anyhow::Error);

/// The error a facade operation returns when it is handed a coordinate for
/// which `is_valid` does not hold: a contract violation, reported instead of
/// reaching the unchecked primitives.
#[derive(Clone, Copy, Debug, PartialEq, Eq, Structural)]
pub struct OutOfBounds {
    /// The offending column.
    pub x: u32,
    /// The offending row.
    pub y: u32,
}

/// How a write through `set_unchecked` relates the grid state after the call
/// (`post`) to the state before it (`pre`): the pending color at `(x, y)` is
/// now `color`, every other valid cell keeps its pending color, and no
/// flushed color moves.
pub open spec fn set_effect<C: Canvas>(pre: C, post: C, x: u32, y: u32, color: Color) -> bool {
    &&& post.spec_current(x, y) == color
    &&& forall|i: u32, j: u32|
        C::spec_is_valid(i, j) && !(i == x && j == y) ==> #[trigger] post.spec_current(i, j)
            == pre.spec_current(i, j)
    &&& forall|i: u32, j: u32|
        C::spec_is_valid(i, j) ==> #[trigger] post.spec_flushed(i, j) == pre.spec_flushed(i, j)
}

/// How a successful flush relates the grid state after the call (`post`) to
/// the state before it (`pre`): every valid cell's flushed color becomes its
/// pending color, and the pending colors stay as they were.
pub open spec fn flush_effect<C: Canvas>(pre: C, post: C) -> bool {
    &&& forall|i: u32, j: u32|
        C::spec_is_valid(i, j) ==> #[trigger] post.spec_flushed(i, j) == pre.spec_current(i, j)
    &&& forall|i: u32, j: u32|
        C::spec_is_valid(i, j) ==> #[trigger] post.spec_current(i, j) == pre.spec_current(i, j)
}

/// The capability contract of an addressable 2D grid of colored cells.
///
/// A concrete grid type fixes its bounding box and its validity predicate at
/// the type level, provides raw unchecked accessors over two layers of color
/// state (the pending layer written by `set_unchecked`, and the flushed layer
/// last committed to the device), and a `flush` that commits the pending
/// layer. The checked facade (`set`, `get`, `get_old`) comes for free; a
/// traversal of the grid type starts at `iter` (or `CanvasIterator::new`).
pub trait Canvas: Sized {
    /// The width of the bounding box, fixed per grid type.
    spec fn spec_width() -> u32;

    /// The height of the bounding box, fixed per grid type.
    spec fn spec_height() -> u32;

    /// The validity predicate, fixed per grid type: which coordinates of the
    /// bounding box are real cells. Being a spec function, it is pure and
    /// deterministic by construction.
    spec fn spec_is_valid(x: u32, y: u32) -> bool;

    /// The pending color at a valid coordinate: what the last write through
    /// `set_unchecked` left there (reads see their own writes).
    spec fn spec_current(&self, x: u32, y: u32) -> Color;

    /// The flushed color at a valid coordinate: what the last successful
    /// `flush` committed there, unaffected by later pending writes.
    spec fn spec_flushed(&self, x: u32, y: u32) -> Color;

    /// The boundary law every grid type must prove: a valid coordinate lies
    /// inside the bounding box.
    proof fn lemma_valid_in_bounds(x: u32, y: u32)
        ensures
            Self::spec_is_valid(x, y) ==> x < Self::spec_width() && y < Self::spec_height(),
    ;

    /// Returns the width of the bounding box.
    fn bounding_box_width() -> (w: u32)
        ensures
            w == Self::spec_width(),
    ;

    /// Returns the height of the bounding box.
    fn bounding_box_height() -> (h: u32)
        ensures
            h == Self::spec_height(),
    ;

    /// Checks whether the location is a real cell of this grid type.
    fn is_valid(x: u32, y: u32) -> (r: bool)
        ensures
            r == Self::spec_is_valid(x, y),
    ;

    /// Retrieves the pending color at the given location. No bounds checking:
    /// the coordinate must be valid.
    fn get_unchecked(&self, x: u32, y: u32) -> (c: Color)
        requires
            Self::spec_is_valid(x, y),
        ensures
            c == self.spec_current(x, y),
    ;

    /// Sets the pending color at the given location. No bounds checking: the
    /// coordinate must be valid. Every other valid cell keeps its pending
    /// color, and no flushed color moves.
    fn set_unchecked(&mut self, x: u32, y: u32, color: Color)
        requires
            Self::spec_is_valid(x, y),
        ensures
            final(self).spec_current(x, y) == color,
            forall|i: u32, j: u32|
                Self::spec_is_valid(i, j) && !(i == x && j == y) ==> #[trigger] final(self).spec_current(i, j) == old(self).spec_current(i, j),
            forall|i: u32, j: u32|
                Self::spec_is_valid(i, j) ==> #[trigger] final(self).spec_flushed(i, j) == old(self).spec_flushed(i, j),
    ;

    /// Retrieves the flushed color at the given location, independent of any
    /// pending write. No bounds checking: the coordinate must be valid.
    fn get_old_unchecked(&self, x: u32, y: u32) -> (c: Color)
        requires
            Self::spec_is_valid(x, y),
        ensures
            c == self.spec_flushed(x, y),
    ;

    /// Commits all pending writes to the underlying device. On success every
    /// valid cell's flushed color equals its pending color; on failure the
    /// transport error is surfaced to the caller, never swallowed.
    fn flush(&mut self) -> (r: Result<(), anyhow::Error>)
        ensures
            r is Ok ==> forall|i: u32, j: u32|
                Self::spec_is_valid(i, j) ==> #[trigger] final(self).spec_flushed(i, j) == old(self).spec_current(i, j),
            r is Ok ==> forall|i: u32, j: u32|
                Self::spec_is_valid(i, j) ==> #[trigger] final(self).spec_current(i, j) == old(self).spec_current(i, j),
    ;

    /// Sets the color at the given location, checking validity first: an
    /// invalid coordinate is rejected as a contract violation and the grid
    /// is left untouched.
    fn set(&mut self, x: u32, y: u32, color: Color) -> (r: Result<(), OutOfBounds>)
        ensures
            r is Ok <==> Self::spec_is_valid(x, y),
            Self::spec_is_valid(x, y) ==> final(self).spec_current(x, y) == color,
            forall|i: u32, j: u32|
                Self::spec_is_valid(i, j) && !(i == x && j == y) ==> #[trigger] final(self).spec_current(i, j) == old(self).spec_current(i, j),
            forall|i: u32, j: u32|
                Self::spec_is_valid(i, j) ==> #[trigger] final(self).spec_flushed(i, j) == old(self).spec_flushed(i, j),
            !Self::spec_is_valid(x, y) ==> *final(self) == *old(self) && r == Err::<(),
                OutOfBounds,
            >(OutOfBounds { x, y }),
    {
        if !Self::is_valid(x, y) {
            return Err(OutOfBounds { x, y });
        }
        self.set_unchecked(x, y, color);
        Ok(())
    }

    /// Retrieves the pending color at the given location, checking validity
    /// first: an invalid coordinate is rejected as a contract violation.
    fn get(&self, x: u32, y: u32) -> (r: Result<Color, OutOfBounds>)
        ensures
            r is Ok <==> Self::spec_is_valid(x, y),
            Self::spec_is_valid(x, y) ==> r == Ok::<Color, OutOfBounds>(self.spec_current(x, y)),
            !Self::spec_is_valid(x, y) ==> r == Err::<Color, OutOfBounds>(OutOfBounds { x, y }),
    {
        if !Self::is_valid(x, y) {
            return Err(OutOfBounds { x, y });
        }
        Ok(self.get_unchecked(x, y))
    }

    /// Retrieves the flushed color at the given location, checking validity
    /// first: an invalid coordinate is rejected as a contract violation.
    fn get_old(&self, x: u32, y: u32) -> (r: Result<Color, OutOfBounds>)
        ensures
            r is Ok <==> Self::spec_is_valid(x, y),
            Self::spec_is_valid(x, y) ==> r == Ok::<Color, OutOfBounds>(self.spec_flushed(x, y)),
            !Self::spec_is_valid(x, y) ==> r == Err::<Color, OutOfBounds>(OutOfBounds { x, y }),
    {
        if !Self::is_valid(x, y) {
            return Err(OutOfBounds { x, y });
        }
        Ok(self.get_old_unchecked(x, y))
    }

}

/// Law: `is_valid` is deterministic and stable across repeated calls — any
/// two results that meet its contract on the same coordinate are equal.
pub proof fn lemma_is_valid_deterministic<C: Canvas>(x: u32, y: u32, r1: bool, r2: bool)
    requires
        r1 == C::spec_is_valid(x, y),
        r2 == C::spec_is_valid(x, y),
    ensures
        r1 == r2,
{
}

/// Law: `is_valid` is false on every coordinate outside the bounding box.
pub proof fn lemma_out_of_bounds_invalid<C: Canvas>(x: u32, y: u32)
    requires
        x >= C::spec_width() || y >= C::spec_height(),
    ensures
        !C::spec_is_valid(x, y),
{
    C::lemma_valid_in_bounds(x, y);
}

/// Law: after a write at a valid coordinate, the pending color there is the
/// written color, every other valid cell keeps its pending color, and no
/// flushed color is affected until a flush.
pub proof fn lemma_set_then_get<C: Canvas>(pre: C, post: C, x: u32, y: u32, color: Color)
    requires
        C::spec_is_valid(x, y),
        set_effect(pre, post, x, y, color),
    ensures
        post.spec_current(x, y) == color,
        forall|i: u32, j: u32|
            C::spec_is_valid(i, j) ==> #[trigger] post.spec_flushed(i, j) == pre.spec_flushed(
                i,
                j,
            ),
{
}

/// Law: after a successful flush, the flushed color of every valid cell is
/// the pending color it had before the flush, and the pending colors are
/// unchanged.
pub proof fn lemma_flush_commits<C: Canvas>(pre: C, post: C, x: u32, y: u32)
    requires
        C::spec_is_valid(x, y),
        flush_effect(pre, post),
    ensures
        post.spec_flushed(x, y) == pre.spec_current(x, y),
        post.spec_current(x, y) == pre.spec_current(x, y),
{
}

} // verus!
