use vstd::prelude::*;

use crate::canvas::Canvas;
use crate::color::Color;

verus! {

/// Strict row-major precedence on coordinates: `a` comes before `b` when it
/// lies on an earlier row, or on the same row further left.
pub open spec fn row_major_lt(a: (u32, u32), b: (u32, u32)) -> bool {
    a.1 < b.1 || (a.1 == b.1 && a.0 < b.0)
}

/// Reflexive row-major precedence on coordinates.
pub open spec fn row_major_le(a: (u32, u32), b: (u32, u32)) -> bool {
    row_major_lt(a, b) || a == b
}

/// The cursor position one step after `(x, y)` in row-major order over the
/// bounding box of `C`: the next column, or the start of the next row once
/// the column runs off the box.
pub open spec fn step<C: Canvas>(x: u32, y: u32) -> (u32, u32) {
    if x + 1 < C::spec_width() {
        ((x + 1) as u32, y)
    } else {
        (0, (y + 1) as u32)
    }
}

/// The valid coordinates of grid type `C` at or after cursor position
/// `(x, y)`, in row-major order. This is the sequence a traversal starting
/// at `(x, y)` still has to yield.
pub open spec fn coords_from<C: Canvas>(x: u32, y: u32) -> Seq<(u32, u32)>
    decreases C::spec_height() - y, C::spec_width() - x,
{
    if y >= C::spec_height() {
        Seq::empty()
    } else {
        let rest = coords_from::<C>(step::<C>(x, y).0, step::<C>(x, y).1);
        if C::spec_is_valid(x, y) {
            seq![(x, y)].add(rest)
        } else {
            rest
        }
    }
}

/// The full traversal sequence of grid type `C`: every valid coordinate of
/// its bounding box, in row-major order.
pub open spec fn all_coords<C: Canvas>() -> Seq<(u32, u32)> {
    coords_from::<C>(0, 0)
}

proof fn lemma_coords_from_props<C: Canvas>(x: u32, y: u32)
    ensures
        forall|i: int|
            0 <= i < coords_from::<C>(x, y).len() ==> C::spec_is_valid(
                (#[trigger] coords_from::<C>(x, y)[i]).0,
                coords_from::<C>(x, y)[i].1,
            ),
        forall|i: int|
            0 <= i < coords_from::<C>(x, y).len() ==> row_major_le(
                (x, y),
                #[trigger] coords_from::<C>(x, y)[i],
            ),
        forall|i: int, j: int|
            0 <= i < j < coords_from::<C>(x, y).len() ==> row_major_lt(
                #[trigger] coords_from::<C>(x, y)[i],
                #[trigger] coords_from::<C>(x, y)[j],
            ),
        forall|c: (u32, u32)|
            C::spec_is_valid(c.0, c.1) && row_major_le((x, y), c) ==> coords_from::<C>(
                x,
                y,
            ).contains(c),
    decreases C::spec_height() - y, C::spec_width() - x,
{
    let s = coords_from::<C>(x, y);
    if y >= C::spec_height() {
        assert forall|c: (u32, u32)|
            C::spec_is_valid(c.0, c.1) && row_major_le((x, y), c) implies s.contains(c) by {
            C::lemma_valid_in_bounds(c.0, c.1);
        }
    } else {
        let nx = step::<C>(x, y).0;
        let ny = step::<C>(x, y).1;
        lemma_coords_from_props::<C>(nx, ny);
        let rest = coords_from::<C>(nx, ny);
        assert(row_major_lt((x, y), (nx, ny)));
        assert forall|c: (u32, u32)|
            C::spec_is_valid(c.0, c.1) && row_major_le((x, y), c) && c != (x, y) implies
            rest.contains(c) by {
            C::lemma_valid_in_bounds(c.0, c.1);
            if x + 1 >= C::spec_width() && c.1 == y {
                // c is on the current row, strictly right of x, yet inside
                // the box: impossible once x is the last column.
                assert(c.0 < C::spec_width());
                assert(false);
            }
            assert(row_major_le((nx, ny), c));
        }
        if C::spec_is_valid(x, y) {
            assert(s == seq![(x, y)].add(rest));
            assert(s[0] == (x, y));
            assert forall|i: int| 0 <= i < s.len() implies C::spec_is_valid(
                (#[trigger] s[i]).0,
                s[i].1,
            ) && row_major_le((x, y), s[i]) by {
                if i > 0 {
                    assert(s[i] == rest[i - 1]);
                    assert(row_major_le((nx, ny), rest[i - 1]));
                }
            }
            assert forall|i: int, j: int| 0 <= i < j < s.len() implies row_major_lt(
                #[trigger] s[i],
                #[trigger] s[j],
            ) by {
                assert(s[j] == rest[j - 1]);
                assert(row_major_le((nx, ny), rest[j - 1]));
                if i > 0 {
                    assert(s[i] == rest[i - 1]);
                }
            }
            assert forall|c: (u32, u32)|
                C::spec_is_valid(c.0, c.1) && row_major_le((x, y), c) implies s.contains(c) by {
                if c == (x, y) {
                    assert(s[0] == c);
                } else {
                    assert(rest.contains(c));
                    let k = choose|k: int| 0 <= k < rest.len() && rest[k] == c;
                    assert(s[k + 1] == rest[k]);
                    assert(s[k + 1] == c);
                }
            }
        } else {
            assert(s == rest);
            assert forall|i: int| 0 <= i < s.len() implies row_major_le(
                (x, y),
                #[trigger] s[i],
            ) by {
                assert(row_major_le((nx, ny), s[i]));
            }
        }
    }
}

/// Law: the full traversal sequence of a grid type is exactly its valid
/// coordinates — every element is valid, every valid coordinate occurs,
/// there are no duplicates, and the order is strictly row-major.
pub proof fn lemma_traversal_order<C: Canvas>()
    ensures
        forall|i: int|
            0 <= i < all_coords::<C>().len() ==> C::spec_is_valid(
                (#[trigger] all_coords::<C>()[i]).0,
                all_coords::<C>()[i].1,
            ),
        forall|i: int, j: int|
            0 <= i < j < all_coords::<C>().len() ==> row_major_lt(
                #[trigger] all_coords::<C>()[i],
                #[trigger] all_coords::<C>()[j],
            ),
        forall|c: (u32, u32)| C::spec_is_valid(c.0, c.1) ==> all_coords::<C>().contains(c),
        all_coords::<C>().no_duplicates(),
{
    lemma_coords_from_props::<C>(0, 0);
    let s = all_coords::<C>();
    assert forall|c: (u32, u32)| C::spec_is_valid(c.0, c.1) implies s.contains(c) by {
        assert(row_major_le((0u32, 0u32), c));
    }
    assert forall|i: int, j: int|
        0 <= i < s.len() && 0 <= j < s.len() && i != j implies s[i] != s[j] by {
        if i < j {
            assert(row_major_lt(s[i], s[j]));
        } else {
            assert(row_major_lt(s[j], s[i]));
        }
    }
}

/// Law: a coordinate for which `is_valid` does not hold is never part of the
/// traversal; the traversal skips exactly the invalid coordinates.
pub proof fn lemma_traversal_skips_invalid<C: Canvas>(x: u32, y: u32)
    requires
        !C::spec_is_valid(x, y),
    ensures
        !all_coords::<C>().contains((x, y)),
{
    lemma_traversal_order::<C>();
    let s = all_coords::<C>();
    if s.contains((x, y)) {
        let i = choose|i: int| 0 <= i < s.len() && s[i] == (x, y);
        assert(C::spec_is_valid(s[i].0, s[i].1));
    }
}

/// Law: a traversal over an empty bounding box yields nothing.
pub proof fn lemma_empty_box_yields_nothing<C: Canvas>()
    requires
        C::spec_width() == 0 || C::spec_height() == 0,
    ensures
        all_coords::<C>().len() == 0,
{
    lemma_traversal_order::<C>();
    let s = all_coords::<C>();
    if s.len() > 0 {
        assert(C::spec_is_valid(s[0].0, s[0].1));
        C::lemma_valid_in_bounds(s[0].0, s[0].1);
    }
}

proof fn lemma_full_grid_from<C: Canvas>(x: u32, y: u32)
    requires
        forall|a: u32, b: u32|
            a < C::spec_width() && b < C::spec_height() ==> C::spec_is_valid(a, b),
        x < C::spec_width(),
        y < C::spec_height(),
    ensures
        coords_from::<C>(x, y).len() == (C::spec_height() - y) * C::spec_width() - x,
        forall|i: int|
            0 <= i < coords_from::<C>(x, y).len() ==> (#[trigger] coords_from::<C>(x, y)[i]).1
                * C::spec_width() + coords_from::<C>(x, y)[i].0 == y * C::spec_width() + x + i,
    decreases C::spec_height() - y, C::spec_width() - x,
{
    let w = C::spec_width() as int;
    let h = C::spec_height() as int;
    let s = coords_from::<C>(x, y);
    let rest = coords_from::<C>(step::<C>(x, y).0, step::<C>(x, y).1);
    assert(C::spec_is_valid(x, y));
    assert(s == seq![(x, y)].add(rest));
    if x + 1 < C::spec_width() {
        lemma_full_grid_from::<C>((x + 1) as u32, y);
        assert forall|i: int| 0 <= i < s.len() implies (#[trigger] s[i]).1 * w + s[i].0 == y * w
            + x + i by {
            if i > 0 {
                assert(s[i] == rest[i - 1]);
            }
        }
    } else {
        if y + 1 < C::spec_height() {
            lemma_full_grid_from::<C>(0, (y + 1) as u32);
            assert((h - (y + 1)) * w == (h - y) * w - w) by (nonlinear_arith);
            assert((y + 1) * w == y * w + w) by (nonlinear_arith);
            assert forall|i: int| 0 <= i < s.len() implies (#[trigger] s[i]).1 * w + s[i].0 == y
                * w + x + i by {
                if i > 0 {
                    assert(s[i] == rest[i - 1]);
                    assert(rest[i - 1].1 * w + rest[i - 1].0 == (y + 1) * w + (i - 1));
                }
            }
        } else {
            assert(rest =~= Seq::<(u32, u32)>::empty());
            assert(s.len() == 1);
            assert((h - y) * w == w) by (nonlinear_arith)
                requires
                    h - y == 1,
            ;
        }
    }
}

/// Law: on a fully rectangular grid type (every in-bounds coordinate valid)
/// of width `W` and height `H`, the traversal yields exactly `W * H`
/// coordinates, and the coordinate at position `i` is `(i % W, i / W)` —
/// that is, the order is `(0,0), (1,0), ..., (W-1,0), (0,1), ..., (W-1,H-1)`.
pub proof fn lemma_full_grid_traversal<C: Canvas>()
    requires
        forall|a: u32, b: u32|
            a < C::spec_width() && b < C::spec_height() ==> C::spec_is_valid(a, b),
    ensures
        all_coords::<C>().len() == C::spec_width() * C::spec_height(),
        forall|i: int|
            0 <= i < all_coords::<C>().len() ==> #[trigger] all_coords::<C>()[i] == (((
            i % (C::spec_width() as int)) as u32, ((i / (C::spec_width() as int)) as u32))),
{
    let w = C::spec_width() as int;
    let h = C::spec_height() as int;
    let s = all_coords::<C>();
    if w == 0 || h == 0 {
        lemma_empty_box_yields_nothing::<C>();
        assert(w * h == 0) by (nonlinear_arith)
            requires
                w == 0 || h == 0,
        ;
    } else {
        lemma_full_grid_from::<C>(0, 0);
        assert(h * w == w * h) by (nonlinear_arith);
        lemma_traversal_order::<C>();
        assert forall|i: int| 0 <= i < s.len() implies #[trigger] s[i] == (((i % w) as u32, ((
        i / w) as u32))) by {
            let c = s[i];
            assert(c.1 * w + c.0 == i);
            assert(C::spec_is_valid(c.0, c.1));
            C::lemma_valid_in_bounds(c.0, c.1);
            vstd::arithmetic::div_mod::lemma_fundamental_div_mod_converse(
                i,
                w,
                c.1 as int,
                c.0 as int,
            );
        }
    }
}

/// Starts a traversal of grid type `C`: the returned cursor yields a handle
/// for every valid coordinate, each exactly once, in row-major order.
pub fn iter<C: Canvas>() -> (it: CanvasIterator<C>)
    ensures
        it.wf(),
        it.remaining() == all_coords::<C>(),
{
    CanvasIterator::new()
}

/// An immutable cell handle: a coordinate paired with the static guarantee
/// that it is valid for grid type `C`. Only the traversal creates handles,
/// so a handle's existence is itself the validity proof, and its accessors
/// go straight to the unchecked primitives.
#[derive(Debug, PartialEq, Eq)]
pub struct CanvasButton<C: Canvas> {
    x: u32,
    y: u32,
    phantom: core::marker::PhantomData<C>,
}

impl<C: Canvas> Clone for CanvasButton<C> {
    /// A clone of a handle is the same coordinate with the same validity
    /// guarantee.
    fn clone(&self) -> (r: Self)
        ensures
            r == *self,
    {
        CanvasButton { x: self.x, y: self.y, phantom: core::marker::PhantomData }
    }
}

impl<C: Canvas> CanvasButton<C> {
    /// The column of this handle.
    pub closed spec fn spec_x(&self) -> u32 {
        self.x
    }

    /// The row of this handle.
    pub closed spec fn spec_y(&self) -> u32 {
        self.y
    }

    /// Well-formedness: the coordinate is valid for grid type `C`. Every
    /// handle the traversal yields satisfies it.
    pub open spec fn wf(&self) -> bool {
        C::spec_is_valid(self.spec_x(), self.spec_y())
    }

    /// Returns the column of this handle.
    pub fn x(&self) -> (r: u32)
        ensures
            r == self.spec_x(),
    {
        self.x
    }

    /// Returns the row of this handle.
    pub fn y(&self) -> (r: u32)
        ensures
            r == self.spec_y(),
    {
        self.y
    }

    /// Retrieves the pending color at this handle's coordinate, with no
    /// redundant bounds check.
    pub fn get(&self, canvas: &C) -> (c: Color)
        requires
            self.wf(),
        ensures
            c == canvas.spec_current(self.spec_x(), self.spec_y()),
    {
        canvas.get_unchecked(self.x, self.y)
    }

    /// Retrieves the flushed color at this handle's coordinate, with no
    /// redundant bounds check.
    pub fn get_old(&self, canvas: &C) -> (c: Color)
        requires
            self.wf(),
        ensures
            c == canvas.spec_flushed(self.spec_x(), self.spec_y()),
    {
        canvas.get_old_unchecked(self.x, self.y)
    }

    /// Sets the pending color at this handle's coordinate, with no redundant
    /// bounds check.
    pub fn set(&self, canvas: &mut C, color: Color)
        requires
            self.wf(),
        ensures
            crate::canvas::set_effect(*old(canvas), *final(canvas), self.spec_x(), self.spec_y(), color),
    {
        canvas.set_unchecked(self.x, self.y, color);
    }
}

/// The traversal cursor over grid type `C`: the next coordinate to test or
/// emit. A single pass consumes it; a fresh traversal takes a fresh cursor.
pub struct CanvasIterator<C: Canvas> {
    x: u32,
    y: u32,
    phantom: core::marker::PhantomData<C>,
}

impl<C: Canvas> CanvasIterator<C> {
    /// The cursor's column.
    pub closed spec fn spec_x(&self) -> u32 {
        self.x
    }

    /// The cursor's row.
    pub closed spec fn spec_y(&self) -> u32 {
        self.y
    }

    /// Well-formedness of the cursor: the column is inside the bounding box,
    /// or pinned to zero when the box has no columns at all.
    pub open spec fn wf(&self) -> bool {
        self.spec_x() == 0 || self.spec_x() < C::spec_width()
    }

    /// The coordinates this cursor still has to yield, in row-major order.
    pub open spec fn remaining(&self) -> Seq<(u32, u32)> {
        coords_from::<C>(self.spec_x(), self.spec_y())
    }

    /// Starts a traversal at the origin of the bounding box: the cursor will
    /// yield every valid coordinate of grid type `C`. On return the cursor
    /// already rests on the first valid coordinate, or past the last row
    /// when the grid has none.
    pub fn new() -> (it: Self)
        ensures
            it.wf(),
            it.remaining() == all_coords::<C>(),
            it.remaining().len() > 0 ==> (it.spec_x(), it.spec_y()) == it.remaining()[0],
            it.remaining().len() == 0 ==> it.spec_y() >= C::spec_height(),
    {
        let mut it = CanvasIterator { x: 0, y: 0, phantom: core::marker::PhantomData };
        let _found = it.find_next_valid();
        it
    }

    /// Moves the cursor one position forward in row-major order.
    fn advance(&mut self)
        requires
            old(self).wf(),
            old(self).spec_y() < C::spec_height(),
        ensures
            final(self).wf(),
            (final(self).spec_x(), final(self).spec_y()) == step::<C>(
                old(self).spec_x(),
                old(self).spec_y(),
            ),
    {
        let w = C::bounding_box_width();
        self.x = self.x + 1;
        if self.x >= w {
            self.x = 0;
            self.y = self.y + 1;
        }
    }

    /// Moves the cursor forward past invalid coordinates until it rests on a
    /// valid one (returning true) or leaves the bounding box (returning
    /// false, the traversal is exhausted). The coordinates still to yield
    /// are untouched: only invalid positions are skipped.
    fn find_next_valid(&mut self) -> (found: bool)
        requires
            old(self).wf(),
        ensures
            final(self).wf(),
            final(self).remaining() == old(self).remaining(),
            found <==> final(self).remaining().len() > 0,
            found ==> final(self).spec_y() < C::spec_height() && C::spec_is_valid(
                final(self).spec_x(),
                final(self).spec_y(),
            ) && final(self).remaining()[0] == (final(self).spec_x(), final(self).spec_y()),
            !found ==> final(self).spec_y() >= C::spec_height(),
            old(self).spec_y() >= C::spec_height() ==> *final(self) == *old(self),
    {
        let ghost orig = *self;
        let h = C::bounding_box_height();
        loop
            invariant
                orig == *old(self),
                orig.spec_y() >= C::spec_height() ==> *self == orig,
                self.wf(),
                self.remaining() == orig.remaining(),
                h == C::spec_height(),
            decreases C::spec_height() - self.spec_y(), C::spec_width() - self.spec_x(),
        {
            if self.y >= h {
                return false;
            }
            if C::is_valid(self.x, self.y) {
                return true;
            }
            self.advance();
        }
    }

    /// Yields the next valid coordinate of the traversal as a pre-validated
    /// handle, or nothing once the traversal is exhausted. Exhaustion is
    /// permanent: an exhausted cursor stays where it is and keeps answering
    /// nothing; a new pass takes a fresh cursor.
    pub fn next(&mut self) -> (r: Option<CanvasButton<C>>)
        requires
            old(self).wf(),
        ensures
            final(self).wf(),
            match r {
                Some(button) => {
                    &&& old(self).remaining().len() > 0
                    &&& button.wf()
                    &&& (button.spec_x(), button.spec_y()) == old(self).remaining()[0]
                    &&& final(self).remaining() == old(self).remaining().drop_first()
                },
                None => {
                    &&& old(self).remaining().len() == 0
                    &&& final(self).remaining().len() == 0
                    &&& final(self).spec_y() >= C::spec_height()
                    &&& old(self).spec_y() >= C::spec_height() ==> *final(self) == *old(self)
                },
            },
    {
        let in_bounds = self.find_next_valid();
        if !in_bounds {
            return None;
        }
        let value = CanvasButton { x: self.x, y: self.y, phantom: core::marker::PhantomData };
        let ghost before = *self;
        self.advance();
        proof {
            assert(before.remaining() == seq![(before.spec_x(), before.spec_y())].add(
                self.remaining(),
            ));
            assert(before.remaining().drop_first() =~= self.remaining());
        }
        Some(value)
    }
}

} // verus!
