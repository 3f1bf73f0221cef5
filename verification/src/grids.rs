use vstd::prelude::*;

use crate::canvas::Canvas;
use crate::color::Color;

verus! {

/// Relies on `anyhow::Error::msg`: builds the transport error that a failed
/// flush surfaces to the caller.
#[verifier::external_body]
fn transport_error(msg: &str) -> anyhow::Error {
    anyhow::Error::msg(String::from(msg))
}

proof fn lemma_flat_index_bounds(w: int, h: int, x: int, y: int)
    requires
        0 <= x < w,
        0 <= y < h,
    ensures
        0 <= y * w + x < w * h,
{
    assert(0 <= y * w + x < w * h) by (nonlinear_arith)
        requires
            0 <= x < w,
            0 <= y < h,
    ;
}

proof fn lemma_flat_index_injective(w: int, x1: int, y1: int, x2: int, y2: int)
    requires
        0 <= x1 < w,
        0 <= x2 < w,
        0 <= y1,
        0 <= y2,
        y1 * w + x1 == y2 * w + x2,
    ensures
        x1 == x2,
        y1 == y2,
{
    assert(x1 == x2 && y1 == y2) by (nonlinear_arith)
        requires
            0 <= x1 < w,
            0 <= x2 < w,
            0 <= y1,
            0 <= y2,
            y1 * w + x1 == y2 * w + x2,
    ;
}

/// The position of cell `(x, y)` in a row-major flat buffer of row length
/// `w`.
fn flat_index(x: u32, y: u32, w: u32) -> (i: usize)
    requires
        y as int * w as int + x as int <= usize::MAX as int,
    ensures
        i == y as int * w as int + x as int,
{
    (y as usize) * (w as usize) + (x as usize)
}

/// A vector of `n` copies of `fill`.
fn filled(n: usize, fill: Color) -> (v: Vec<Color>)
    ensures
        v@.len() == n,
        forall|t: int| 0 <= t < n ==> v@[t] == fill,
{
    let mut v: Vec<Color> = Vec::new();
    let mut k: usize = 0;
    while k < n
        invariant
            k <= n,
            v@.len() == k,
            forall|t: int| 0 <= t < k ==> v@[t] == fill,
        decreases n - k,
    {
        v.push(fill);
        k = k + 1;
    }
    v
}

/// A fully rectangular in-memory grid of width `W` and height `H`: every
/// in-bounds coordinate is a real cell, and flushing commits the pending
/// buffer to an in-memory flushed buffer (the "device" is the process's own
/// memory, so a flush never fails).
pub struct RectGrid<const W: u32, const H: u32> {
    current: Vec<Color>,
    flushed: Vec<Color>,
}

impl<const W: u32, const H: u32> RectGrid<W, H> {
    #[verifier::type_invariant]
    closed spec fn inv(self) -> bool {
        &&& self.current@.len() == W as int * H as int
        &&& self.flushed@.len() == W as int * H as int
    }

    /// Builds a grid whose every cell starts with color `fill`, both in the
    /// pending and in the flushed layer.
    pub fn new(fill: Color) -> (g: Self)
        requires
            W as int * H as int <= usize::MAX as int,
        ensures
            forall|x: u32, y: u32| x < W && y < H ==> #[trigger] g.spec_current(x, y) == fill,
            forall|x: u32, y: u32| x < W && y < H ==> #[trigger] g.spec_flushed(x, y) == fill,
    {
        let n: usize = (W as usize) * (H as usize);
        let g = RectGrid { current: filled(n, fill), flushed: filled(n, fill) };
        proof {
            assert forall|x: u32, y: u32| x < W && y < H implies #[trigger] g.spec_current(x, y)
                == fill by {
                lemma_flat_index_bounds(W as int, H as int, x as int, y as int);
            }
            assert forall|x: u32, y: u32| x < W && y < H implies #[trigger] g.spec_flushed(x, y)
                == fill by {
                lemma_flat_index_bounds(W as int, H as int, x as int, y as int);
            }
        }
        g
    }
}

impl<const W: u32, const H: u32> Canvas for RectGrid<W, H> {
    open spec fn spec_width() -> u32 {
        W
    }

    open spec fn spec_height() -> u32 {
        H
    }

    open spec fn spec_is_valid(x: u32, y: u32) -> bool {
        x < W && y < H
    }

    closed spec fn spec_current(&self, x: u32, y: u32) -> Color {
        self.current@[y as int * W as int + x as int]
    }

    closed spec fn spec_flushed(&self, x: u32, y: u32) -> Color {
        self.flushed@[y as int * W as int + x as int]
    }

    proof fn lemma_valid_in_bounds(x: u32, y: u32) {
    }

    fn bounding_box_width() -> (w: u32) {
        W
    }

    fn bounding_box_height() -> (h: u32) {
        H
    }

    fn is_valid(x: u32, y: u32) -> (r: bool) {
        x < W && y < H
    }

    fn get_unchecked(&self, x: u32, y: u32) -> (c: Color) {
        proof {
            use_type_invariant(self);
            lemma_flat_index_bounds(W as int, H as int, x as int, y as int);
            vstd::std_specs::vec::axiom_spec_len(&self.current);
        }
        let i = flat_index(x, y, W);
        self.current[i]
    }

    fn set_unchecked(&mut self, x: u32, y: u32, color: Color) {
        proof {
            use_type_invariant(&*self);
            lemma_flat_index_bounds(W as int, H as int, x as int, y as int);
            vstd::std_specs::vec::axiom_spec_len(&self.current);
        }
        let i = flat_index(x, y, W);
        self.current[i] = color;
        proof {
            assert forall|a: u32, b: u32|
                Self::spec_is_valid(a, b) && !(a == x && b == y) implies #[trigger] self
                .spec_current(a, b) == old(self).spec_current(a, b) by {
                lemma_flat_index_bounds(W as int, H as int, a as int, b as int);
                if b as int * W as int + a as int == y as int * W as int + x as int {
                    lemma_flat_index_injective(W as int, x as int, y as int, a as int, b as int);
                }
            }
        }
    }

    fn get_old_unchecked(&self, x: u32, y: u32) -> (c: Color) {
        proof {
            use_type_invariant(self);
            lemma_flat_index_bounds(W as int, H as int, x as int, y as int);
            vstd::std_specs::vec::axiom_spec_len(&self.flushed);
        }
        let i = flat_index(x, y, W);
        self.flushed[i]
    }

    /// The "device" is the process's own memory, so this flush always
    /// succeeds: the commit is unconditional.
    fn flush(&mut self) -> (r: Result<(), anyhow::Error>)
        ensures
            r is Ok,
    {
        proof {
            use_type_invariant(&*self);
        }
        let ghost orig = *self;
        let n = self.current.len();
        let mut k: usize = 0;
        while k < n
            invariant
                k <= n,
                orig == *old(self),
                n == self.current@.len(),
                self.current@ == orig.current@,
                self.flushed@.len() == orig.flushed@.len(),
                orig.inv(),
                forall|t: int| 0 <= t < k ==> self.flushed@[t] == self.current@[t],
            decreases n - k,
        {
            let c = self.current[k];
            self.flushed[k] = c;
            k = k + 1;
        }
        proof {
            assert forall|a: u32, b: u32| Self::spec_is_valid(a, b) implies #[trigger] self
                .spec_flushed(a, b) == orig.spec_current(a, b) && self.spec_current(a, b)
                == orig.spec_current(a, b) by {
                lemma_flat_index_bounds(W as int, H as int, a as int, b as int);
            }
        }
        Ok(())
    }
}

/// A 3x3 grid with a diamond layout: only the center cross of the bounding
/// box holds real cells — `(1,0), (0,1), (1,1), (2,1), (1,2)` — so the
/// traversal has in-bounds coordinates to skip.
pub struct DiamondGrid {
    current: Vec<Color>,
    flushed: Vec<Color>,
}

impl DiamondGrid {
    #[verifier::type_invariant]
    closed spec fn inv(self) -> bool {
        &&& self.current@.len() == 9
        &&& self.flushed@.len() == 9
    }

    /// Builds a diamond grid whose every cell starts with color `fill`, both
    /// in the pending and in the flushed layer.
    pub fn new(fill: Color) -> (g: Self)
        ensures
            forall|x: u32, y: u32|
                Self::spec_is_valid(x, y) ==> #[trigger] g.spec_current(x, y) == fill,
            forall|x: u32, y: u32|
                Self::spec_is_valid(x, y) ==> #[trigger] g.spec_flushed(x, y) == fill,
    {
        DiamondGrid { current: filled(9, fill), flushed: filled(9, fill) }
    }
}

impl Canvas for DiamondGrid {
    open spec fn spec_width() -> u32 {
        3
    }

    open spec fn spec_height() -> u32 {
        3
    }

    open spec fn spec_is_valid(x: u32, y: u32) -> bool {
        (y == 0 && x == 1) || (y == 1 && x <= 2) || (y == 2 && x == 1)
    }

    closed spec fn spec_current(&self, x: u32, y: u32) -> Color {
        self.current@[y as int * 3 + x as int]
    }

    closed spec fn spec_flushed(&self, x: u32, y: u32) -> Color {
        self.flushed@[y as int * 3 + x as int]
    }

    proof fn lemma_valid_in_bounds(x: u32, y: u32) {
    }

    fn bounding_box_width() -> (w: u32) {
        3
    }

    fn bounding_box_height() -> (h: u32) {
        3
    }

    fn is_valid(x: u32, y: u32) -> (r: bool) {
        (y == 0 && x == 1) || (y == 1 && x <= 2) || (y == 2 && x == 1)
    }

    fn get_unchecked(&self, x: u32, y: u32) -> (c: Color) {
        proof {
            use_type_invariant(self);
        }
        let i = flat_index(x, y, 3);
        self.current[i]
    }

    fn set_unchecked(&mut self, x: u32, y: u32, color: Color) {
        proof {
            use_type_invariant(&*self);
        }
        let i = flat_index(x, y, 3);
        self.current[i] = color;
    }

    fn get_old_unchecked(&self, x: u32, y: u32) -> (c: Color) {
        proof {
            use_type_invariant(self);
        }
        let i = flat_index(x, y, 3);
        self.flushed[i]
    }

    /// The "device" is the process's own memory, so this flush always
    /// succeeds: the commit is unconditional.
    fn flush(&mut self) -> (r: Result<(), anyhow::Error>)
        ensures
            r is Ok,
    {
        proof {
            use_type_invariant(&*self);
        }
        let ghost orig = *self;
        let n = self.current.len();
        let mut k: usize = 0;
        while k < n
            invariant
                k <= n,
                orig == *old(self),
                n == self.current@.len(),
                self.current@ == orig.current@,
                self.flushed@.len() == orig.flushed@.len(),
                orig.inv(),
                forall|t: int| 0 <= t < k ==> self.flushed@[t] == self.current@[t],
            decreases n - k,
        {
            let c = self.current[k];
            self.flushed[k] = c;
            k = k + 1;
        }
        Ok(())
    }
}

/// A rectangular grid whose device is unreachable: writes buffer as usual,
/// but every flush fails with a transport error and commits nothing. It
/// exercises the failure path of the flush contract.
pub struct OfflineGrid<const W: u32, const H: u32> {
    inner: RectGrid<W, H>,
}

impl<const W: u32, const H: u32> OfflineGrid<W, H> {
    /// Builds an offline grid whose every cell starts with color `fill`,
    /// both in the pending and in the flushed layer.
    pub fn new(fill: Color) -> (g: Self)
        requires
            W as int * H as int <= usize::MAX as int,
        ensures
            forall|x: u32, y: u32| x < W && y < H ==> #[trigger] g.spec_current(x, y) == fill,
            forall|x: u32, y: u32| x < W && y < H ==> #[trigger] g.spec_flushed(x, y) == fill,
    {
        OfflineGrid { inner: RectGrid::new(fill) }
    }
}

impl<const W: u32, const H: u32> Canvas for OfflineGrid<W, H> {
    open spec fn spec_width() -> u32 {
        W
    }

    open spec fn spec_height() -> u32 {
        H
    }

    open spec fn spec_is_valid(x: u32, y: u32) -> bool {
        x < W && y < H
    }

    closed spec fn spec_current(&self, x: u32, y: u32) -> Color {
        self.inner.spec_current(x, y)
    }

    closed spec fn spec_flushed(&self, x: u32, y: u32) -> Color {
        self.inner.spec_flushed(x, y)
    }

    proof fn lemma_valid_in_bounds(x: u32, y: u32) {
    }

    fn bounding_box_width() -> (w: u32) {
        W
    }

    fn bounding_box_height() -> (h: u32) {
        H
    }

    fn is_valid(x: u32, y: u32) -> (r: bool) {
        x < W && y < H
    }

    fn get_unchecked(&self, x: u32, y: u32) -> (c: Color) {
        self.inner.get_unchecked(x, y)
    }

    fn set_unchecked(&mut self, x: u32, y: u32, color: Color) {
        self.inner.set_unchecked(x, y, color);
    }

    fn get_old_unchecked(&self, x: u32, y: u32) -> (c: Color) {
        self.inner.get_old_unchecked(x, y)
    }

    /// The device is offline: the flush fails, surfaces its transport error,
    /// and leaves both color layers untouched.
    fn flush(&mut self) -> (r: Result<(), anyhow::Error>)
        ensures
            r is Err,
            *final(self) == *old(self),
    {
        Err(transport_error("the grid device is offline: nothing was flushed"))
    }
}

} // verus!
