//! A generic 2D raster target: a flat buffer of cells indexed by
//! `y * width + x`, with a strongly-typed empty cell value.
//!
//! The buffer length always equals `width * height`; resizing
//! reallocates and resets every cell to the empty value.

use vstd::prelude::*;

verus! {

/// A cell type with a designated empty value, used to reset the buffer.
pub trait EmptyCell: Sized + Copy {
    /// The empty value, as a specification-level constant.
    spec fn empty_spec() -> Self;

    fn empty_value() -> (r: Self)
        ensures
            r == Self::empty_spec(),
    ;
}

/// The linear index `y * width + x`, computed without overflow.
pub(crate) fn lin_idx(x: u32, y: u32, width: u32) -> (idx: u64)
    ensures
        idx == (y as int) * (width as int) + (x as int),
{
    proof {
        assert((y as int) * (width as int) <= 0xffff_ffff * 0xffff_ffff) by (nonlinear_arith)
            requires
                0 <= y as int <= 0xffff_ffff,
                0 <= width as int <= 0xffff_ffff,
        ;
        assert((y as int) * (width as int) >= 0) by (nonlinear_arith)
            requires
                0 <= y as int,
                0 <= width as int,
        ;
    }
    (y as u64) * (width as u64) + (x as u64)
}

/// A flat raster target of `width * height` cells.
pub struct Screen<T: EmptyCell> {
    pub pixels: Vec<T>,
    pub width: u32,
    pub height: u32,
}

impl<T: EmptyCell> Screen<T> {
    /// Invariant: the buffer holds exactly `width * height` cells, and
    /// that count fits a `u32`.
    pub open spec fn wf(&self) -> bool {
        self.pixels@.len() == (self.width as int) * (self.height as int) && (self.width as int) * (
        self.height as int) <= u32::MAX
    }

    /// The linear index of cell `(x, y)`.
    pub open spec fn idx_of(&self, x: int, y: int) -> int {
        y * (self.width as int) + x
    }

    pub fn new(x: u32, y: u32) -> (r: Screen<T>)
        requires
            (x as int) * (y as int) <= u32::MAX,
        ensures
            r.wf(),
            r.width == x,
            r.height == y,
            forall|i: int| 0 <= i < r.pixels@.len() ==> #[trigger] r.pixels@[i] == T::empty_spec(),
    {
        let mut screen = Screen { pixels: Vec::new(), width: x, height: y };
        screen.clear();
        screen
    }

    /// Changes the dimensions; the buffer is reallocated and every cell
    /// reset to the empty value.  Never fails.
    pub fn resize(&mut self, x: u32, y: u32)
        requires
            (x as int) * (y as int) <= u32::MAX,
        ensures
            final(self).wf(),
            final(self).width == x,
            final(self).height == y,
            forall|i: int|
                0 <= i < final(self).pixels@.len() ==> #[trigger] final(self).pixels@[i]
                    == T::empty_spec(),
    {
        self.width = x;
        self.height = y;
        self.clear();
    }

    /// Resets every cell to the empty value.  Never fails.
    pub fn clear(&mut self)
        requires
            (old(self).width as int) * (old(self).height as int) <= u32::MAX,
        ensures
            final(self).wf(),
            final(self).width == old(self).width,
            final(self).height == old(self).height,
            forall|i: int|
                0 <= i < final(self).pixels@.len() ==> #[trigger] final(self).pixels@[i]
                    == T::empty_spec(),
    {
        proof {
            vstd::arithmetic::mul::lemma_mul_nonnegative(
                self.width as int,
                self.height as int,
            );
        }
        let total: u32 = self.height * self.width;
        proof {
            assert((self.height as int) * (self.width as int) == (self.width as int) * (
            self.height as int)) by (nonlinear_arith);
        }
        self.pixels.clear();
        let mut i: u32 = 0;
        while i < total
            invariant
                i <= total,
                self.width == old(self).width,
                self.height == old(self).height,
                total == (self.width as int) * (self.height as int),
                self.pixels@.len() == i,
                forall|j: int|
                    0 <= j < self.pixels@.len() ==> #[trigger] self.pixels@[j] == T::empty_spec(),
            decreases total - i,
        {
            self.pixels.push(T::empty_value());
            i = i + 1;
        }
    }

    /// Writes the cell at `(x, y)`.  A coordinate that does not fit
    /// the target's dimensions is an error, never a silent clamp: the
    /// write succeeds exactly when `x < width` and `y < height`.
    pub fn set_pixel(&mut self, x: u32, y: u32, pixel: T) -> (r: Result<(), &'static str>)
        requires
            old(self).wf(),
        ensures
            final(self).wf(),
            final(self).width == old(self).width,
            final(self).height == old(self).height,
            r is Ok <==> (x < old(self).width && y < old(self).height),
            r is Ok ==> final(self).pixels@ == old(self).pixels@.update(
                old(self).idx_of(x as int, y as int),
                pixel,
            ),
            r is Err ==> final(self).pixels@ == old(self).pixels@,
    {
        if x >= self.width || y >= self.height {
            return Err("Index out of bounds.");
        }
        let idx: u64 = lin_idx(x, y, self.width);
        let n = self.pixels.len();
        proof {
            assert((y as int) * (self.width as int) + (x as int) < (self.width as int) * (
            self.height as int)) by (nonlinear_arith)
                requires
                    0 <= (x as int) < (self.width as int),
                    0 <= (y as int) < (self.height as int),
            ;
            assert(idx < n);
        }
        self.pixels.set(idx as usize, pixel);
        Ok(())
    }

    /// Copies a run of cells starting at `(x, y)` and advancing along
    /// the flat buffer; cells that would land beyond the buffer are
    /// skipped.  Only a start index beyond the addressable range is an
    /// error.
    pub fn push_pixels(&mut self, x: u32, y: u32, pixels: Vec<T>) -> (r: Result<
        (),
        &'static str,
    >)
        requires
            old(self).wf(),
        ensures
            final(self).wf(),
            final(self).width == old(self).width,
            final(self).height == old(self).height,
            r is Ok <==> old(self).idx_of(x as int, y as int) <= usize::MAX,
            final(self).pixels@.len() == old(self).pixels@.len(),
            forall|j: int|
                0 <= j < final(self).pixels@.len() ==> #[trigger] final(self).pixels@[j] == {
                    let start = old(self).idx_of(x as int, y as int);
                    if r is Ok && start <= j < start + pixels@.len() {
                        pixels@[j - start]
                    } else {
                        old(self).pixels@[j]
                    }
                },
    {
        let idx: u64 = lin_idx(x, y, self.width);
        if idx > usize::MAX as u64 {
            return Err("Desired pixel index does not fit into usize.");
        }
        let len = self.pixels.len();
        if idx >= len as u64 {
            return Ok(());
        }
        let start = idx as usize;
        let avail: usize = len - start;
        let count: usize = if pixels.len() < avail {
            pixels.len()
        } else {
            avail
        };
        let mut k: usize = 0;
        while k < count
            invariant
                count <= pixels@.len(),
                start + count <= len,
                len == self.pixels@.len(),
                self.wf(),
                self.width == old(self).width,
                self.height == old(self).height,
                k <= count,
                forall|j: int|
                    0 <= j < self.pixels@.len() ==> #[trigger] self.pixels@[j] == if start <= j < start
                        + k {
                        pixels@[j - start]
                    } else {
                        old(self).pixels@[j]
                    },
            decreases count - k,
        {
            self.pixels.set(start + k, pixels[k]);
            k = k + 1;
        }
        Ok(())
    }

    /// Reads the cell at linear index `y * width + x`, if it is within
    /// the buffer.
    pub fn get_pixel(&self, x: u32, y: u32) -> (r: Option<&T>)
        requires
            self.wf(),
        ensures
            r is Some <==> self.idx_of(x as int, y as int) < self.pixels@.len(),
            r is Some ==> *r->0 == self.pixels@[self.idx_of(x as int, y as int)],
    {
        let idx: u64 = lin_idx(x, y, self.width);
        if idx > usize::MAX as u64 {
            return None;
        }
        let i = idx as usize;
        if i < self.pixels.len() {
            Some(&self.pixels[i])
        } else {
            None
        }
    }

    pub fn get_buffer(&self) -> (r: &Vec<T>)
        ensures
            r == &self.pixels,
    {
        &self.pixels
    }

    pub fn width(&self) -> (r: u32)
        ensures
            r == self.width,
    {
        self.width
    }

    pub fn height(&self) -> (r: u32)
        ensures
            r == self.height,
    {
        self.height
    }
}

} // verus!
