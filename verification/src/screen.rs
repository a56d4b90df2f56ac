//! Monochrome framebuffer: a fixed-size grid of pixels stored row-major,
//! mutated only through `set_pixel` and `clear`.

use vstd::prelude::*;

verus! {

/// Mathematical model of a framebuffer: its dimensions and the flat
/// row-major grid of pixel states.
#[verifier::ext_equal]
pub ghost struct ScreenView {
    pub width: int,
    pub height: int,
    pub scale: int,
    pub grid: Seq<bool>,
}

impl ScreenView {
    /// A well-formed framebuffer holds exactly `width * height` cells.
    pub open spec fn wf(self) -> bool {
        &&& self.grid.len() == self.width * self.height
        &&& 0 < self.width
        &&& 0 < self.height
    }

    /// Row-major index of the cell at column `x`, row `y`.
    pub open spec fn idx(self, x: int, y: int) -> int {
        y * self.width + x
    }

    /// The state of the pixel at column `x`, row `y`.
    pub open spec fn pixel(self, x: int, y: int) -> bool {
        self.grid[self.idx(x, y)]
    }
}

/// A monochrome framebuffer of `width` x `height` pixels, plus the
/// display scale the renderer should use for each pixel.
pub struct Screen {
    pub width: u8,
    pub height: u8,
    pub scale: u32,
    pub buffer: Vec<bool>,
}

impl View for Screen {
    type V = ScreenView;

    open spec fn view(&self) -> ScreenView {
        ScreenView {
            width: self.width as int,
            height: self.height as int,
            scale: self.scale as int,
            grid: self.buffer@,
        }
    }
}

/// The row-major cell index lies inside the grid whenever the coordinates do.
pub proof fn lemma_idx_in_range(v: ScreenView, x: int, y: int)
    requires
        v.wf(),
        0 <= x < v.width,
        0 <= y < v.height,
    ensures
        0 <= v.idx(x, y) < v.grid.len(),
{
    assert(y * v.width + x < v.height * v.width) by (nonlinear_arith)
        requires
            0 <= x < v.width,
            0 <= y < v.height,
    ;
    assert(v.height * v.width == v.width * v.height) by (nonlinear_arith);
    assert(0 <= y * v.width) by (nonlinear_arith)
        requires
            0 <= y,
            0 < v.width,
    ;
}

impl Screen {
    /// Create a blank framebuffer: every pixel starts unset.
    pub fn new(width: u8, height: u8, scale: u32) -> (s: Screen)
        requires
            0 < width,
            0 < height,
        ensures
            s@.wf(),
            s.width == width,
            s.height == height,
            s.scale == scale,
            s@.grid.len() == width as int * height as int,
            forall|k: int| 0 <= k < s@.grid.len() ==> !s@.grid[k],
    {
        proof {
            assert(width as int * height as int <= 255 * 255) by (nonlinear_arith)
                requires
                    0 <= width as int <= 255,
                    0 <= height as int <= 255,
            ;
        }
        let cells: usize = width as usize * height as usize;
        let mut buffer: Vec<bool> = Vec::new();
        let mut k: usize = 0;
        while k < cells
            invariant
                buffer@.len() == k,
                k <= cells,
                forall|j: int| 0 <= j < k ==> !buffer@[j],
            decreases cells - k,
        {
            buffer.push(false);
            k += 1;
        }
        Screen { width, height, scale, buffer }
    }

    /// Overwrite the pixel at `(x, y)` with `on`.
    pub fn set_pixel(&mut self, x: u8, y: u8, on: bool)
        requires
            old(self)@.wf(),
            x < old(self).width,
            y < old(self).height,
        ensures
            final(self)@.wf(),
            final(self).width == old(self).width,
            final(self).height == old(self).height,
            final(self).scale == old(self).scale,
            final(self)@.grid == old(self)@.grid.update(old(self)@.idx(x as int, y as int), on),
    {
        proof {
            lemma_idx_in_range(self@, x as int, y as int);
            assert(y as int * self.width as int <= 255 * 255) by (nonlinear_arith)
                requires
                    0 <= y as int <= 255,
                    0 <= self.width as int <= 255,
            ;
        }
        let index: usize = y as usize * self.width as usize + x as usize;
        self.buffer.set(index, on);
    }

    /// Read the pixel at `(x, y)`.
    pub fn get_pixel(&self, x: u8, y: u8) -> (on: bool)
        requires
            self@.wf(),
            x < self.width,
            y < self.height,
        ensures
            on == self@.pixel(x as int, y as int),
    {
        proof {
            lemma_idx_in_range(self@, x as int, y as int);
            assert(y as int * self.width as int <= 255 * 255) by (nonlinear_arith)
                requires
                    0 <= y as int <= 255,
                    0 <= self.width as int <= 255,
            ;
        }
        let index: usize = y as usize * self.width as usize + x as usize;
        self.buffer[index]
    }

    /// Unset every pixel.
    pub fn clear(&mut self)
        requires
            old(self)@.wf(),
        ensures
            final(self)@.wf(),
            final(self).width == old(self).width,
            final(self).height == old(self).height,
            final(self).scale == old(self).scale,
            final(self)@.grid.len() == old(self)@.grid.len(),
            forall|k: int| 0 <= k < final(self)@.grid.len() ==> !final(self)@.grid[k],
    {
        let len: usize = self.buffer.len();
        let mut k: usize = 0;
        while k < len
            invariant
                self.buffer@.len() == len,
                k <= len,
                self.width == old(self).width,
                self.height == old(self).height,
                self.scale == old(self).scale,
                forall|j: int| 0 <= j < k ==> !self.buffer@[j],
            decreases len - k,
        {
            self.buffer.set(k, false);
            k += 1;
        }
    }
}

} // verus!
