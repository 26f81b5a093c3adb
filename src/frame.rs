use vstd::prelude::*;

use crate::pixel::Pixel;

verus! {

/// What a frame buffer holds: its dimensions and its pixels in row-major order.
pub ghost struct FrameView {
    pub width: nat,
    pub height: nat,
    pub pixels: Seq<Pixel>,
}

impl FrameView {
    /// The storage has exactly one pixel per coordinate.
    pub open spec fn wf(self) -> bool {
        self.pixels.len() == self.width * self.height
    }

    pub open spec fn in_bounds(self, x: int, y: int) -> bool {
        0 <= x < self.width && 0 <= y < self.height
    }

    /// Row-major position of the coordinate `(x, y)`.
    pub open spec fn index_of(self, x: int, y: int) -> int {
        y * self.width + x
    }

    pub open spec fn pixel(self, x: int, y: int) -> Pixel {
        self.pixels[self.index_of(x, y)]
    }

    /// The same frame with the pixel at `(x, y)` replaced by `p`.
    pub open spec fn with_pixel(self, x: int, y: int, p: Pixel) -> FrameView {
        FrameView { pixels: self.pixels.update(self.index_of(x, y), p), ..self }
    }

    /// Every pixel is black.
    pub open spec fn all_black(self) -> bool {
        forall|i: int| 0 <= i < self.pixels.len() ==> #[trigger] self.pixels[i] == Pixel::black()
    }
}

/// An in-bounds coordinate has a row-major index inside the storage.
pub proof fn lemma_index_in_bounds(x: int, y: int, width: int, height: int)
    requires
        0 <= x < width,
        0 <= y < height,
    ensures
        0 <= y * width + x < width * height,
{
    assert(0 <= y * width) by (nonlinear_arith)
        requires
            0 <= y,
            0 <= width,
    ;
    assert(y * width + x < width * height) by (nonlinear_arith)
        requires
            0 <= x < width,
            0 <= y < height,
    ;
}

/// Which part of a frame's pixels a transfer reads.
#[derive(Clone, Copy, Debug, PartialEq, Eq)]
pub enum SourceRegion {
    /// All pixels, from the origin.
    Full,
    /// The rectangle at `coords`, rows being `px_stride` pixels apart.
    SubRectangle { coords: (usize, usize), px_stride: usize },
}

/// A transfer of pixels from a frame to the display surface.
#[derive(Clone, Copy, Debug, PartialEq, Eq)]
pub struct Transfer {
    pub src: SourceRegion,
    /// Top-left corner of the destination on the surface.
    pub dest: (usize, usize),
    /// Width and height of the rectangle moved.
    pub dims: (usize, usize),
}

/// Writing a pixel and reading the same coordinate gives the value written, and every other
/// coordinate keeps its pixel.
pub proof fn lemma_write_then_read(v: FrameView, x: int, y: int, p: Pixel, x2: int, y2: int)
    requires
        v.wf(),
        v.in_bounds(x, y),
        v.in_bounds(x2, y2),
    ensures
        v.with_pixel(x, y, p).wf(),
        v.with_pixel(x, y, p).pixel(x, y) == p,
        (x2, y2) != (x, y) ==> v.with_pixel(x, y, p).pixel(x2, y2) == v.pixel(x2, y2),
{
    lemma_index_in_bounds(x, y, v.width as int, v.height as int);
    lemma_index_in_bounds(x2, y2, v.width as int, v.height as int);
    if (x2, y2) != (x, y) {
        lemma_distinct_index(x, y, x2, y2, v.width as int);
    }
}

/// Distinct in-row coordinates have distinct row-major indices.
proof fn lemma_distinct_index(x: int, y: int, x2: int, y2: int, width: int)
    requires
        0 <= x < width,
        0 <= x2 < width,
        0 <= y,
        0 <= y2,
        (x2, y2) != (x, y),
    ensures
        y * width + x != y2 * width + x2,
{
    if y == y2 {
    } else if y < y2 {
        assert(y * width + x < y2 * width + x2) by (nonlinear_arith)
            requires
                0 <= x < width,
                0 <= x2,
                y < y2,
        ;
    } else {
        assert(y2 * width + x2 < y * width + x) by (nonlinear_arith)
            requires
                0 <= x2 < width,
                0 <= x,
                y2 < y,
        ;
    }
}

/// A width x height grid of pixels, stored row by row.
#[derive(Debug)]
pub struct FrameBuffer {
    width: usize,
    height: usize,
    pixels: Vec<Pixel>,
}

impl View for FrameBuffer {
    type V = FrameView;

    closed spec fn view(&self) -> FrameView {
        FrameView { width: self.width as nat, height: self.height as nat, pixels: self.pixels@ }
    }
}

impl FrameBuffer {
    pub open spec fn wf(&self) -> bool {
        self@.wf()
    }

    /// A frame of the given size with every pixel black.
    pub fn new(width: usize, height: usize) -> (r: FrameBuffer)
        requires
            width * height <= usize::MAX,
        ensures
            r.wf(),
            r@.width == width,
            r@.height == height,
            r@.all_black(),
    {
        let len: usize = width * height;
        let pixels = vec![Pixel::new(0, 0, 0); len];
        FrameBuffer { width, height, pixels }
    }

    pub fn width(&self) -> (r: usize)
        ensures
            r == self@.width,
    {
        self.width
    }

    pub fn height(&self) -> (r: usize)
        ensures
            r == self@.height,
    {
        self.height
    }

    /// All pixels, row by row.
    pub fn pixels(&self) -> (r: &Vec<Pixel>)
        ensures
            r@ == self@.pixels,
    {
        &self.pixels
    }

    /// A handle on the pixel at `(x, y)`, or `None` where the coordinate lies outside the frame.
    pub fn pixel_at(&mut self, x: usize, y: usize) -> (r: Option<&mut Pixel>)
        requires
            old(self).wf(),
        ensures
            r is Some <==> old(self)@.in_bounds(x as int, y as int),
            match r {
                Some(p) => *p == old(self)@.pixel(x as int, y as int) && final(self)@ == old(self)@.with_pixel(
                    x as int,
                    y as int,
                    *final(p),
                ),
                None => *final(self) == *old(self),
            },
    {
        if x < self.width && y < self.height {
            proof {
                lemma_index_in_bounds(x as int, y as int, self.width as int, self.height as int);
                assert(self.pixels.len() == self.pixels@.len());
            }
            let i: usize = y * self.width + x;
            Some(&mut self.pixels[i])
        } else {
            None
        }
    }

    /// The transfer that copies the whole frame to the surface's origin.
    pub fn transfer_full(&self) -> (t: Transfer)
        ensures
            t == (Transfer {
                src: SourceRegion::Full,
                dest: (0, 0),
                dims: (self@.width as usize, self@.height as usize),
            }),
    {
        Transfer { src: SourceRegion::Full, dest: (0, 0), dims: (self.width, self.height) }
    }

    /// The transfer that copies the single pixel at `(x, y)` to the same place on the surface.
    pub fn transfer_point(&self, x: usize, y: usize) -> (t: Transfer)
        requires
            self@.in_bounds(x as int, y as int),
        ensures
            t == (Transfer {
                src: SourceRegion::SubRectangle { coords: (x, y), px_stride: self@.width as usize },
                dest: (x, y),
                dims: (1, 1),
            }),
    {
        Transfer {
            src: SourceRegion::SubRectangle { coords: (x, y), px_stride: self.width },
            dest: (x, y),
            dims: (1, 1),
        }
    }
}

} // verus!
