//! The framebuffer surface: dimensions, orientation and the byte frame.

use vstd::prelude::*;
use crate::frame::{
    blit, blit_column, blit_columns, blit_dest, blit_fits, check_blit_fits, copy_word_into,
    le_bytes, le_bytes_of, lemma_row_major_bound, plot_all, put_bytes, put_word, row_major,
    word_at, BLIT_STRIDE, BYTES_PER_PIXEL, OPAQUE,
};
use crate::geometry::Pixel;

verus! {

/// Logical rotation of the surface. It decides how whole-frame writes map
/// source pixels to frame words.
#[allow(non_camel_case_types)]
#[derive(Clone, Copy, Debug, PartialEq, Eq, Structural)]
pub enum Orientation {
    PORTRAIT,
    LANDSCAPE,
}

/// Why a whole-frame write was refused. The frame is left untouched.
#[derive(Clone, Copy, Debug, PartialEq, Eq, Structural)]
pub enum BlitError {
    /// The source is not exactly `width * height` four-byte pixels.
    SizeMismatch,
    /// Some copied source pixel would land past the end of the frame.
    OutOfFrame,
}

/// The abstract state of a [`PixelsDisplay`].
pub struct DisplayView {
    pub width: nat,
    pub height: nat,
    pub orientation: Orientation,
    pub frame: Seq<u8>,
}

impl DisplayView {
    /// The state after asking for orientation `o`: nothing changes when `o`
    /// is the current orientation; otherwise width and height swap and the
    /// frame bytes stay as they are.
    pub open spec fn oriented(self, o: Orientation) -> DisplayView {
        if o == self.orientation {
            self
        } else {
            DisplayView { width: self.height, height: self.width, orientation: o, frame: self.frame }
        }
    }

    /// The same state with another frame.
    pub open spec fn with_frame(self, frame: Seq<u8>) -> DisplayView {
        DisplayView { frame, ..self }
    }
}

/// A framebuffer surface of `width * height` pixels.
pub struct PixelsDisplay {
    frame: Vec<u8>,
    width: u32,
    height: u32,
    orientation: Orientation,
}

impl View for PixelsDisplay {
    type V = DisplayView;

    closed spec fn view(&self) -> DisplayView {
        DisplayView {
            width: self.width as nat,
            height: self.height as nat,
            orientation: self.orientation,
            frame: self.frame@,
        }
    }
}

impl PixelsDisplay {
    /// The frame holds exactly four bytes for each pixel, and fits in memory.
    pub open spec fn wf(&self) -> bool {
        &&& self@.frame.len() == self@.width * self@.height * 4
        &&& self@.frame.len() <= usize::MAX
        &&& self@.width <= u32::MAX
        &&& self@.height <= u32::MAX
    }

    /// A black, fully transparent surface of `width * height` pixels in
    /// portrait orientation.
    pub fn new(width: u32, height: u32) -> (r: PixelsDisplay)
        requires
            width * height * 4 <= usize::MAX,
        ensures
            r.wf(),
            r@.width == width,
            r@.height == height,
            r@.orientation == Orientation::PORTRAIT,
            r@.frame == Seq::new((width * height * 4) as nat, |i: int| 0u8),
    {
        let len: usize = (width as usize) * (height as usize) * 4;
        let mut frame: Vec<u8> = Vec::new();
        let mut i: usize = 0;
        while i < len
            invariant
                i <= len,
                frame@ == Seq::new(i as nat, |k: int| 0u8),
            decreases len - i,
        {
            frame.push(0u8);
            i = i + 1;
            assert(frame@ =~= Seq::new(i as nat, |k: int| 0u8));
        }
        PixelsDisplay { frame, width, height, orientation: Orientation::PORTRAIT }
    }

    /// The current orientation.
    pub fn get_orientation(&self) -> (r: Orientation)
        ensures
            r == self@.orientation,
    {
        self.orientation
    }

    /// Switches to orientation `o`. A change of orientation swaps width and
    /// height; the frame bytes are not moved.
    pub fn set_orientation(&mut self, o: Orientation)
        requires
            old(self).wf(),
        ensures
            final(self).wf(),
            final(self)@ == old(self)@.oriented(o),
    {
        if o != self.orientation {
            let w = self.width;
            self.width = self.height;
            self.height = w;
            self.orientation = o;
            proof {
                vstd::arithmetic::mul::lemma_mul_is_commutative(w as int, self.width as int);
            }
        }
    }

    /// The current `(width, height)`.
    pub fn get_size(&self) -> (r: (u32, u32))
        ensures
            r.0 == self@.width,
            r.1 == self@.height,
    {
        (self.width, self.height)
    }

    /// Copies a whole source frame of `width * height` four-byte pixels into
    /// the frame, mapping each pixel by the current orientation (see
    /// [`blit`]). The destination row stride is [`BLIT_STRIDE`] words
    /// whatever the width, and the last source row and column are not
    /// copied. Nothing is presented.
    pub fn write_bytes(&mut self, bytes: &[u8]) -> (r: Result<(), BlitError>)
        requires
            old(self).wf(),
        ensures
            final(self).wf(),
            bytes@.len() != old(self)@.width * old(self)@.height * 4 ==> r == Err::<(), BlitError>(
                BlitError::SizeMismatch,
            ) && final(self)@ == old(self)@,
            bytes@.len() == old(self)@.width * old(self)@.height * 4 && !blit_fits(
                old(self)@.width as int,
                old(self)@.height as int,
                old(self)@.orientation,
            ) ==> r == Err::<(), BlitError>(BlitError::OutOfFrame) && final(self)@ == old(self)@,
            bytes@.len() == old(self)@.width * old(self)@.height * 4 && blit_fits(
                old(self)@.width as int,
                old(self)@.height as int,
                old(self)@.orientation,
            ) ==> r == Ok::<(), BlitError>(()) && final(self)@ == old(self)@.with_frame(
                blit(
                    old(self)@.frame,
                    bytes@,
                    old(self)@.width as int,
                    old(self)@.height as int,
                    old(self)@.orientation,
                ),
            ),
    {
        let len = self.frame.len();
        if bytes.len() != len {
            return Err(BlitError::SizeMismatch);
        }
        if !check_blit_fits(self.width, self.height, self.orientation) {
            return Err(BlitError::OutOfFrame);
        }
        let w = self.width as usize;
        let h = self.height as usize;
        let o = self.orientation;
        let ghost old_frame = self.frame@;
        let ghost src = bytes@;
        let mut x: usize = 0;
        while x + 1 < w
            invariant
                w == old(self)@.width,
                h == old(self)@.height,
                o == old(self)@.orientation,
                self.width == w,
                self.height == h,
                self.orientation == o,
                old_frame == old(self)@.frame,
                src == bytes@,
                src.len() == w * h * 4,
                len == w * h * 4,
                self.frame@.len() == w * h * 4,
                blit_fits(w as int, h as int, o),
                x == 0 || x < w,
                self.frame@ == blit_columns(old_frame, src, w as int, h as int, o, x as int),
            decreases w - x,
        {
            let ghost before_column = self.frame@;
            let mut y: usize = 0;
            while y + 1 < h
                invariant
                    w == old(self)@.width,
                    h == old(self)@.height,
                    o == old(self)@.orientation,
                    self.width == w,
                    self.height == h,
                    self.orientation == o,
                    src == bytes@,
                    src.len() == w * h * 4,
                    len == w * h * 4,
                    self.frame@.len() == w * h * 4,
                    blit_fits(w as int, h as int, o),
                    x + 1 < w,
                    y == 0 || y < h,
                    before_column == blit_columns(old_frame, src, w as int, h as int, o, x as int),
                    self.frame@ == blit_column(before_column, src, w as int, h as int, o, x as int, y as int),
                decreases h - y,
            {
                proof {
                    lemma_row_major_bound(w as int, h as int, x as int, y as int);
                    assert(blit_dest(o, h as int, x as int, y as int) < w * h);
                }
                let s: usize = x + y * w;
                let d: usize = match o {
                    Orientation::PORTRAIT => x + y * BLIT_STRIDE,
                    Orientation::LANDSCAPE => (h - 1 - y) + x * BLIT_STRIDE,
                };
                assert(d == blit_dest(o, h as int, x as int, y as int));
                assert(s == row_major(w as int, x as int, y as int));
                copy_word_into(&mut self.frame, d, bytes, s);
                y = y + 1;
            }
            assert(self.frame@ == blit_column(before_column, src, w as int, h as int, o, x as int, h - 1));
            x = x + 1;
        }
        assert(self.frame@ == blit_columns(old_frame, src, w as int, h as int, o, w - 1));
        Ok(())
    }

    /// Draws `points` in order. A point outside `0 <= x < width`,
    /// `0 <= y < height` is dropped; any other point sets its pixel to
    /// `[r, g, b, 255]`, so a later point at the same place wins. Nothing is
    /// presented.
    pub fn draw_points(&mut self, points: &[Pixel])
        requires
            old(self).wf(),
        ensures
            final(self).wf(),
            final(self)@ == old(self)@.with_frame(
                plot_all(old(self)@.frame, old(self)@.width as int, old(self)@.height as int, points@),
            ),
    {
        let len = self.frame.len();
        let w = self.width;
        let h = self.height;
        let ghost old_frame = self.frame@;
        let mut i: usize = 0;
        while i < points.len()
            invariant
                self.width == w,
                self.height == h,
                self.orientation == old(self)@.orientation,
                w == old(self)@.width,
                h == old(self)@.height,
                old_frame == old(self)@.frame,
                len == w * h * 4,
                self.frame@.len() == len,
                i <= points@.len(),
                self.frame@ == plot_all(old_frame, w as int, h as int, points@.subrange(0, i as int)),
            decreases points@.len() - i,
        {
            let p = points[i];
            assert(points@.subrange(0, i + 1).drop_last() =~= points@.subrange(0, i as int));
            if p.point.x >= 0 && p.point.y >= 0 && (p.point.x as u32) < w && (p.point.y as u32) < h {
                let x = p.point.x as usize;
                let y = p.point.y as usize;
                proof {
                    lemma_row_major_bound(w as int, h as int, x as int, y as int);
                }
                let idx: usize = x + y * (w as usize);
                put_bytes(&mut self.frame, idx, [p.color.r, p.color.g, p.color.b, OPAQUE]);
            }
            assert(self.frame@ =~= plot_all(old_frame, w as int, h as int, points@.subrange(0, i + 1)));
            i = i + 1;
        }
        assert(points@.subrange(0, points@.len() as int) =~= points@);
    }

    /// Writes the 32-bit word `color` at word `idx` of the frame, bytes in
    /// little-endian order. Nothing is presented.
    pub fn set_pixel(&mut self, idx: usize, color: u32)
        requires
            old(self).wf(),
            idx < old(self)@.width * old(self)@.height,
        ensures
            final(self).wf(),
            final(self)@ == old(self)@.with_frame(put_word(old(self)@.frame, idx as int, le_bytes(color))),
    {
        put_bytes(&mut self.frame, idx, le_bytes_of(color));
    }

    /// The 32-bit word at word `idx` of the frame, read little-endian.
    pub fn get_pixel(&self, idx: usize) -> (r: u32)
        requires
            self.wf(),
            idx < self@.width * self@.height,
        ensures
            r == word_at(self@.frame, idx as int),
    {
        let d = idx * BYTES_PER_PIXEL;
        (self.frame[d] as u32) + (self.frame[d + 1] as u32) * 256 + (self.frame[d + 2] as u32) * 65536
            + (self.frame[d + 3] as u32) * 16777216
    }

    /// The frame bytes, four per pixel, row-major from the top-left corner.
    pub fn frame(&self) -> (r: &[u8])
        ensures
            r@ == self@.frame,
    {
        self.frame.as_slice()
    }
}

} // verus!
