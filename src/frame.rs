//! The mathematical model of a frame: a sequence of bytes, four per pixel,
//! read either as bytes or as 32-bit words (word `i` is bytes `4i..4i+4`).

use vstd::prelude::*;
use crate::display::Orientation;
use crate::geometry::{Color, Pixel, Point};

verus! {

/// Bytes per pixel in the frame: `[R, G, B, A]`.
pub const BYTES_PER_PIXEL: usize = 4;

/// Row stride, in words, of the whole-frame write path in either orientation.
pub const BLIT_STRIDE: usize = 4;

/// Alpha written by every drawing operation.
pub const OPAQUE: u8 = 255;

/// Row-major index of `(x, y)` in a grid of the given width.
pub open spec fn row_major(width: int, x: int, y: int) -> int {
    x + y * width
}

/// Frame word that source pixel `(x, y)` of a whole frame lands on: a fixed
/// stride of four words, flipped vertically in landscape.
pub open spec fn blit_dest(o: Orientation, height: int, x: int, y: int) -> int {
    match o {
        Orientation::PORTRAIT => x + y * BLIT_STRIDE,
        Orientation::LANDSCAPE => (height - 1 - y) + x * BLIT_STRIDE,
    }
}

/// `frame` with word `i` replaced by the four bytes `bs`.
pub open spec fn put_word(frame: Seq<u8>, i: int, bs: Seq<u8>) -> Seq<u8> {
    Seq::new(frame.len(), |k: int| if i * 4 <= k < i * 4 + 4 { bs[k - i * 4] } else { frame[k] })
}

/// The four bytes of word `i` of `frame`.
pub open spec fn word_bytes_at(frame: Seq<u8>, i: int) -> Seq<u8> {
    frame.subrange(i * 4, i * 4 + 4)
}

/// `frame` with word `dst` replaced by word `s` of `src`.
pub open spec fn copy_word(frame: Seq<u8>, dst: int, src: Seq<u8>, s: int) -> Seq<u8> {
    put_word(frame, dst, word_bytes_at(src, s))
}

/// The little-endian bytes of a 32-bit word.
pub open spec fn le_bytes(w: u32) -> Seq<u8> {
    seq![(w % 256) as u8, ((w / 256) % 256) as u8, ((w / 65536) % 256) as u8, (w / 16777216) as u8]
}

/// The 32-bit word whose little-endian bytes are `bs`.
pub open spec fn le_value(bs: Seq<u8>) -> int {
    bs[0] + bs[1] * 256 + bs[2] * 65536 + bs[3] * 16777216
}

/// Word `i` of `frame`, read little-endian.
pub open spec fn word_at(frame: Seq<u8>, i: int) -> int {
    le_value(word_bytes_at(frame, i))
}

/// The bytes a drawn pixel of colour `c` leaves in the frame.
pub open spec fn color_bytes(c: Color) -> Seq<u8> {
    seq![c.r, c.g, c.b, 255u8]
}

/// Whether `p` lies on a `width` by `height` surface.
pub open spec fn in_bounds(p: Point, width: int, height: int) -> bool {
    0 <= p.x < width && 0 <= p.y < height
}

/// `frame` after drawing `p`: an in-bounds point overwrites its pixel, any
/// other point is dropped.
pub open spec fn plot(frame: Seq<u8>, width: int, height: int, p: Pixel) -> Seq<u8> {
    if in_bounds(p.point, width, height) {
        put_word(frame, row_major(width, p.point.x as int, p.point.y as int), color_bytes(p.color))
    } else {
        frame
    }
}

/// `frame` after drawing `pts` in order, so later points win.
pub open spec fn plot_all(frame: Seq<u8>, width: int, height: int, pts: Seq<Pixel>) -> Seq<u8>
    decreases pts.len(),
{
    if pts.len() == 0 {
        frame
    } else {
        plot(plot_all(frame, width, height, pts.drop_last()), width, height, pts.last())
    }
}

/// `frame` after copying the first `n` rows of source column `x`, top to
/// bottom.
pub open spec fn blit_column(
    frame: Seq<u8>,
    src: Seq<u8>,
    width: int,
    height: int,
    o: Orientation,
    x: int,
    n: int,
) -> Seq<u8>
    decreases n,
{
    if n <= 0 {
        frame
    } else {
        copy_word(
            blit_column(frame, src, width, height, o, x, n - 1),
            blit_dest(o, height, x, n - 1),
            src,
            row_major(width, x, n - 1),
        )
    }
}

/// `frame` after copying source columns `0..n`, left to right, each over rows
/// `0..height - 1`.
pub open spec fn blit_columns(
    frame: Seq<u8>,
    src: Seq<u8>,
    width: int,
    height: int,
    o: Orientation,
    n: int,
) -> Seq<u8>
    decreases n,
{
    if n <= 0 {
        frame
    } else {
        blit_column(blit_columns(frame, src, width, height, o, n - 1), src, width, height, o, n - 1, height - 1)
    }
}

/// A whole-frame write of `src` onto `frame`: every source pixel `(x, y)`
/// with `x < width - 1` and `y < height - 1` (the last column and row are
/// not copied) lands on word `blit_dest(o, height, x, y)`, column by column;
/// where two pixels land on one word the later one stays.
pub open spec fn blit(frame: Seq<u8>, src: Seq<u8>, width: int, height: int, o: Orientation) -> Seq<u8> {
    blit_columns(frame, src, width, height, o, width - 1)
}

/// Every copied source pixel lands inside a frame of `width * height` words.
pub open spec fn blit_fits(width: int, height: int, o: Orientation) -> bool {
    forall|x: int, y: int|
        0 <= x < width - 1 && 0 <= y < height - 1 ==> #[trigger] blit_dest(o, height, x, y) < width * height
}

pub proof fn lemma_row_major_bound(width: int, height: int, x: int, y: int)
    requires
        0 <= x < width,
        0 <= y < height,
    ensures
        0 <= row_major(width, x, y) < width * height,
        row_major(width, x, y) * 4 + 4 <= width * height * 4,
{
    assert(0 <= x + y * width < width * height) by (nonlinear_arith)
        requires 0 <= x < width, 0 <= y < height;
}

/// Whether every copied source pixel of a `width` by `height` whole-frame
/// write lands inside the frame.
pub fn check_blit_fits(width: u32, height: u32, o: Orientation) -> (r: bool)
    ensures
        r == blit_fits(width as int, height as int, o),
{
    if width < 2 || height < 2 {
        return true;
    }
    let w = width as u64;
    let h = height as u64;
    assert(w * h <= 0xffff_ffffu64 * 0xffff_ffffu64) by (nonlinear_arith)
        requires w <= 0xffff_ffffu64, h <= 0xffff_ffffu64;
    let stride = BLIT_STRIDE as u64;
    assert(stride == 4);
    let last: u64 = match o {
        Orientation::PORTRAIT => (w - 2) + (h - 2) * stride,
        Orientation::LANDSCAPE => (h - 1) + (w - 2) * stride,
    };
    let r = last < w * h;
    proof {
        let (lx, ly) = match o {
            Orientation::PORTRAIT => (w - 2, h - 2),
            Orientation::LANDSCAPE => (w - 2, 0int),
        };
        assert(blit_dest(o, h as int, lx, ly) == last);
    }
    r
}

/// Overwrites word `i` of `frame` with the four bytes `bs`.
pub fn put_bytes(frame: &mut Vec<u8>, i: usize, bs: [u8; 4])
    requires
        i * 4 + 4 <= old(frame)@.len(),
        old(frame)@.len() <= usize::MAX,
    ensures
        final(frame)@ == put_word(old(frame)@, i as int, bs@),
{
    let d = i * BYTES_PER_PIXEL;
    frame.set(d, bs[0]);
    frame.set(d + 1, bs[1]);
    frame.set(d + 2, bs[2]);
    frame.set(d + 3, bs[3]);
    assert(frame@ =~= put_word(old(frame)@, i as int, bs@));
}

/// Copies word `s` of `src` over word `dst` of `frame`.
pub fn copy_word_into(frame: &mut Vec<u8>, dst: usize, src: &[u8], s: usize)
    requires
        dst * 4 + 4 <= old(frame)@.len(),
        s * 4 + 4 <= src@.len(),
        old(frame)@.len() <= usize::MAX,
        src@.len() <= usize::MAX,
    ensures
        final(frame)@ == copy_word(old(frame)@, dst as int, src@, s as int),
{
    let a = s * BYTES_PER_PIXEL;
    let bs: [u8; 4] = [src[a], src[a + 1], src[a + 2], src[a + 3]];
    assert(bs@ =~= word_bytes_at(src@, s as int));
    put_bytes(frame, dst, bs);
}

/// The little-endian bytes of `w`.
pub fn le_bytes_of(w: u32) -> (r: [u8; 4])
    ensures
        r@ == le_bytes(w),
{
    let r: [u8; 4] = [(w % 256) as u8, ((w / 256) % 256) as u8, ((w / 65536) % 256) as u8, (w / 16777216) as u8];
    assert(r@ =~= le_bytes(w));
    r
}

/// A word read back from its little-endian bytes is the word itself.
pub proof fn lemma_le_round_trip(w: u32)
    ensures
        le_value(le_bytes(w)) == w,
{
    let b = le_bytes(w);
    assert(b[0] + b[1] * 256 + b[2] * 65536 + b[3] * 16777216 == w) by (nonlinear_arith)
        requires
            b[0] == w % 256,
            b[1] == (w / 256) % 256,
            b[2] == (w / 65536) % 256,
            b[3] == w / 16777216,
            w <= 0xffff_ffffu32;
}

} // verus!
