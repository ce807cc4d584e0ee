//! Laws that relate the surface's operations, proved over their models.

use vstd::prelude::*;
use crate::display::{DisplayView, Orientation};
use crate::frame::{
    color_bytes, in_bounds, le_bytes, lemma_le_round_trip, lemma_row_major_bound, plot, plot_all,
    put_word, row_major, word_at, word_bytes_at,
};
use crate::geometry::Pixel;

verus! {

proof fn lemma_draw_one(frame: Seq<u8>, width: int, height: int, p: Pixel)
    ensures
        plot_all(frame, width, height, seq![p]) == plot(frame, width, height, p),
{
    assert(seq![p].drop_last() =~= Seq::<Pixel>::empty());
    assert(plot_all(frame, width, height, Seq::<Pixel>::empty()) == frame);
}

/// Switching to the other orientation swaps width and height; switching
/// back restores the original state, size included.
pub proof fn lemma_orientation_round_trip(v: DisplayView, o: Orientation)
    requires
        o != v.orientation,
    ensures
        v.oriented(o).width == v.height,
        v.oriented(o).height == v.width,
        v.oriented(o).oriented(v.orientation) == v,
{
}

/// Drawing a single point outside the surface leaves every byte of the
/// frame as it was.
pub proof fn lemma_draw_outside_is_dropped(frame: Seq<u8>, width: int, height: int, p: Pixel)
    requires
        !in_bounds(p.point, width, height),
    ensures
        plot_all(frame, width, height, seq![p]) == frame,
{
    lemma_draw_one(frame, width, height, p);
}

/// Drawing a single point inside the surface writes exactly `[r, g, b, 255]`
/// at byte offset `4 * (x + y * width)`, and nothing else.
pub proof fn lemma_draw_inside_writes_pixel(frame: Seq<u8>, width: int, height: int, p: Pixel)
    requires
        frame.len() == width * height * 4,
        in_bounds(p.point, width, height),
    ensures
        ({
            let off = row_major(width, p.point.x as int, p.point.y as int) * 4;
            let after = plot_all(frame, width, height, seq![p]);
            &&& after.len() == frame.len()
            &&& after.subrange(off, off + 4) == seq![p.color.r, p.color.g, p.color.b, 255u8]
            &&& forall|k: int| 0 <= k < frame.len() && !(off <= k < off + 4) ==> after[k] == frame[k]
        }),
{
    lemma_draw_one(frame, width, height, p);
    let off = row_major(width, p.point.x as int, p.point.y as int) * 4;
    lemma_row_major_bound(width, height, p.point.x as int, p.point.y as int);
    let after = plot_all(frame, width, height, seq![p]);
    assert(after.subrange(off, off + 4) =~= color_bytes(p.color));
}

/// Two points at the same place: the frame ends as if only the second had
/// been drawn.
pub proof fn lemma_draw_last_write_wins(frame: Seq<u8>, width: int, height: int, p1: Pixel, p2: Pixel)
    requires
        p1.point == p2.point,
    ensures
        plot_all(frame, width, height, seq![p1, p2]) == plot_all(frame, width, height, seq![p2]),
{
    assert(seq![p1, p2].drop_last() =~= seq![p1]);
    lemma_draw_one(frame, width, height, p1);
    lemma_draw_one(frame, width, height, p2);
    let once = plot(frame, width, height, p1);
    assert(plot(once, width, height, p2) =~= plot(frame, width, height, p2));
}

/// Writing word `c` at word `idx` and reading word `idx` back gives `c`;
/// every other word is unchanged.
pub proof fn lemma_word_read_back(frame: Seq<u8>, idx: int, c: u32)
    requires
        0 <= idx,
        idx * 4 + 4 <= frame.len(),
    ensures
        word_at(put_word(frame, idx, le_bytes(c)), idx) == c,
        forall|j: int|
            0 <= j && j * 4 + 4 <= frame.len() && j != idx ==> #[trigger] word_at(
                put_word(frame, idx, le_bytes(c)),
                j,
            ) == word_at(frame, j),
{
    let after = put_word(frame, idx, le_bytes(c));
    assert(word_bytes_at(after, idx) =~= le_bytes(c));
    lemma_le_round_trip(c);
    assert forall|j: int| 0 <= j && j * 4 + 4 <= frame.len() && j != idx implies #[trigger] word_at(
        after,
        j,
    ) == word_at(frame, j) by {
        assert(word_bytes_at(after, j) =~= word_bytes_at(frame, j));
    }
}

} // verus!
