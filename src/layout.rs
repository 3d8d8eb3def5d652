//! Placing shaped glyphs along a baseline by their advances.
use vstd::prelude::*;
use crate::path::Point;

verus! {

/// One glyph as the shaper hands it over: its index in the font and its
/// horizontal advance, both in font units.
#[derive(Clone, Copy, Debug, PartialEq, Eq, Structural)]
pub struct ShapedGlyph {
    pub id: u32,
    pub advance: i32,
}

/// The sum of the advances of `glyphs`.
pub open spec fn advance_sum(glyphs: Seq<ShapedGlyph>) -> int
    decreases glyphs.len(),
{
    if glyphs.len() == 0 {
        0
    } else {
        advance_sum(glyphs.drop_last()) + glyphs.last().advance
    }
}

/// A value fits in an `i64`.
pub open spec fn fits_i64(v: int) -> bool {
    i64::MIN <= v <= i64::MAX
}

/// Every pen position of a pass over `glyphs` from `x0` fits in an `i64`.
pub open spec fn pen_positions_fit(glyphs: Seq<ShapedGlyph>, x0: int) -> bool {
    forall|k: int| 0 <= k <= glyphs.len() ==> #[trigger] fits_i64(x0 + advance_sum(glyphs.take(k)))
}

/// The pen position before glyph `k` of a pass from `start`.
pub open spec fn pen_before(glyphs: Seq<ShapedGlyph>, start: Point, k: int) -> Point {
    Point { x: (start.x + advance_sum(glyphs.take(k))) as i64, y: start.y }
}

/// The pen position: x along the baseline, y the baseline itself.
#[derive(Clone, Copy, Debug, PartialEq, Eq, Structural)]
pub struct LayoutCursor {
    pub x: i64,
    pub y: i64,
}

impl LayoutCursor {
    /// A cursor at `start`.
    pub fn new(start: Point) -> (r: LayoutCursor)
        ensures
            r.x == start.x,
            r.y == start.y,
    {
        LayoutCursor { x: start.x, y: start.y }
    }

    /// The pen position, as the offset of the next glyph.
    pub fn position(&self) -> (r: Point)
        ensures
            r == (Point { x: self.x, y: self.y }),
    {
        Point { x: self.x, y: self.y }
    }

    /// Moves the pen along the baseline by `advance`; returns false, leaving
    /// the pen in place, where the new position would not fit in an `i64`.
    pub fn advance(&mut self, advance: i32) -> (r: bool)
        ensures
            r == fits_i64(old(self).x + advance),
            r ==> final(self).x == old(self).x + advance,
            !r ==> final(self).x == old(self).x,
            final(self).y == old(self).y,
    {
        let next: i128 = self.x as i128 + advance as i128;
        if next < i64::MIN as i128 || next > i64::MAX as i128 {
            false
        } else {
            self.x = next as i64;
            true
        }
    }
}

/// Where each glyph of a run goes, and where the pen ends.
pub struct GlyphLayout {
    /// The offset of each glyph, in run order.
    pub offsets: Vec<Point>,
    /// The pen position after the last glyph.
    pub end: Point,
}

/// Lays out a shaped run from `start`: glyph `k` goes where the pen stands
/// after the advances of the glyphs before it, all on the baseline `start.y`.
///
/// Gives `None` exactly when some pen position would not fit in an `i64`.
pub fn glyph_offsets(glyphs: &[ShapedGlyph], start: Point) -> (r: Option<GlyphLayout>)
    ensures
        r is Some <==> pen_positions_fit(glyphs@, start.x as int),
        r is Some ==> r->Some_0.offsets@.len() == glyphs@.len(),
        r is Some ==> forall|k: int|
            0 <= k < glyphs@.len() ==> #[trigger] r->Some_0.offsets@[k] == pen_before(glyphs@, start, k),
        r is Some ==> r->Some_0.end == pen_before(glyphs@, start, glyphs@.len() as int),
        r is Some ==> r->Some_0.end.x == start.x + advance_sum(glyphs@),
{
    let mut cursor = LayoutCursor::new(start);
    let mut offsets: Vec<Point> = Vec::new();
    let mut i: usize = 0;
    assert(glyphs@.take(0) =~= Seq::<ShapedGlyph>::empty());
    while i < glyphs.len()
        invariant
            i <= glyphs@.len(),
            cursor.y == start.y,
            cursor.x == start.x + advance_sum(glyphs@.take(i as int)),
            offsets@.len() == i,
            forall|k: int| 0 <= k <= i ==> #[trigger] fits_i64(start.x + advance_sum(glyphs@.take(k))),
            forall|k: int| 0 <= k < i ==> #[trigger] offsets@[k] == pen_before(glyphs@, start, k),
        decreases glyphs@.len() - i,
    {
        offsets.push(cursor.position());
        let g = glyphs[i];
        let ghost next = glyphs@.take(i + 1);
        assert(next.drop_last() =~= glyphs@.take(i as int));
        if !cursor.advance(g.advance) {
            assert(!fits_i64(start.x + advance_sum(glyphs@.take(i + 1))));
            return None;
        }
        i = i + 1;
    }
    assert(glyphs@.take(glyphs@.len() as int) =~= glyphs@);
    Some(GlyphLayout { offsets, end: cursor.position() })
}

/// The end of a pass depends on the advances alone: two runs whose advances
/// agree glyph by glyph, whatever their glyph ids (and so their outlines, empty
/// or not), end at the same pen position.
pub proof fn lemma_advance_sum_ignores_ids(a: Seq<ShapedGlyph>, b: Seq<ShapedGlyph>)
    requires
        a.len() == b.len(),
        forall|k: int| 0 <= k < a.len() ==> (#[trigger] a[k]).advance == b[k].advance,
    ensures
        advance_sum(a) == advance_sum(b),
    decreases a.len(),
{
    if a.len() > 0 {
        lemma_advance_sum_ignores_ids(a.drop_last(), b.drop_last());
    }
}

} // verus!
