//! Shaping text into glyphs through HarfBuzz.
use vstd::prelude::*;
use crate::layout::ShapedGlyph;

verus! {

/// Relies on harfbuzz_rs::shape (with Face::new, Font::new and
/// UnicodeBuffer::add_str) for the (glyph index, horizontal advance) pairs of
/// `text` in face `face_index` of `font_data`. The pairs also depend on the
/// process locale and on which HarfBuzz build is linked, so nothing is stated
/// of them. Empty text is left out: harfbuzz_rs would then build slices from
/// null pointers.
#[verifier::external_body]
fn shape_with_harfbuzz(font_data: &[u8], face_index: u32, text: &str) -> (r: Vec<(u32, i32)>)
    requires
        text@.len() > 0,
{
    let font = harfbuzz_rs::Font::new(harfbuzz_rs::Face::new(font_data, face_index));
    let buffer = harfbuzz_rs::UnicodeBuffer::new().add_str(text);
    let shaped = harfbuzz_rs::shape(&font, buffer, &[]);
    let infos = shaped.get_glyph_infos().iter();
    infos.zip(shaped.get_glyph_positions()).map(|(i, p)| (i.codepoint, p.x_advance)).collect()
}

/// The glyphs that a list of (glyph index, advance) pairs stands for.
pub open spec fn glyphs_of(pairs: Seq<(u32, i32)>) -> Seq<ShapedGlyph> {
    pairs.map_values(|p: (u32, i32)| ShapedGlyph { id: p.0, advance: p.1 })
}

/// The glyphs that (glyph index, advance) pairs stand for, in the same order.
pub fn glyphs_from_pairs(pairs: &[(u32, i32)]) -> (r: Vec<ShapedGlyph>)
    ensures
        r@ == glyphs_of(pairs@),
{
    let mut glyphs: Vec<ShapedGlyph> = Vec::new();
    let mut i: usize = 0;
    while i < pairs.len()
        invariant
            i <= pairs@.len(),
            glyphs@ == glyphs_of(pairs@.take(i as int)),
        decreases pairs@.len() - i,
    {
        let (id, advance) = pairs[i];
        glyphs.push(ShapedGlyph { id, advance });
        assert(glyphs@ =~= glyphs_of(pairs@.take(i + 1)));
        i = i + 1;
    }
    assert(pairs@.take(pairs@.len() as int) =~= pairs@);
    glyphs
}

/// The glyphs of `text` set in face `face_index` of the font file `font_data`,
/// in the order the shaper gives them (already reordered for bidirectional
/// text where the script asks for it). Empty text gives no glyph and is not
/// handed to the shaper.
pub fn shape_text(font_data: &[u8], face_index: u32, text: &str) -> (r: Vec<ShapedGlyph>)
    ensures
        text@.len() == 0 ==> r@.len() == 0,
{
    if text.is_empty() {
        return Vec::new();
    }
    let pairs = shape_with_harfbuzz(font_data, face_index, text);
    glyphs_from_pairs(pairs.as_slice())
}

} // verus!
