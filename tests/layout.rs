use glyph_mesh::layout::{glyph_offsets, LayoutCursor, ShapedGlyph};
use glyph_mesh::mesh::{assemble, Mesh};
use glyph_mesh::path::Point;
use glyph_mesh::shaping::{glyphs_from_pairs, shape_text};

fn run(advances: &[i32]) -> Vec<ShapedGlyph> {
    advances.iter().enumerate().map(|(i, &advance)| ShapedGlyph { id: i as u32 + 1, advance }).collect()
}

#[test]
fn cursor_ends_at_start_plus_advances() {
    let glyphs = run(&[10, 12, 7, 0, 30]);
    let layout = glyph_offsets(&glyphs, Point { x: 100, y: 5000 }).unwrap();
    assert_eq!(layout.end, Point { x: 159, y: 5000 });
    let xs: Vec<i64> = layout.offsets.iter().map(|p| p.x).collect();
    assert_eq!(xs, vec![100, 110, 122, 129, 129]);
    assert!(layout.offsets.iter().all(|p| p.y == 5000));
}

#[test]
fn cursor_end_ignores_glyph_ids() {
    let a = glyph_offsets(&run(&[5, -3, 9]), Point { x: 0, y: 0 }).unwrap();
    let blanks: Vec<ShapedGlyph> = [5, -3, 9].iter().map(|&advance| ShapedGlyph { id: 3, advance }).collect();
    let b = glyph_offsets(&blanks, Point { x: 0, y: 0 }).unwrap();
    assert_eq!(a.end, b.end);
    assert_eq!(a.end.x, 11);
}

#[test]
fn empty_run_stays_at_start() {
    let layout = glyph_offsets(&[], Point { x: -4, y: 2 }).unwrap();
    assert!(layout.offsets.is_empty());
    assert_eq!(layout.end, Point { x: -4, y: 2 });
}

#[test]
fn cursor_overflow_gives_none() {
    let glyphs = run(&[i32::MAX, i32::MAX]);
    assert!(glyph_offsets(&glyphs, Point { x: i64::MAX - i32::MAX as i64 - 1, y: 0 }).is_none());
    assert!(glyph_offsets(&glyphs[..1], Point { x: i64::MAX - i32::MAX as i64, y: 0 }).is_some());
}

#[test]
fn cursor_advance_refuses_overflow() {
    let mut c = LayoutCursor::new(Point { x: i64::MAX - 1, y: 9 });
    assert!(c.advance(1));
    assert!(!c.advance(1));
    assert_eq!(c.position(), Point { x: i64::MAX, y: 9 });
    assert!(c.advance(-10));
    assert_eq!(c.x, i64::MAX - 10);
}

#[test]
fn two_glyph_scenario() {
    // "AB" with advances 10 and 12 from x0 = 0
    let glyphs = vec![ShapedGlyph { id: 36, advance: 10 }, ShapedGlyph { id: 37, advance: 12 }];
    let layout = glyph_offsets(&glyphs, Point { x: 0, y: 0 }).unwrap();
    assert_eq!(layout.offsets, vec![Point { x: 0, y: 0 }, Point { x: 10, y: 0 }]);
    assert_eq!(layout.end.x, 22);
    let scale = 0.01f64;
    assert!((layout.end.x as f64 * scale - 0.22).abs() < 1e-12);
    assert!((layout.offsets[1].x as f64 * scale - 0.1).abs() < 1e-12);

    let a_vertices: Vec<(i64, i64)> = vec![(0, 0), (8, 0), (4, 9)];
    let a_indices: Vec<u16> = vec![0, 1, 2];
    let b_vertices: Vec<(i64, i64)> = vec![(10, 0), (20, 0), (20, 9), (10, 9)];
    let b_indices: Vec<u16> = vec![0, 1, 2, 0, 2, 3];
    let a = Mesh::from_buffers(a_vertices.clone(), a_indices).unwrap();
    let b = Mesh::from_buffers(b_vertices.clone(), b_indices.clone()).unwrap();
    let merged = assemble(vec![a, b]).unwrap();
    assert_eq!(merged.vertex_count(), a_vertices.len() + b_vertices.len());
    let rebased: Vec<u16> = b_indices.iter().map(|i| i + a_vertices.len() as u16).collect();
    assert_eq!(&merged.indices()[3..], rebased.as_slice());
}

#[test]
fn shaping_without_a_font_maps_to_notdef() {
    let glyphs = shape_text(&[], 0, "AB");
    assert_eq!(glyphs.len(), 2);
    assert!(glyphs.iter().all(|g| g.id == 0));
}

#[test]
fn pairs_become_glyphs_in_order() {
    let glyphs = glyphs_from_pairs(&[(36, 10), (37, -2), (0, 0)]);
    assert_eq!(
        glyphs,
        vec![
            ShapedGlyph { id: 36, advance: 10 },
            ShapedGlyph { id: 37, advance: -2 },
            ShapedGlyph { id: 0, advance: 0 },
        ]
    );
    assert!(glyphs_from_pairs(&[]).is_empty());
}

#[test]
fn shaping_empty_text_gives_no_glyph() {
    assert!(shape_text(&[], 0, "").is_empty());
}
