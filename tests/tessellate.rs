use glyph_mesh::mesh::{assemble, blank_glyph_mesh, Mesh};
use glyph_mesh::outline::{ClosePolicy, PathTranslator};
use glyph_mesh::path::{Path, PathSegment, Point};
use lyon::math::point;
use lyon::tessellation::geometry_builder::simple_builder;
use lyon::tessellation::{FillOptions, FillTessellator, StrokeOptions, StrokeTessellator, VertexBuffers};

fn to_lyon(path: &Path) -> lyon::path::Path {
    let p = |q: &Point| point(q.x as f32, q.y as f32);
    let mut b = lyon::path::Path::builder();
    for seg in path.segments() {
        match seg {
            PathSegment::MoveTo(to) => {
                b.move_to(p(to));
            }
            PathSegment::LineTo(to) => {
                b.line_to(p(to));
            }
            PathSegment::QuadTo(c, to) => {
                b.quadratic_bezier_to(p(c), p(to));
            }
            PathSegment::CubicTo(c1, c2, to) => {
                b.cubic_bezier_to(p(c1), p(c2), p(to));
            }
            PathSegment::Close => b.close(),
        }
    }
    b.build()
}

fn fill(path: &Path, tolerance: f32) -> VertexBuffers<lyon::math::Point, u16> {
    let mut buffers: VertexBuffers<lyon::math::Point, u16> = VertexBuffers::new();
    FillTessellator::new()
        .tessellate(&to_lyon(path), &FillOptions::tolerance(tolerance), &mut simple_builder(&mut buffers))
        .unwrap();
    buffers
}

fn triangle_area_sum(buffers: &VertexBuffers<lyon::math::Point, u16>) -> f64 {
    buffers
        .indices
        .chunks(3)
        .map(|t| {
            let a = buffers.vertices[t[0] as usize];
            let b = buffers.vertices[t[1] as usize];
            let c = buffers.vertices[t[2] as usize];
            (((b.x - a.x) * (c.y - a.y) - (c.x - a.x) * (b.y - a.y)) as f64).abs() / 2.0
        })
        .sum()
}

#[test]
fn unit_square_fills_with_two_triangles() {
    let mut t = PathTranslator::with_close_policy(ClosePolicy::ExplicitEdge);
    t.move_to(0, 0);
    t.line_to(1, 0).unwrap();
    t.line_to(1, 1).unwrap();
    t.line_to(0, 1).unwrap();
    t.close().unwrap();
    let buffers = fill(&t.finish(), 0.01);
    assert_eq!(buffers.indices.len(), 6);
    assert!((triangle_area_sum(&buffers) - 1.0).abs() <= 0.01);
}

#[test]
fn convex_polygon_fill_covers_its_area() {
    // a convex hexagon of area 3600
    let mut t = PathTranslator::new();
    t.move_to(20, 0);
    t.line_to(60, 0).unwrap();
    t.line_to(80, 30).unwrap();
    t.line_to(60, 60).unwrap();
    t.line_to(20, 60).unwrap();
    t.line_to(0, 30).unwrap();
    t.close().unwrap();
    let buffers = fill(&t.finish(), 0.01);
    assert_eq!(buffers.indices.len() % 3, 0);
    assert!((triangle_area_sum(&buffers) - 3600.0).abs() <= 0.01);
}

#[test]
fn open_segment_stroke_has_no_closing_join() {
    let mut t = PathTranslator::new();
    t.move_to(0, 0);
    t.line_to(100, 0).unwrap();
    let path = t.finish();
    let mut buffers: VertexBuffers<lyon::math::Point, u16> = VertexBuffers::new();
    StrokeTessellator::new()
        .tessellate(
            &to_lyon(&path),
            &StrokeOptions::tolerance(0.01).with_line_width(10.0),
            &mut simple_builder(&mut buffers),
        )
        .unwrap();
    // one quad along the segment, butt caps at both ends
    assert_eq!(buffers.indices.len(), 6);
    assert!(buffers.vertices.iter().all(|v| v.y.abs() <= 5.0 + 1e-4));
}

#[test]
fn tessellated_glyphs_assemble_into_one_mesh() {
    let mut t = PathTranslator::with_close_policy(ClosePolicy::ExplicitEdge);
    t.move_to(0, 0);
    t.line_to(4, 0).unwrap();
    t.line_to(4, 4).unwrap();
    t.close().unwrap();
    let triangle = t.finish();
    let mut fragments: Vec<Mesh<lyon::math::Point>> = Vec::new();
    for path in [&triangle, &Path::empty(), &triangle] {
        let mesh = match blank_glyph_mesh(path) {
            Some(m) => m,
            None => {
                let b = fill(path, 0.01);
                Mesh::from_buffers(b.vertices, b.indices).unwrap()
            }
        };
        fragments.push(mesh);
    }
    let first = fragments[0].vertex_count();
    let merged = assemble(fragments).unwrap();
    assert_eq!(merged.vertex_count(), 2 * first);
    assert_eq!(merged.triangle_count(), 2);
    assert!(merged.indices()[3..].iter().all(|&i| i as usize >= first));
}
