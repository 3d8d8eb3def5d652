use glyph_mesh::mesh::{
    assemble, blank_glyph_mesh, split_fragments, AssembleError, Mesh, MeshAssembler, MeshError,
    MAX_VERTICES,
};
use glyph_mesh::outline::{translate_outline, ClosePolicy};
use glyph_mesh::path::{Path, PathSegment, Point};
use glyph_mesh::vertex::StrokeCounter;

fn fragment(n: usize, indices: Vec<u16>) -> Mesh<usize> {
    Mesh::from_buffers((0..n).collect(), indices).unwrap()
}

#[test]
fn from_buffers_checks_indices() {
    assert!(matches!(
        Mesh::from_buffers(vec![0u8, 1, 2], vec![0, 1, 3]),
        Err(MeshError::IndexOutOfRange)
    ));
    assert!(matches!(
        Mesh::from_buffers(vec![0u8, 1, 2], vec![0, 1]),
        Err(MeshError::IncompleteTriangle)
    ));
    let m = Mesh::from_buffers(vec![0u8, 1, 2, 3], vec![0, 1, 2, 2, 3, 0]).unwrap();
    assert_eq!(m.vertex_count(), 4);
    assert_eq!(m.triangle_count(), 2);
    let (v, i) = m.into_buffers();
    assert_eq!(v, vec![0u8, 1, 2, 3]);
    assert_eq!(i, vec![0, 1, 2, 2, 3, 0]);
}

#[test]
fn assemble_rebases_each_fragment() {
    let a = fragment(3, vec![0, 1, 2]);
    let b = fragment(4, vec![0, 1, 2, 0, 2, 3]);
    let c = fragment(3, vec![2, 1, 0]);
    let m = assemble(vec![a, b, c]).unwrap();
    assert_eq!(m.vertices(), &[0, 1, 2, 0, 1, 2, 3, 0, 1, 2]);
    assert_eq!(m.indices(), &[0, 1, 2, 3, 4, 5, 3, 5, 6, 9, 8, 7]);
}

#[test]
fn assemble_keeps_every_prefix_in_range() {
    let frags = vec![
        fragment(3, vec![2, 0, 1]),
        fragment(0, vec![]),
        fragment(5, vec![4, 3, 2, 1, 0, 4]),
        fragment(3, vec![0, 0, 2]),
    ];
    let mut merger = MeshAssembler::new();
    for f in frags {
        merger.append(f).unwrap();
        let count = merger.vertex_count();
        let merged = merger.finish();
        assert!(merged.indices().iter().all(|&i| (i as usize) < count));
        let (v, i) = merged.into_buffers();
        merger = MeshAssembler::new();
        merger.append(Mesh::from_buffers(v, i).unwrap()).unwrap();
    }
    assert_eq!(merger.vertex_count(), 11);
}

#[test]
fn assemble_of_nothing_is_empty() {
    let m = assemble(Vec::<Mesh<u8>>::new()).unwrap();
    assert_eq!(m.vertex_count(), 0);
    assert_eq!(m.triangle_count(), 0);
}

#[test]
fn assemble_fills_the_index_range_exactly() {
    let a = fragment(MAX_VERTICES - 3, vec![0, 1, 2]);
    let b = fragment(3, vec![0, 1, 2]);
    let m = assemble(vec![a, b]).unwrap();
    assert_eq!(m.vertex_count(), 65536);
    assert_eq!(&m.indices()[3..], &[65533, 65534, 65535]);
}

#[test]
fn assemble_overflow_fails_fast() {
    let a = fragment(MAX_VERTICES - 2, vec![0, 1, 2]);
    let b = fragment(3, vec![0, 1, 2]);
    assert!(matches!(assemble(vec![a, b]), Err(AssembleError::IndexOverflow)));
}

#[test]
fn append_overflow_leaves_merge_untouched() {
    let mut merger = MeshAssembler::new();
    merger.append(fragment(60000, vec![0, 1, 2])).unwrap();
    assert_eq!(merger.append(fragment(6000, vec![0, 1, 2])), Err(AssembleError::IndexOverflow));
    assert_eq!(merger.vertex_count(), 60000);
    merger.append(fragment(5536, vec![5535, 0, 1])).unwrap();
    let m = merger.finish();
    assert_eq!(&m.indices()[3..], &[65535, 60000, 60001]);
}

#[test]
fn empty_path_short_circuits_to_empty_mesh() {
    let m: Mesh<u8> = blank_glyph_mesh(&Path::empty()).unwrap();
    assert_eq!(m.vertex_count(), 0);
    assert_eq!(m.indices().len(), 0);
    let drawn = translate_outline(
        &[PathSegment::MoveTo(Point { x: 0, y: 0 }), PathSegment::LineTo(Point { x: 1, y: 0 })],
        ClosePolicy::Marker,
    )
    .unwrap();
    assert!(blank_glyph_mesh::<u8>(&drawn).is_none());
}

#[test]
fn stroke_counter_numbers_from_one() {
    let mut c = StrokeCounter::new();
    assert_eq!(c.next_value(), 1);
    assert_eq!(c.next_value(), 2);
    assert_eq!(c.next_value(), 3);
    let mut fresh = StrokeCounter::new();
    assert_eq!(fresh.next_value(), 1);
}

#[test]
fn split_fragments_keeps_successes_and_reports_failures() {
    let results: Vec<Result<Mesh<usize>, &str>> = vec![
        Ok(fragment(3, vec![0, 1, 2])),
        Err("degenerate"),
        Ok(fragment(4, vec![3, 2, 1])),
        Err("tolerance"),
    ];
    let (kept, failed) = split_fragments(results);
    assert_eq!(kept.len(), 2);
    assert_eq!(kept[0].vertex_count(), 3);
    assert_eq!(kept[1].vertex_count(), 4);
    assert_eq!(failed, vec![(1, "degenerate"), (3, "tolerance")]);
    let merged = assemble(kept).unwrap();
    assert_eq!(merged.indices(), &[0, 1, 2, 6, 5, 4]);
}

#[test]
fn split_fragments_of_nothing() {
    let (kept, failed) = split_fragments(Vec::<Result<Mesh<u8>, ()>>::new());
    assert!(kept.is_empty());
    assert!(failed.is_empty());
}
