//! Text-to-triangles pipeline: glyph outlines become paths, glyphs are laid
//! out along a cursor, and per-glyph triangle batches are merged into one
//! mesh with rebased indices.
pub mod path;
pub mod outline;
pub mod mesh;
pub mod layout;
pub mod shaping;
pub mod vertex;
