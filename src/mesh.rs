//! Triangle meshes with 16-bit indices, and their assembly from per-glyph
//! fragments by index rebasing.
use vstd::prelude::*;
use crate::path::Path;

verus! {

/// The most vertices one mesh may hold: every index must fit in 16 bits.
pub const MAX_VERTICES: usize = 65536;

/// Why a mesh could not be built from buffers.
#[derive(Clone, Copy, Debug, PartialEq, Eq, Structural)]
pub enum MeshError {
    /// Some index names no vertex of the buffer.
    IndexOutOfRange,
    /// The index count is not a multiple of three.
    IncompleteTriangle,
}

/// Why fragments could not be merged into one mesh.
#[derive(Clone, Copy, Debug, PartialEq, Eq, Structural)]
pub enum AssembleError {
    /// The merged mesh would hold more than `MAX_VERTICES` vertices.
    IndexOverflow,
}

/// Every index of `idx` is below `n`.
pub open spec fn indices_below(idx: Seq<u16>, n: int) -> bool {
    forall|i: int| 0 <= i < idx.len() ==> (#[trigger] idx[i] as int) < n
}

/// The indices as mathematical integers.
pub open spec fn as_ints(idx: Seq<u16>) -> Seq<int> {
    idx.map_values(|i: u16| i as int)
}

/// The indices shifted by `offset`.
pub open spec fn rebased(idx: Seq<u16>, offset: int) -> Seq<int> {
    idx.map_values(|i: u16| i as int + offset)
}

/// A triangle list: vertices, and three indices into them per triangle.
pub struct Mesh<V> {
    vertices: Vec<V>,
    indices: Vec<u16>,
}

impl<V> Mesh<V> {
    /// The vertex buffer.
    pub closed spec fn vertex_seq(&self) -> Seq<V> {
        self.vertices@
    }

    /// The index buffer, three entries per triangle.
    pub closed spec fn index_seq(&self) -> Seq<u16> {
        self.indices@
    }

    /// Every index names a vertex, and the indices form whole triangles.
    pub open spec fn wf(&self) -> bool {
        &&& indices_below(self.index_seq(), self.vertex_seq().len() as int)
        &&& self.index_seq().len() % 3 == 0
    }

    /// The mesh with no vertex and no triangle.
    pub fn new() -> (r: Mesh<V>)
        ensures
            r.wf(),
            r.vertex_seq() == Seq::<V>::empty(),
            r.index_seq() == Seq::<u16>::empty(),
    {
        Mesh { vertices: Vec::new(), indices: Vec::new() }
    }

    /// A mesh from a vertex buffer and an index buffer that starts at vertex 0.
    pub fn from_buffers(vertices: Vec<V>, indices: Vec<u16>) -> (r: Result<Mesh<V>, MeshError>)
        ensures
            !indices_below(indices@, vertices@.len() as int) ==> r == Err::<Mesh<V>, MeshError>(
                MeshError::IndexOutOfRange,
            ),
            indices_below(indices@, vertices@.len() as int) && indices@.len() % 3 != 0 ==> r
                == Err::<Mesh<V>, MeshError>(MeshError::IncompleteTriangle),
            r is Ok <==> indices_below(indices@, vertices@.len() as int) && indices@.len() % 3 == 0,
            r is Ok ==> r->Ok_0.vertex_seq() == vertices@ && r->Ok_0.index_seq() == indices@
                && r->Ok_0.wf(),
    {
        let mut i: usize = 0;
        while i < indices.len()
            invariant
                i <= indices@.len(),
                indices_below(indices@.take(i as int), vertices@.len() as int),
            decreases indices@.len() - i,
        {
            if indices[i] as usize >= vertices.len() {
                return Err(MeshError::IndexOutOfRange);
            }
            assert(indices_below(indices@.take(i + 1), vertices@.len() as int)) by {
                assert forall|j: int| 0 <= j < i + 1 implies (#[trigger] indices@.take(i + 1)[j] as int)
                    < vertices@.len() by {
                    if j < i {
                        assert(indices@.take(i + 1)[j] == indices@.take(i as int)[j]);
                    }
                }
            }
            i = i + 1;
        }
        assert(indices@.take(indices@.len() as int) =~= indices@);
        if indices.len() % 3 != 0 {
            return Err(MeshError::IncompleteTriangle);
        }
        Ok(Mesh { vertices, indices })
    }

    /// The number of vertices.
    pub fn vertex_count(&self) -> (r: usize)
        ensures
            r == self.vertex_seq().len(),
    {
        self.vertices.len()
    }

    /// The number of triangles.
    pub fn triangle_count(&self) -> (r: usize)
        ensures
            r == self.index_seq().len() / 3,
    {
        self.indices.len() / 3
    }

    /// The vertex buffer.
    pub fn vertices(&self) -> (r: &[V])
        ensures
            r@ == self.vertex_seq(),
    {
        self.vertices.as_slice()
    }

    /// The index buffer.
    pub fn indices(&self) -> (r: &[u16])
        ensures
            r@ == self.index_seq(),
    {
        self.indices.as_slice()
    }

    /// The two buffers, handed over to the caller.
    pub fn into_buffers(self) -> (r: (Vec<V>, Vec<u16>))
        ensures
            r.0@ == self.vertex_seq(),
            r.1@ == self.index_seq(),
    {
        (self.vertices, self.indices)
    }
}

/// The mesh that stands for a glyph without tessellating it, if there is one:
/// a path with no segment gives the empty mesh, and any other path gives
/// `None`, to be tessellated.
pub fn blank_glyph_mesh<V>(path: &Path) -> (r: Option<Mesh<V>>)
    ensures
        r is Some <==> path@.len() == 0,
        r is Some ==> r->Some_0.wf() && r->Some_0.vertex_seq().len() == 0
            && r->Some_0.index_seq().len() == 0,
{
    if path.is_empty() {
        Some(Mesh::new())
    } else {
        None
    }
}

/// The vertices of the fragments, one after another.
pub open spec fn combined_vertices<V>(frags: Seq<Mesh<V>>) -> Seq<V>
    decreases frags.len(),
{
    if frags.len() == 0 {
        Seq::empty()
    } else {
        combined_vertices(frags.drop_last()) + frags.last().vertex_seq()
    }
}

/// The indices of the fragments, one after another, each fragment's shifted by
/// the number of vertices before it.
pub open spec fn combined_indices<V>(frags: Seq<Mesh<V>>) -> Seq<int>
    decreases frags.len(),
{
    if frags.len() == 0 {
        Seq::empty()
    } else {
        combined_indices(frags.drop_last()) + rebased(
            frags.last().index_seq(),
            combined_vertices(frags.drop_last()).len() as int,
        )
    }
}

/// Every fragment is a well-formed mesh.
pub open spec fn all_wf<V>(frags: Seq<Mesh<V>>) -> bool {
    forall|i: int| 0 <= i < frags.len() ==> (#[trigger] frags[i]).wf()
}

/// A prefix of the fragments never holds more vertices than all of them.
pub proof fn lemma_combined_vertices_prefix<V>(frags: Seq<Mesh<V>>, k: int)
    requires
        0 <= k <= frags.len(),
    ensures
        combined_vertices(frags.take(k)).len() <= combined_vertices(frags).len(),
    decreases frags.len(),
{
    if k < frags.len() {
        assert(frags.drop_last().take(k) =~= frags.take(k));
        lemma_combined_vertices_prefix(frags.drop_last(), k);
    } else {
        assert(frags.take(k) =~= frags);
    }
}

/// Merged well-formed fragments index only vertices that the merge holds.
pub proof fn lemma_combined_indices_in_range<V>(frags: Seq<Mesh<V>>)
    requires
        all_wf(frags),
    ensures
        forall|j: int|
            0 <= j < combined_indices(frags).len() ==> 0 <= #[trigger] combined_indices(frags)[j]
                < combined_vertices(frags).len(),
    decreases frags.len(),
{
    if frags.len() > 0 {
        let init = frags.drop_last();
        assert(all_wf(init)) by {
            assert forall|i: int| 0 <= i < init.len() implies (#[trigger] init[i]).wf() by {
                assert(init[i] == frags[i]);
            }
        }
        lemma_combined_indices_in_range(init);
        assert(frags.last().wf()) by {
            assert(frags[frags.len() - 1].wf());
        }
        let a = combined_indices(init);
        let b = rebased(frags.last().index_seq(), combined_vertices(init).len() as int);
        assert forall|j: int| 0 <= j < combined_indices(frags).len() implies 0
            <= #[trigger] combined_indices(frags)[j] < combined_vertices(frags).len() by {
            if j < a.len() {
                assert(combined_indices(frags)[j] == a[j]);
            } else {
                assert(combined_indices(frags)[j] == b[j - a.len()]);
                assert((frags.last().index_seq()[j - a.len()] as int) < frags.last().vertex_seq().len());
            }
        }
    }
}

/// Prefix safety of merging: after the first `k` fragments of any sequence of
/// well-formed fragments have been merged, no merged index reaches the merged
/// vertex count.
pub proof fn lemma_merge_prefix_safe<V>(frags: Seq<Mesh<V>>, k: int)
    requires
        all_wf(frags),
        0 <= k <= frags.len(),
    ensures
        forall|j: int|
            0 <= j < combined_indices(frags.take(k)).len() ==> 0
                <= #[trigger] combined_indices(frags.take(k))[j] < combined_vertices(
                frags.take(k),
            ).len(),
{
    let p = frags.take(k);
    assert(all_wf(p)) by {
        assert forall|i: int| 0 <= i < p.len() implies (#[trigger] p[i]).wf() by {
            assert(p[i] == frags[i]);
        }
    }
    lemma_combined_indices_in_range(p);
}

/// Merges per-glyph fragments, in order, into one mesh.
///
/// Holds the merge of the fragments appended so far; its vertex count is the
/// offset by which the next fragment's indices are shifted.
pub struct MeshAssembler<V> {
    mesh: Mesh<V>,
}

impl<V> MeshAssembler<V> {
    /// The merged mesh so far.
    pub closed spec fn merged(&self) -> Mesh<V> {
        self.mesh
    }

    /// The merge is a well-formed mesh whose indices all fit in 16 bits.
    pub open spec fn wf(&self) -> bool {
        &&& self.merged().wf()
        &&& self.merged().vertex_seq().len() <= MAX_VERTICES
    }

    /// An assembler that holds nothing yet.
    pub fn new() -> (r: MeshAssembler<V>)
        ensures
            r.wf(),
            r.merged().vertex_seq() == Seq::<V>::empty(),
            r.merged().index_seq() == Seq::<u16>::empty(),
    {
        MeshAssembler { mesh: Mesh::new() }
    }

    /// The number of vertices merged so far.
    pub fn vertex_count(&self) -> (r: usize)
        ensures
            r == self.merged().vertex_seq().len(),
    {
        self.mesh.vertex_count()
    }

    /// Appends a fragment: its vertices unchanged, its indices shifted by the
    /// number of vertices merged before it. Fails, changing nothing, when the
    /// merge would exceed `MAX_VERTICES` vertices.
    pub fn append(&mut self, fragment: Mesh<V>) -> (r: Result<(), AssembleError>)
        requires
            old(self).wf(),
            fragment.wf(),
        ensures
            final(self).wf(),
            r is Ok <==> old(self).merged().vertex_seq().len() + fragment.vertex_seq().len()
                <= MAX_VERTICES,
            r is Err ==> r == Err::<(), AssembleError>(AssembleError::IndexOverflow)
                && final(self).merged() == old(self).merged(),
            r is Ok ==> final(self).merged().vertex_seq() == old(self).merged().vertex_seq()
                + fragment.vertex_seq() && as_ints(final(self).merged().index_seq()) == as_ints(
                old(self).merged().index_seq(),
            ) + rebased(fragment.index_seq(), old(self).merged().vertex_seq().len() as int),
    {
        let offset = self.mesh.vertices.len();
        if fragment.vertices.len() > MAX_VERTICES - offset {
            return Err(AssembleError::IndexOverflow);
        }
        let ghost old_idx = self.mesh.indices@;
        let ghost old_verts = self.mesh.vertices@;
        let mut frag = fragment;
        let n = frag.indices.len();
        let mut j: usize = 0;
        while j < n
            invariant
                j <= n,
                n == frag.indices@.len(),
                frag == fragment,
                offset + frag.vertices@.len() <= MAX_VERTICES,
                self.mesh.vertices@ == old_verts,
                old_verts.len() == offset,
                indices_below(frag.indices@, frag.vertices@.len() as int),
                self.mesh.indices@ == old_idx + frag.indices@.take(j as int).map_values(
                    |i: u16| (i as int + offset) as u16,
                ),
            decreases n - j,
        {
            let k = frag.indices[j];
            assert((k as int) < frag.vertices@.len());
            self.mesh.indices.push(k + offset as u16);
            assert(frag.indices@.take(j + 1) =~= frag.indices@.take(j as int).push(k));
            assert(self.mesh.indices@ =~= old_idx + frag.indices@.take(j + 1).map_values(
                |i: u16| (i as int + offset) as u16,
            ));
            j = j + 1;
        }
        assert(frag.indices@.take(n as int) =~= frag.indices@);
        let ghost new_idx = self.mesh.indices@;
        assert(as_ints(new_idx) =~= as_ints(old_idx) + rebased(fragment.index_seq(), offset as int)) by {
            assert forall|t: int| 0 <= t < new_idx.len() implies #[trigger] as_ints(new_idx)[t] == (
            as_ints(old_idx) + rebased(fragment.index_seq(), offset as int))[t] by {
                if t >= old_idx.len() {
                    let u = t - old_idx.len();
                    assert((fragment.index_seq()[u] as int) < fragment.vertex_seq().len());
                }
            }
        }
        assert(indices_below(new_idx, (offset + fragment.vertex_seq().len()) as int)) by {
            assert forall|t: int| 0 <= t < new_idx.len() implies (#[trigger] new_idx[t] as int) < offset
                + fragment.vertex_seq().len() by {
                if t >= old_idx.len() {
                    let u = t - old_idx.len();
                    assert((fragment.index_seq()[u] as int) < fragment.vertex_seq().len());
                }
            }
        }
        self.mesh.vertices.append(&mut frag.vertices);
        assert(self.mesh.vertices@ == old_verts + fragment.vertex_seq());
        assert(self.mesh.indices@ == new_idx);
        Ok(())
    }

    /// The merged mesh.
    pub fn finish(self) -> (r: Mesh<V>)
        requires
            self.wf(),
        ensures
            r == self.merged(),
            r.wf(),
    {
        self.mesh
    }
}

/// Merges fragments, in order, into one mesh.
///
/// Succeeds exactly when the merge holds at most `MAX_VERTICES` vertices; the
/// mesh then holds `combined_vertices` and `combined_indices` of the fragments.
pub fn assemble<V>(mut fragments: Vec<Mesh<V>>) -> (r: Result<Mesh<V>, AssembleError>)
    requires
        all_wf(fragments@),
    ensures
        r is Ok <==> combined_vertices(fragments@).len() <= MAX_VERTICES,
        r is Err ==> r == Err::<Mesh<V>, AssembleError>(AssembleError::IndexOverflow),
        r is Ok ==> r->Ok_0.wf() && r->Ok_0.vertex_seq() == combined_vertices(fragments@) && as_ints(
            r->Ok_0.index_seq(),
        ) == combined_indices(fragments@),
{
    let ghost all = fragments@;
    let total = fragments.len();
    let mut merger: MeshAssembler<V> = MeshAssembler::new();
    let mut i: usize = 0;
    assert(as_ints(merger.merged().index_seq()) =~= Seq::<int>::empty());
    #[verifier::loop_isolation(false)]
    while fragments.len() > 0
        invariant
            i + fragments@.len() == all.len(),
            total == all.len(),
            fragments@ == all.skip(i as int),
            all_wf(all),
            merger.wf(),
            merger.merged().vertex_seq() == combined_vertices(all.take(i as int)),
            as_ints(merger.merged().index_seq()) == combined_indices(all.take(i as int)),
        decreases fragments@.len(),
    {
        let frag = fragments.remove(0);
        assert(frag == all[i as int]);
        assert(all[i as int].wf());
        let ghost before = merger.merged();
        let ghost next = all.take(i + 1);
        assert(next.drop_last() =~= all.take(i as int));
        assert(next.last() == frag);
        match merger.append(frag) {
            Ok(()) => {},
            Err(e) => {
                proof {
                    assert(combined_vertices(next) == combined_vertices(all.take(i as int))
                        + frag.vertex_seq());
                    assert(combined_vertices(next).len() > MAX_VERTICES);
                    lemma_combined_vertices_prefix(all, i + 1);
                    assert(combined_vertices(all).len() > MAX_VERTICES);
                }
                return Err(e);
            },
        }
        i = i + 1;
        assert(fragments@ =~= all.skip(i as int));
    }
    assert(all.take(i as int) =~= all);
    Ok(merger.finish())
}

/// Merging two fragments gives the vertices of `a` then those of `b`, and
/// the indices of `a` then those of `b`, each of the latter shifted by the
/// vertex count of `a`.
pub proof fn lemma_merge_two<V>(a: Mesh<V>, b: Mesh<V>)
    ensures
        combined_vertices(seq![a, b]) == a.vertex_seq() + b.vertex_seq(),
        combined_indices(seq![a, b]) == as_ints(a.index_seq()) + rebased(
            b.index_seq(),
            a.vertex_seq().len() as int,
        ),
{
    let one = seq![a];
    let two = seq![a, b];
    let none = Seq::<Mesh<V>>::empty();
    assert(two.drop_last() =~= one);
    assert(one.drop_last() =~= none);
    assert(two.last() == b);
    assert(one.last() == a);
    assert(combined_vertices(none) == Seq::<V>::empty());
    assert(combined_indices(none) == Seq::<int>::empty());
    assert(combined_vertices(one) =~= a.vertex_seq());
    assert(combined_indices(one) =~= as_ints(a.index_seq()));
}

/// The fragments of the results that succeeded, in order.
pub open spec fn succeeded<V, E>(results: Seq<Result<Mesh<V>, E>>) -> Seq<Mesh<V>>
    decreases results.len(),
{
    if results.len() == 0 {
        Seq::empty()
    } else {
        succeeded(results.drop_last()) + match results.last() {
            Ok(m) => seq![m],
            Err(_) => Seq::empty(),
        }
    }
}

/// The position and error of each result that failed, in order.
pub open spec fn failures<V, E>(results: Seq<Result<Mesh<V>, E>>) -> Seq<(usize, E)>
    decreases results.len(),
{
    if results.len() == 0 {
        Seq::empty()
    } else {
        failures(results.drop_last()) + match results.last() {
            Ok(_) => Seq::empty(),
            Err(e) => seq![((results.len() - 1) as usize, e)],
        }
    }
}

/// Every fragment among the results is a well-formed mesh.
pub open spec fn successes_wf<V, E>(results: Seq<Result<Mesh<V>, E>>) -> bool {
    forall|i: int| 0 <= i < results.len() && (#[trigger] results[i]) is Ok ==> results[i]->Ok_0.wf()
}

/// Sorts per-glyph tessellation results, given in glyph order: the fragments
/// that succeeded, still in glyph order and ready to merge, and the failures
/// with the position of their glyph, to be reported. A failure takes nothing
/// from the other glyphs.
pub fn split_fragments<V, E>(mut results: Vec<Result<Mesh<V>, E>>) -> (r: (
    Vec<Mesh<V>>,
    Vec<(usize, E)>,
))
    requires
        successes_wf(results@),
    ensures
        r.0@ == succeeded(results@),
        r.1@ == failures(results@),
        all_wf(r.0@),
{
    let ghost all = results@;
    let total = results.len();
    let mut kept: Vec<Mesh<V>> = Vec::new();
    let mut failed: Vec<(usize, E)> = Vec::new();
    let mut i: usize = 0;
    assert(all.take(0) =~= Seq::<Result<Mesh<V>, E>>::empty());
    #[verifier::loop_isolation(false)]
    while results.len() > 0
        invariant
            i + results@.len() == all.len(),
            total == all.len(),
            results@ == all.skip(i as int),
            successes_wf(all),
            all_wf(kept@),
            kept@ == succeeded(all.take(i as int)),
            failed@ == failures(all.take(i as int)),
        decreases results@.len(),
    {
        let item = results.remove(0);
        assert(item == all[i as int]);
        let ghost next = all.take(i + 1);
        assert(next.drop_last() =~= all.take(i as int));
        assert(next.last() == item);
        assert(next.len() - 1 == i);
        match item {
            Ok(m) => {
                assert(all[i as int] is Ok);
                let ghost before = kept@;
                kept.push(m);
                assert(all_wf(kept@)) by {
                    assert forall|k: int| 0 <= k < kept@.len() implies (#[trigger] kept@[k]).wf() by {
                        if k < before.len() {
                            assert(kept@[k] == before[k]);
                        }
                    }
                }
                assert(kept@ =~= succeeded(next));
                assert(failed@ =~= failures(next));
            },
            Err(e) => {
                failed.push((i, e));
                assert(kept@ =~= succeeded(next));
                assert(failed@ =~= failures(next));
            },
        }
        i = i + 1;
        assert(results@ =~= all.skip(i as int));
    }
    assert(all.take(i as int) =~= all);
    (kept, failed)
}

} // verus!
