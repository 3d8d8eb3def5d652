//! Points, path segments and immutable paths.
use vstd::prelude::*;

verus! {

/// A point with integer coordinates: font units, or a fixed fraction of a
/// font unit where outlines need finer positions.
#[derive(Clone, Copy, Debug, PartialEq, Eq, Structural)]
pub struct Point {
    pub x: i64,
    pub y: i64,
}

/// One element of a path: each variant but `Close` carries its end point.
#[derive(Clone, Copy, Debug, PartialEq, Eq, Structural)]
pub enum PathSegment {
    MoveTo(Point),
    LineTo(Point),
    QuadTo(Point, Point),
    CubicTo(Point, Point, Point),
    Close,
}

/// Whether a subpath is being drawn, and if so where its pen is and where it began.
#[derive(Clone, Copy, Debug, PartialEq, Eq, Structural)]
pub enum SubpathState {
    NoSubpath,
    InSubpath { current: Point, start: Point },
}

/// The state that one segment leads to from state `s`.
pub open spec fn step(s: SubpathState, seg: PathSegment) -> SubpathState {
    match seg {
        PathSegment::MoveTo(p) => SubpathState::InSubpath { current: p, start: p },
        PathSegment::Close => SubpathState::NoSubpath,
        PathSegment::LineTo(p) | PathSegment::QuadTo(_, p) | PathSegment::CubicTo(_, _, p) => {
            match s {
                SubpathState::NoSubpath => SubpathState::NoSubpath,
                SubpathState::InSubpath { start, .. } => SubpathState::InSubpath {
                    current: p,
                    start,
                },
            }
        },
    }
}

/// The state after drawing `segs` from the start.
pub open spec fn state_after(segs: Seq<PathSegment>) -> SubpathState
    decreases segs.len(),
{
    if segs.len() == 0 {
        SubpathState::NoSubpath
    } else {
        step(state_after(segs.drop_last()), segs.last())
    }
}

/// A segment other than `MoveTo` needs a subpath to be open.
pub open spec fn segment_allowed(s: SubpathState, seg: PathSegment) -> bool {
    seg is MoveTo || s is InSubpath
}

/// Every segment of `segs` is allowed in the state its predecessors lead to.
pub open spec fn segments_well_formed(segs: Seq<PathSegment>) -> bool {
    forall|i: int| 0 <= i < segs.len() ==> #[trigger] segment_allowed(state_after(segs.take(i)), segs[i])
}

/// The edges a segment draws from state `s`, as (from, to) pairs. A `Close`
/// draws the edge back to the subpath's start unless the pen is already there.
pub open spec fn segment_edges(s: SubpathState, seg: PathSegment) -> Seq<(Point, Point)> {
    match s {
        SubpathState::NoSubpath => Seq::empty(),
        SubpathState::InSubpath { current, start } => match seg {
            PathSegment::MoveTo(_) => Seq::empty(),
            PathSegment::LineTo(p) | PathSegment::QuadTo(_, p) | PathSegment::CubicTo(_, _, p) => seq![(current, p)],
            PathSegment::Close => if current == start {
                Seq::empty()
            } else {
                seq![(current, start)]
            },
        },
    }
}

/// All edges that drawing `segs` traces, in order.
pub open spec fn edges_of(segs: Seq<PathSegment>) -> Seq<(Point, Point)>
    decreases segs.len(),
{
    if segs.len() == 0 {
        Seq::empty()
    } else {
        edges_of(segs.drop_last()) + segment_edges(state_after(segs.drop_last()), segs.last())
    }
}

/// Appending one segment steps the state once.
pub proof fn lemma_state_after_push(segs: Seq<PathSegment>, seg: PathSegment)
    ensures
        state_after(segs.push(seg)) == step(state_after(segs), seg),
        edges_of(segs.push(seg)) == edges_of(segs) + segment_edges(state_after(segs), seg),
{
    assert(segs.push(seg).drop_last() =~= segs);
}

/// Appending an allowed segment keeps a sequence well formed.
pub proof fn lemma_well_formed_push(segs: Seq<PathSegment>, seg: PathSegment)
    requires
        segments_well_formed(segs),
        segment_allowed(state_after(segs), seg),
    ensures
        segments_well_formed(segs.push(seg)),
{
    let t = segs.push(seg);
    assert forall|i: int| 0 <= i < t.len() implies #[trigger] segment_allowed(state_after(t.take(i)), t[i]) by {
        if i < segs.len() {
            assert(t.take(i) =~= segs.take(i));
            assert(segment_allowed(state_after(segs.take(i)), segs[i]));
        } else {
            assert(t.take(i) =~= segs);
        }
    }
}

/// An immutable sequence of segments in which no segment draws before a `MoveTo`.
pub struct Path {
    segments: Vec<PathSegment>,
}

impl View for Path {
    type V = Seq<PathSegment>;

    closed spec fn view(&self) -> Seq<PathSegment> {
        self.segments@
    }
}

impl Path {
    /// The well-formedness every path carries.
    pub open spec fn wf(&self) -> bool {
        segments_well_formed(self@)
    }

    /// The path with no segments: the outline of a blank glyph.
    pub fn empty() -> (r: Path)
        ensures
            r@ == Seq::<PathSegment>::empty(),
            r.wf(),
    {
        Path { segments: Vec::new() }
    }

    pub(crate) fn from_segments(segments: Vec<PathSegment>) -> (r: Path)
        requires
            segments_well_formed(segments@),
        ensures
            r@ == segments@,
            r.wf(),
    {
        Path { segments }
    }

    /// The segments, in drawing order.
    pub fn segments(&self) -> (r: &[PathSegment])
        ensures
            r@ == self@,
    {
        self.segments.as_slice()
    }

    /// The number of segments.
    pub fn len(&self) -> (r: usize)
        ensures
            r == self@.len(),
    {
        self.segments.len()
    }

    /// Whether the path has no segment at all.
    pub fn is_empty(&self) -> (r: bool)
        ensures
            r == (self@.len() == 0),
    {
        self.segments.len() == 0
    }
}

} // verus!
