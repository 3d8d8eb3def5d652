//! Turning a font's outline event stream into a path, through an explicit
//! subpath state machine.
use vstd::prelude::*;
use crate::path::{
    edges_of, lemma_state_after_push, lemma_well_formed_push, segment_allowed,
    segments_well_formed, state_after, step, Path, PathSegment, Point, SubpathState,
};

verus! {

/// What `close` writes into the path.
#[derive(Clone, Copy, Debug, PartialEq, Eq, Structural)]
pub enum ClosePolicy {
    /// A `LineTo` back to the subpath's start (when the pen is elsewhere), then `Close`.
    ExplicitEdge,
    /// `Close` alone; the consumer of the path draws the closing edge.
    Marker,
}

/// Why an outline could not be turned into a path.
#[derive(Clone, Copy, Debug, PartialEq, Eq, Structural)]
pub enum OutlineError {
    /// A segment or a `close` came while no subpath was open.
    MalformedOutline,
}

/// The segments that outline event `ev` adds to the path in state `s`.
pub open spec fn emitted(s: SubpathState, ev: PathSegment, policy: ClosePolicy) -> Seq<PathSegment> {
    if !segment_allowed(s, ev) {
        Seq::empty()
    } else {
        match ev {
            PathSegment::Close => match s {
                SubpathState::InSubpath { current, start } => if policy == ClosePolicy::ExplicitEdge
                    && current != start {
                    seq![PathSegment::LineTo(start), PathSegment::Close]
                } else {
                    seq![PathSegment::Close]
                },
                SubpathState::NoSubpath => Seq::empty(),
            },
            _ => seq![ev],
        }
    }
}

/// The path that the event stream `events` translates to under `policy`.
pub open spec fn translated(events: Seq<PathSegment>, policy: ClosePolicy) -> Seq<PathSegment>
    decreases events.len(),
{
    if events.len() == 0 {
        Seq::empty()
    } else {
        translated(events.drop_last(), policy) + emitted(
            state_after(events.drop_last()),
            events.last(),
            policy,
        )
    }
}

/// Builds a path from outline events, rejecting those that need an open
/// subpath when none is open.
pub struct PathTranslator {
    segments: Vec<PathSegment>,
    state: SubpathState,
    policy: ClosePolicy,
}

impl View for PathTranslator {
    type V = Seq<PathSegment>;

    closed spec fn view(&self) -> Seq<PathSegment> {
        self.segments@
    }
}

impl PathTranslator {
    /// The policy that `close` follows.
    pub closed spec fn close_policy(&self) -> ClosePolicy {
        self.policy
    }

    /// The segments so far form a well-formed path, and the tracked state is
    /// the one they lead to.
    pub closed spec fn wf(&self) -> bool {
        &&& segments_well_formed(self.segments@)
        &&& self.state == state_after(self.segments@)
    }

    /// An empty translator whose `close` writes a bare `Close`.
    pub fn new() -> (r: PathTranslator)
        ensures
            r.wf(),
            r@ == Seq::<PathSegment>::empty(),
            r.close_policy() == ClosePolicy::Marker,
    {
        PathTranslator::with_close_policy(ClosePolicy::Marker)
    }

    /// An empty translator whose `close` follows `policy`.
    pub fn with_close_policy(policy: ClosePolicy) -> (r: PathTranslator)
        ensures
            r.wf(),
            r@ == Seq::<PathSegment>::empty(),
            r.close_policy() == policy,
    {
        PathTranslator { segments: Vec::new(), state: SubpathState::NoSubpath, policy }
    }

    /// Where the pen is, if a subpath is open.
    pub fn state(&self) -> (r: SubpathState)
        requires
            self.wf(),
        ensures
            r == state_after(self@),
    {
        self.state
    }

    fn push(&mut self, seg: PathSegment)
        requires
            old(self).wf(),
            segment_allowed(state_after(old(self)@), seg),
        ensures
            final(self).wf(),
            final(self)@ == old(self)@.push(seg),
            final(self).close_policy() == old(self).close_policy(),
    {
        proof {
            lemma_state_after_push(self.segments@, seg);
            lemma_well_formed_push(self.segments@, seg);
        }
        self.state = match seg {
            PathSegment::MoveTo(p) => SubpathState::InSubpath { current: p, start: p },
            PathSegment::Close => SubpathState::NoSubpath,
            PathSegment::LineTo(p) | PathSegment::QuadTo(_, p) | PathSegment::CubicTo(_, _, p) => {
                match self.state {
                    SubpathState::NoSubpath => SubpathState::NoSubpath,
                    SubpathState::InSubpath { start, .. } => SubpathState::InSubpath {
                        current: p,
                        start,
                    },
                }
            },
        };
        self.segments.push(seg);
    }

    fn push_drawing(&mut self, seg: PathSegment) -> (r: Result<(), OutlineError>)
        requires
            old(self).wf(),
            !(seg is MoveTo),
            !(seg is Close),
        ensures
            final(self).wf(),
            final(self).close_policy() == old(self).close_policy(),
            state_after(old(self)@) is NoSubpath ==> r == Err::<(), OutlineError>(
                OutlineError::MalformedOutline,
            ) && final(self)@ == old(self)@,
            state_after(old(self)@) is InSubpath ==> r is Ok && final(self)@ == old(self)@.push(seg),
    {
        match self.state {
            SubpathState::NoSubpath => Err(OutlineError::MalformedOutline),
            SubpathState::InSubpath { .. } => {
                self.push(seg);
                Ok(())
            },
        }
    }

    /// Starts a new subpath at (x, y); a subpath left open before it stays open.
    pub fn move_to(&mut self, x: i64, y: i64)
        requires
            old(self).wf(),
        ensures
            final(self).wf(),
            final(self).close_policy() == old(self).close_policy(),
            final(self)@ == old(self)@.push(PathSegment::MoveTo(Point { x, y })),
    {
        self.push(PathSegment::MoveTo(Point { x, y }));
    }

    /// A straight edge from the pen to (x, y).
    pub fn line_to(&mut self, x: i64, y: i64) -> (r: Result<(), OutlineError>)
        requires
            old(self).wf(),
        ensures
            final(self).wf(),
            final(self).close_policy() == old(self).close_policy(),
            state_after(old(self)@) is NoSubpath ==> r == Err::<(), OutlineError>(
                OutlineError::MalformedOutline,
            ) && final(self)@ == old(self)@,
            state_after(old(self)@) is InSubpath ==> r is Ok && final(self)@ == old(self)@.push(
                PathSegment::LineTo(Point { x, y }),
            ),
    {
        self.push_drawing(PathSegment::LineTo(Point { x, y }))
    }

    /// A quadratic curve from the pen to (x, y) with control point (x1, y1).
    pub fn quad_to(&mut self, x1: i64, y1: i64, x: i64, y: i64) -> (r: Result<(), OutlineError>)
        requires
            old(self).wf(),
        ensures
            final(self).wf(),
            final(self).close_policy() == old(self).close_policy(),
            state_after(old(self)@) is NoSubpath ==> r == Err::<(), OutlineError>(
                OutlineError::MalformedOutline,
            ) && final(self)@ == old(self)@,
            state_after(old(self)@) is InSubpath ==> r is Ok && final(self)@ == old(self)@.push(
                PathSegment::QuadTo(Point { x: x1, y: y1 }, Point { x, y }),
            ),
    {
        self.push_drawing(PathSegment::QuadTo(Point { x: x1, y: y1 }, Point { x, y }))
    }

    /// A cubic curve from the pen to (x, y) with control points (x1, y1) and (x2, y2).
    pub fn curve_to(&mut self, x1: i64, y1: i64, x2: i64, y2: i64, x: i64, y: i64) -> (r: Result<
        (),
        OutlineError,
    >)
        requires
            old(self).wf(),
        ensures
            final(self).wf(),
            final(self).close_policy() == old(self).close_policy(),
            state_after(old(self)@) is NoSubpath ==> r == Err::<(), OutlineError>(
                OutlineError::MalformedOutline,
            ) && final(self)@ == old(self)@,
            state_after(old(self)@) is InSubpath ==> r is Ok && final(self)@ == old(self)@.push(
                PathSegment::CubicTo(Point { x: x1, y: y1 }, Point { x: x2, y: y2 }, Point { x, y }),
            ),
    {
        self.push_drawing(
            PathSegment::CubicTo(Point { x: x1, y: y1 }, Point { x: x2, y: y2 }, Point { x, y }),
        )
    }

    /// Ends the open subpath as a closed one, following the close policy.
    pub fn close(&mut self) -> (r: Result<(), OutlineError>)
        requires
            old(self).wf(),
        ensures
            final(self).wf(),
            final(self).close_policy() == old(self).close_policy(),
            state_after(old(self)@) is NoSubpath ==> r == Err::<(), OutlineError>(
                OutlineError::MalformedOutline,
            ) && final(self)@ == old(self)@,
            state_after(old(self)@) is InSubpath ==> r is Ok && final(self)@ == old(self)@ + emitted(
                state_after(old(self)@),
                PathSegment::Close,
                old(self).close_policy(),
            ),
            state_after(final(self)@) is NoSubpath,
    {
        match self.state {
            SubpathState::NoSubpath => Err(OutlineError::MalformedOutline),
            SubpathState::InSubpath { current, start } => {
                let ghost before = self@;
                if self.policy == ClosePolicy::ExplicitEdge && current != start {
                    self.push(PathSegment::LineTo(start));
                    proof {
                        lemma_state_after_push(before, PathSegment::LineTo(start));
                    }
                }
                self.push(PathSegment::Close);
                proof {
                    lemma_state_after_push(self@.drop_last(), PathSegment::Close);
                    assert(self@.drop_last().push(PathSegment::Close) =~= self@);
                }
                assert(self@ =~= before + emitted(
                    state_after(before),
                    PathSegment::Close,
                    self.policy,
                ));
                Ok(())
            },
        }
    }

    /// The path drawn so far; the translator is used up.
    pub fn finish(self) -> (r: Path)
        requires
            self.wf(),
        ensures
            r@ == self@,
            r.wf(),
    {
        Path::from_segments(self.segments)
    }
}

/// Stepping the state over what one event emits equals stepping it over the event.
proof fn lemma_emitted_state(segs: Seq<PathSegment>, ev: PathSegment, policy: ClosePolicy)
    ensures
        state_after(segs + emitted(state_after(segs), ev, policy)) == step(state_after(segs), ev),
{
    let s = state_after(segs);
    let out = emitted(s, ev, policy);
    if out.len() == 0 {
        assert(segs + out =~= segs);
    } else if out.len() == 1 {
        assert(segs + out =~= segs.push(out[0]));
        lemma_state_after_push(segs, out[0]);
    } else {
        let mid = segs.push(out[0]);
        assert(segs + out =~= mid.push(out[1]));
        lemma_state_after_push(segs, out[0]);
        lemma_state_after_push(mid, out[1]);
    }
}

/// Translates a whole outline event stream into a path.
///
/// Succeeds exactly when every event other than `MoveTo` comes while a
/// subpath is open; the path is then `translated(events, policy)`.
pub fn translate_outline(events: &[PathSegment], policy: ClosePolicy) -> (r: Result<Path, OutlineError>)
    ensures
        r is Ok <==> segments_well_formed(events@),
        r is Ok ==> r->Ok_0@ == translated(events@, policy) && r->Ok_0.wf(),
        r is Err ==> r == Err::<Path, OutlineError>(OutlineError::MalformedOutline),
{
    let mut t = PathTranslator::with_close_policy(policy);
    let mut i: usize = 0;
    while i < events.len()
        invariant
            i <= events@.len(),
            t.wf(),
            t.close_policy() == policy,
            segments_well_formed(events@.take(i as int)),
            t@ == translated(events@.take(i as int), policy),
            state_after(t@) == state_after(events@.take(i as int)),
        decreases events@.len() - i,
    {
        let ev = events[i];
        let ghost prefix = events@.take(i as int);
        let ghost before = t@;
        let res = match ev {
            PathSegment::MoveTo(p) => {
                t.move_to(p.x, p.y);
                Ok(())
            },
            PathSegment::LineTo(p) => t.line_to(p.x, p.y),
            PathSegment::QuadTo(c, p) => t.quad_to(c.x, c.y, p.x, p.y),
            PathSegment::CubicTo(c1, c2, p) => t.curve_to(c1.x, c1.y, c2.x, c2.y, p.x, p.y),
            PathSegment::Close => t.close(),
        };
        if res.is_err() {
            assert(!segment_allowed(state_after(events@.take(i as int)), events@[i as int]));
            assert(!segments_well_formed(events@));
            return Err(OutlineError::MalformedOutline);
        }
        proof {
            let next = events@.take(i + 1);
            assert(next.drop_last() =~= prefix);
            assert(next.last() == ev);
            assert(t@ =~= before + emitted(state_after(prefix), ev, policy));
            lemma_emitted_state(before, ev, policy);
            lemma_state_after_push(prefix, ev);
            assert(next =~= prefix.push(ev));
            lemma_well_formed_push(prefix, ev);
        }
        i = i + 1;
    }
    assert(events@.take(events@.len() as int) =~= events@);
    Ok(t.finish())
}

/// Why a glyph draws nothing although the shaper placed it.
#[derive(Clone, Copy, Debug, PartialEq, Eq, Structural)]
pub enum GlyphIssue {
    /// The font has no glyph with that index.
    UnknownGlyph,
    /// The font's outline for the glyph breaks the subpath rules.
    MalformedOutline,
}

/// The path of one glyph, given what the font gave for its outline, and the
/// issue to report where it had to be left blank.
///
/// A glyph the font does not know (`None`) and a malformed outline both give
/// the empty path with their issue: such a glyph draws nothing but still takes
/// its advance. A glyph without contours (`Some` of no events) is no issue.
pub fn glyph_path(outline: Option<&[PathSegment]>, policy: ClosePolicy) -> (r: (Path, Option<GlyphIssue>))
    ensures
        r.0.wf(),
        outline is None ==> r.0@ == Seq::<PathSegment>::empty() && r.1 == Some(GlyphIssue::UnknownGlyph),
        outline is Some && !segments_well_formed(outline->Some_0@) ==> r.0@ == Seq::<PathSegment>::empty()
            && r.1 == Some(GlyphIssue::MalformedOutline),
        outline is Some && segments_well_formed(outline->Some_0@) ==> r.0@ == translated(outline->Some_0@, policy)
            && r.1 is None,
{
    match outline {
        None => (Path::empty(), Some(GlyphIssue::UnknownGlyph)),
        Some(events) => match translate_outline(events, policy) {
            Ok(path) => (path, None),
            Err(_) => (Path::empty(), Some(GlyphIssue::MalformedOutline)),
        },
    }
}

/// An open two-point outline, a move to `a` then a line to `b`, translates
/// under either close policy to exactly those two segments: no `Close`, and
/// the one edge from `a` to `b`, with none back to `a`.
pub proof fn lemma_open_segment_not_closed(a: Point, b: Point, policy: ClosePolicy)
    ensures
        translated(seq![PathSegment::MoveTo(a), PathSegment::LineTo(b)], policy) == seq![
            PathSegment::MoveTo(a),
            PathSegment::LineTo(b),
        ],
        edges_of(seq![PathSegment::MoveTo(a), PathSegment::LineTo(b)]) == seq![(a, b)],
{
    let one = seq![PathSegment::MoveTo(a)];
    let two = seq![PathSegment::MoveTo(a), PathSegment::LineTo(b)];
    assert(two.drop_last() =~= one);
    let none = Seq::<PathSegment>::empty();
    assert(one.drop_last() =~= none);
    assert(one.last() == PathSegment::MoveTo(a));
    assert(two.last() == PathSegment::LineTo(b));
    assert(translated(none, policy) == none);
    assert(edges_of(none) == Seq::<(Point, Point)>::empty());
    assert(state_after(none) == SubpathState::NoSubpath);
    assert(state_after(one) == step(SubpathState::NoSubpath, PathSegment::MoveTo(a)));
    assert(translated(one, policy) =~= one);
    assert(translated(two, policy) =~= two);
    assert(edges_of(one) =~= Seq::<(Point, Point)>::empty());
    assert(edges_of(two) =~= seq![(a, b)]);
}

} // verus!
