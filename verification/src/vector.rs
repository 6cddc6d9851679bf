//! The vector display list: an ordered list of line segments that the beam
//! draws one after another.
//!
//! Each segment is drawn as a dense row of samples. Where a segment does not
//! start at the end of the one before it, the beam jumps: a blank sample at
//! the start of the new segment, as long as the settling time, goes between
//! the two.
//!
//! How a segment is subdivided and whether two points differ is arithmetic,
//! which the caller supplies.

use vstd::prelude::*;
use crate::beam::{BeamSample, BeamState};
use crate::binary32::Binary32;

verus! {

/// One line segment of a display list, in normalised screen coordinates.
#[derive(Clone, Copy, Debug, PartialEq, Eq, Structural)]
pub struct VectorSegment {
    pub x0: Binary32,
    pub y0: Binary32,
    pub x1: Binary32,
    pub y1: Binary32,
    pub intensity: Binary32,
}

/// A display list with the speed at which it is drawn.
pub struct VectorSource {
    pub segments: Vec<VectorSegment>,
    /// Beam speed along a segment, in screen widths per second.
    pub beam_speed: Binary32,
    /// Seconds that the beam takes to settle after a jump.
    pub settling_time: Binary32,
}

/// The blank sample that takes the beam to the start of `next`.
pub open spec fn retrace(next: VectorSegment, settling_time: Binary32) -> BeamSample {
    BeamSample { x: next.x0, y: next.y0, intensity: Binary32 { bits: 0 }, dt: settling_time }
}

/// The samples of the first `n` segments: each segment's own samples, with a
/// retrace before every segment but the first that starts with a jump.
pub open spec fn drawn(
    segments: Seq<VectorSegment>,
    jumps: Seq<bool>,
    parts: Seq<Vec<BeamSample>>,
    settling_time: Binary32,
    n: int,
) -> Seq<BeamSample>
    decreases n,
{
    if n <= 0 {
        Seq::<BeamSample>::empty()
    } else {
        drawn(segments, jumps, parts, settling_time, n - 1) + (if n - 1 > 0 && jumps[n - 1] {
            seq![retrace(segments[n - 1], settling_time)]
        } else {
            Seq::<BeamSample>::empty()
        }) + parts[n - 1]@
    }
}

impl VectorSource {
    /// Draws the whole list once.
    ///
    /// `jumps` says whether a segment starts away from the end of the one
    /// before it; `subdivide` turns a segment into its samples, given the
    /// beam speed and the beam's spot size.
    ///
    /// The result is the samples of every segment in order, with a retrace
    /// wherever `jumps` said so.
    pub fn generate<J, S>(&self, beam: &BeamState, jumps: J, subdivide: S) -> (out: Vec<BeamSample>) where
        J: Fn(VectorSegment, VectorSegment) -> bool,
        S: Fn(VectorSegment, Binary32, BeamState) -> Vec<BeamSample>,

        requires
            forall|a: VectorSegment, b: VectorSegment| call_requires(jumps, (a, b)),
            forall|s: VectorSegment, v: Binary32, b: BeamState| call_requires(subdivide, (s, v, b)),
        ensures
            exists|gaps: Seq<bool>, parts: Seq<Vec<BeamSample>>|
                {
                    &&& gaps.len() == self.segments@.len()
                    &&& parts.len() == self.segments@.len()
                    &&& forall|k: int|
                        0 < k < self.segments@.len() ==> call_ensures(
                            jumps,
                            (self.segments@[k - 1], self.segments@[k]),
                            #[trigger] gaps[k],
                        )
                    &&& forall|k: int|
                        0 <= k < self.segments@.len() ==> call_ensures(
                            subdivide,
                            (self.segments@[k], self.beam_speed, *beam),
                            #[trigger] parts[k],
                        )
                    &&& out@ == drawn(
                        self.segments@,
                        gaps,
                        parts,
                        self.settling_time,
                        self.segments@.len() as int,
                    )
                },
    {
        let mut out: Vec<BeamSample> = Vec::new();
        let ghost mut gaps: Seq<bool> = Seq::empty();
        let ghost mut parts: Seq<Vec<BeamSample>> = Seq::empty();
        let mut k: usize = 0;
        while k < self.segments.len()
            invariant
                k <= self.segments@.len(),
                forall|a: VectorSegment, b: VectorSegment| call_requires(jumps, (a, b)),
                forall|s: VectorSegment, v: Binary32, b: BeamState| call_requires(subdivide, (s, v, b)),
                gaps.len() == k,
                parts.len() == k,
                forall|j: int|
                    0 < j < k ==> call_ensures(
                        jumps,
                        (self.segments@[j - 1], self.segments@[j]),
                        #[trigger] gaps[j],
                    ),
                forall|j: int|
                    0 <= j < k ==> call_ensures(
                        subdivide,
                        (self.segments@[j], self.beam_speed, *beam),
                        #[trigger] parts[j],
                    ),
                out@ == drawn(self.segments@, gaps, parts, self.settling_time, k as int),
            decreases self.segments@.len() - k,
        {
            let seg = self.segments[k];
            let ghost drawn_before = out@;
            let ghost gaps_before = gaps;
            let ghost parts_before = parts;
            let gap = if k > 0 {
                jumps(self.segments[k - 1], seg)
            } else {
                false
            };
            if gap {
                out.push(
                    BeamSample { x: seg.x0, y: seg.y0, intensity: Binary32::zero(), dt: self.settling_time },
                );
            }
            let mut piece = subdivide(seg, self.beam_speed, *beam);
            let ghost part = piece;
            out.append(&mut piece);
            proof {
                gaps = gaps_before.push(gap);
                parts = parts_before.push(part);
                lemma_drawn_prefix(
                    self.segments@,
                    gaps_before,
                    parts_before,
                    gaps,
                    parts,
                    self.settling_time,
                    k as int,
                );
                assert(out@ =~= drawn_before + (if k > 0 && gap {
                    seq![retrace(seg, self.settling_time)]
                } else {
                    Seq::<BeamSample>::empty()
                }) + part@);
            }
            k += 1;
        }
        out
    }
}

/// What is drawn of the first `n` segments depends on the first `n` jumps
/// and parts only.
proof fn lemma_drawn_prefix(
    segments: Seq<VectorSegment>,
    jumps_a: Seq<bool>,
    parts_a: Seq<Vec<BeamSample>>,
    jumps_b: Seq<bool>,
    parts_b: Seq<Vec<BeamSample>>,
    settling_time: Binary32,
    n: int,
)
    requires
        0 <= n <= jumps_a.len(),
        n <= parts_a.len(),
        n <= jumps_b.len(),
        n <= parts_b.len(),
        forall|k: int| 0 <= k < n ==> jumps_a[k] == jumps_b[k] && parts_a[k] == parts_b[k],
    ensures
        drawn(segments, jumps_a, parts_a, settling_time, n) == drawn(
            segments,
            jumps_b,
            parts_b,
            settling_time,
            n,
        ),
    decreases n,
{
    if n > 0 {
        lemma_drawn_prefix(segments, jumps_a, parts_a, jumps_b, parts_b, settling_time, n - 1);
    }
}

} // verus!
