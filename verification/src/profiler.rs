//! GPU pass timing: the timestamp points of a frame and a bounded history of
//! per-frame timings.
//!
//! The history is a ring over the last [`HISTORY_CAP`] frames in
//! structure-of-arrays layout. One flat buffer holds a track per timed
//! segment and one for the frame total, each `HISTORY_CAP` slots long; a
//! second buffer holds the beam sample counts. All tracks share one write
//! cursor, so a track is read as at most two contiguous pieces.

use vstd::prelude::*;
use vstd::slice::slice_subrange;
use crate::binary32::Binary32;

verus! {

/// Timestamp points of a frame, in the order in which the passes run.
#[derive(Clone, Copy, Debug, PartialEq, Eq, Structural)]
pub enum GpuQuery {
    FrameStart,
    AfterBeamWrite,
    AfterSpectralResolve,
    AfterDecay,
    AfterFaceplateScatter,
    AfterComposite,
}

/// Number of timestamp points.
pub const QUERY_COUNT: u32 = 6;

/// Number of timed segments, one between each two consecutive timestamps.
pub const NUM_SEGMENTS: usize = 5;

impl GpuQuery {
    /// Position of the timestamp in the query set.
    pub open spec fn index_spec(self) -> u32 {
        match self {
            GpuQuery::FrameStart => 0,
            GpuQuery::AfterBeamWrite => 1,
            GpuQuery::AfterSpectralResolve => 2,
            GpuQuery::AfterDecay => 3,
            GpuQuery::AfterFaceplateScatter => 4,
            GpuQuery::AfterComposite => 5,
        }
    }

    /// Position of the timestamp in the query set.
    #[verifier::when_used_as_spec(index_spec)]
    pub fn index(self) -> (i: u32)
        ensures
            i == self.index_spec(),
            i < QUERY_COUNT,
    {
        match self {
            GpuQuery::FrameStart => 0,
            GpuQuery::AfterBeamWrite => 1,
            GpuQuery::AfterSpectralResolve => 2,
            GpuQuery::AfterDecay => 3,
            GpuQuery::AfterFaceplateScatter => 4,
            GpuQuery::AfterComposite => 5,
        }
    }

    /// The timestamp at a position of the query set.
    pub fn from_index(i: u32) -> (q: Option<GpuQuery>)
        ensures
            q is Some <==> i < QUERY_COUNT,
            q matches Some(query) ==> query.index_spec() == i,
    {
        match i {
            0 => Some(GpuQuery::FrameStart),
            1 => Some(GpuQuery::AfterBeamWrite),
            2 => Some(GpuQuery::AfterSpectralResolve),
            3 => Some(GpuQuery::AfterDecay),
            4 => Some(GpuQuery::AfterFaceplateScatter),
            5 => Some(GpuQuery::AfterComposite),
            _ => None,
        }
    }

    /// Display name of the timestamp: the pass that it closes.
    pub open spec fn label_spec(self) -> Seq<char> {
        match self {
            GpuQuery::FrameStart => "Frame Start"@,
            GpuQuery::AfterBeamWrite => "Beam Write"@,
            GpuQuery::AfterSpectralResolve => "Spectral Resolve"@,
            GpuQuery::AfterDecay => "Decay"@,
            GpuQuery::AfterFaceplateScatter => "Faceplate Scatter"@,
            GpuQuery::AfterComposite => "Composite"@,
        }
    }

    /// Display name of the timestamp: the pass that it closes.
    pub fn label(self) -> (s: &'static str)
        ensures
            s@ == self.label_spec(),
    {
        match self {
            GpuQuery::FrameStart => "Frame Start",
            GpuQuery::AfterBeamWrite => "Beam Write",
            GpuQuery::AfterSpectralResolve => "Spectral Resolve",
            GpuQuery::AfterDecay => "Decay",
            GpuQuery::AfterFaceplateScatter => "Faceplate Scatter",
            GpuQuery::AfterComposite => "Composite",
        }
    }
}

/// The timestamp that closes segment `seg`.
pub open spec fn segment_query(seg: int) -> GpuQuery {
    if seg == 0 {
        GpuQuery::AfterBeamWrite
    } else if seg == 1 {
        GpuQuery::AfterSpectralResolve
    } else if seg == 2 {
        GpuQuery::AfterDecay
    } else if seg == 3 {
        GpuQuery::AfterFaceplateScatter
    } else {
        GpuQuery::AfterComposite
    }
}

/// Display name of a timed segment: that of the timestamp closing it.
pub open spec fn segment_label(seg: int) -> Seq<char> {
    segment_query(seg).label_spec()
}

/// Display name of a timed segment: that of the timestamp closing it.
pub fn segment_name(seg: usize) -> (s: &'static str)
    requires
        seg < NUM_SEGMENTS,
    ensures
        segment_query(seg as int).index_spec() == seg + 1,
        s@ == segment_label(seg as int),
{
    if seg == 0 {
        GpuQuery::AfterBeamWrite.label()
    } else if seg == 1 {
        GpuQuery::AfterSpectralResolve.label()
    } else if seg == 2 {
        GpuQuery::AfterDecay.label()
    } else if seg == 3 {
        GpuQuery::AfterFaceplateScatter.label()
    } else {
        GpuQuery::AfterComposite.label()
    }
}

/// Frames that the history holds at most. A power of two.
pub const HISTORY_CAP: usize = 512;

/// Number of value tracks: one per segment and one for the frame total.
pub const VALUE_TRACKS: usize = 6;

/// The track of frame totals.
pub const TOTAL_TRACK: usize = 5;

/// `window` after one more value arrived: the value is appended, and the
/// oldest one leaves once the window is full.
pub open spec fn slide<T>(window: Seq<T>, value: T) -> Seq<T> {
    if window.len() < HISTORY_CAP {
        window.push(value)
    } else {
        window.drop_first().push(value)
    }
}

/// Sum of a sequence of counts.
pub open spec fn sum_counts(counts: Seq<u32>) -> int
    decreases counts.len(),
{
    if counts.len() == 0 {
        0
    } else {
        sum_counts(counts.drop_last()) + counts.last()
    }
}

/// Frames held after `pushed` pushes.
pub open spec fn held(pushed: int) -> int {
    if pushed < HISTORY_CAP {
        pushed
    } else {
        HISTORY_CAP as int
    }
}

/// Slot of the `j`-th oldest frame held after `pushed` pushes.
pub open spec fn slot_of(pushed: int, j: int) -> int {
    (pushed - held(pushed) + j) % (HISTORY_CAP as int)
}

/// One more push writes the slot under the cursor, which becomes the slot of
/// the newest frame; every frame that stays keeps its slot, and none of them
/// sits under the cursor.
proof fn lemma_slot_after_push(pushed: int, j: int)
    requires
        0 <= pushed,
        0 <= j < held(pushed + 1),
    ensures
        j == held(pushed + 1) - 1 ==> slot_of(pushed + 1, j) == pushed % (HISTORY_CAP as int),
        j < held(pushed + 1) - 1 ==> slot_of(pushed + 1, j) != pushed % (HISTORY_CAP as int),
        j < held(pushed + 1) - 1 && pushed < HISTORY_CAP ==> slot_of(pushed + 1, j) == slot_of(
            pushed,
            j,
        ),
        j < held(pushed + 1) - 1 && pushed >= HISTORY_CAP ==> slot_of(pushed + 1, j) == slot_of(
            pushed,
            j + 1,
        ),
        0 <= slot_of(pushed + 1, j) < HISTORY_CAP,
{
}

/// Ring of per-frame GPU timings, in microseconds, with the beam sample
/// count of each frame.
pub struct TimingHistory {
    buf: Vec<Binary32>,
    beam_buf: Vec<u32>,
    tail: usize,
}

impl TimingHistory {
    /// The buffers have their fixed sizes.
    pub closed spec fn wf(&self) -> bool {
        self.buf@.len() == VALUE_TRACKS * HISTORY_CAP && self.beam_buf@.len() == HISTORY_CAP
    }

    /// Frames pushed since the history was made.
    pub closed spec fn pushed(&self) -> nat {
        self.tail as nat
    }

    /// Frames held: every frame pushed, up to the capacity.
    pub open spec fn len_spec(&self) -> nat {
        if self.pushed() < HISTORY_CAP {
            self.pushed()
        } else {
            HISTORY_CAP as nat
        }
    }

    /// Slot of the `j`-th oldest frame held.
    spec fn slot(&self, j: int) -> int {
        slot_of(self.tail as int, j)
    }

    /// The values of track `t` over the frames held, oldest first.
    pub closed spec fn track(&self, t: int) -> Seq<Binary32> {
        Seq::new(self.len_spec(), |j: int| self.buf@[t * HISTORY_CAP + self.slot(j)])
    }

    /// The beam sample counts of the frames held, oldest first.
    pub closed spec fn beam_track(&self) -> Seq<u32> {
        Seq::new(self.len_spec(), |j: int| self.beam_buf@[self.slot(j)])
    }

    /// Every track holds one value per frame held.
    pub proof fn lemma_track_len(&self, t: int)
        ensures
            self.track(t).len() == self.len_spec(),
            self.beam_track().len() == self.len_spec(),
            self.len_spec() <= HISTORY_CAP,
    {
    }

    /// An empty history.
    pub fn new() -> (h: Self)
        ensures
            h.wf(),
            h.pushed() == 0,
            h.len_spec() == 0,
    {
        TimingHistory {
            buf: vec![Binary32 { bits: 0 }; 3072],
            beam_buf: vec![0u32; 512],
            tail: 0,
        }
    }

    /// Records one frame: the duration of each segment, the frame total,
    /// and the number of beam samples drawn. Once the history is full the
    /// oldest frame leaves.
    pub fn push(&mut self, segments: [Binary32; 5], total: Binary32, beam_samples: u32)
        requires
            old(self).wf(),
            old(self).pushed() < usize::MAX,
        ensures
            final(self).wf(),
            final(self).pushed() == old(self).pushed() + 1,
            forall|t: int|
                0 <= t < NUM_SEGMENTS ==> #[trigger] final(self).track(t) == slide(
                    old(self).track(t),
                    segments@[t],
                ),
            final(self).track(TOTAL_TRACK as int) == slide(old(self).track(TOTAL_TRACK as int), total),
            final(self).beam_track() == slide(old(self).beam_track(), beam_samples),
    {
        let idx: usize = self.tail % HISTORY_CAP;
        self.buf.set(idx, segments[0]);
        self.buf.set(HISTORY_CAP + idx, segments[1]);
        self.buf.set(2 * HISTORY_CAP + idx, segments[2]);
        self.buf.set(3 * HISTORY_CAP + idx, segments[3]);
        self.buf.set(4 * HISTORY_CAP + idx, segments[4]);
        self.buf.set(TOTAL_TRACK * HISTORY_CAP + idx, total);
        self.beam_buf.set(idx, beam_samples);
        self.tail = self.tail + 1;
        proof {
            let pre = *old(self);
            let post = *self;
            let values = segments@.push(total);
            assert forall|t: int, s: int|
                0 <= t < VALUE_TRACKS && 0 <= s < HISTORY_CAP implies #[trigger] post.buf@[t
                * HISTORY_CAP + s] == if s == idx {
                values[t]
            } else {
                pre.buf@[t * HISTORY_CAP + s]
            } by {}
            assert forall|t: int| 0 <= t < VALUE_TRACKS implies #[trigger] post.track(t) == slide(
                pre.track(t),
                values[t],
            ) by {
                let a = post.track(t);
                let b = slide(pre.track(t), values[t]);
                assert(a.len() == b.len());
                assert forall|j: int| 0 <= j < a.len() implies a[j] == b[j] by {
                    lemma_slot_after_push(pre.tail as int, j);
                }
                assert(a =~= b);
            }
            assert(values[TOTAL_TRACK as int] == total);
            assert forall|t: int| 0 <= t < NUM_SEGMENTS implies #[trigger] post.track(t) == slide(
                pre.track(t),
                segments@[t],
            ) by {
                assert(values[t] == segments@[t]);
            }
            let a = post.beam_track();
            let b = slide(pre.beam_track(), beam_samples);
            assert forall|j: int| 0 <= j < a.len() implies a[j] == b[j] by {
                lemma_slot_after_push(pre.tail as int, j);
            }
            assert(a =~= b);
        }
    }

    /// Number of frames pushed since the history was made.
    pub fn frames_pushed(&self) -> (n: usize)
        ensures
            n == self.pushed(),
    {
        self.tail
    }

    /// Number of frames held.
    pub fn len(&self) -> (n: usize)
        requires
            self.wf(),
        ensures
            n == self.len_spec(),
            n <= HISTORY_CAP,
    {
        if self.tail < HISTORY_CAP {
            self.tail
        } else {
            HISTORY_CAP
        }
    }

    /// The two contiguous pieces of a track, `(older, newer)`: together they
    /// are the track, oldest value first. Until the ring has wrapped the
    /// second piece is empty.
    pub fn track_slices(&self, track: usize) -> (r: (&[Binary32], &[Binary32]))
        requires
            self.wf(),
            track < VALUE_TRACKS,
        ensures
            r.0@ + r.1@ == self.track(track as int),
            r.0@.len() + r.1@.len() == self.len_spec(),
            r.1@.len() == if self.pushed() <= HISTORY_CAP {
                0
            } else {
                self.pushed() % (HISTORY_CAP as nat)
            },
    {
        let base: usize = track * HISTORY_CAP;
        let whole = self.buf.as_slice();
        if self.tail <= HISTORY_CAP {
            let older = slice_subrange(whole, base, base + self.tail);
            let newer = slice_subrange(whole, base, base);
            assert(older@ + newer@ =~= self.track(track as int));
            (older, newer)
        } else {
            let head: usize = self.tail % HISTORY_CAP;
            let older = slice_subrange(whole, base + head, base + HISTORY_CAP);
            let newer = slice_subrange(whole, base, base + head);
            assert(older@ + newer@ =~= self.track(track as int));
            (older, newer)
        }
    }

    /// The values of one segment over the frames held, oldest first; the
    /// position in the list is the frame index.
    pub fn segment_iter(&self, seg: usize) -> (values: Vec<Binary32>)
        requires
            self.wf(),
            seg < NUM_SEGMENTS,
        ensures
            values@ == self.track(seg as int),
    {
        self.track_tail(seg, HISTORY_CAP)
    }

    /// The last `n` values of a track, oldest first; all of them when the
    /// history holds fewer.
    pub fn track_tail(&self, track: usize, n: usize) -> (values: Vec<Binary32>)
        requires
            self.wf(),
            track < VALUE_TRACKS,
        ensures
            values@ == if n < self.len_spec() {
                self.track(track as int).subrange(self.len_spec() - n, self.len_spec() as int)
            } else {
                self.track(track as int)
            },
    {
        let (a, b) = self.track_slices(track);
        let total_len: usize = a.len() + b.len();
        let n: usize = if n < total_len {
            n
        } else {
            total_len
        };
        let skip: usize = total_len - n;
        let ghost all = self.track(track as int);
        let mut values: Vec<Binary32> = Vec::new();
        let mut i: usize = skip;
        while i < total_len
            invariant
                skip <= i <= total_len,
                total_len == a@.len() + b@.len(),
                all == a@ + b@,
                values@ == all.subrange(skip as int, i as int),
            decreases total_len - i,
        {
            let v = if i < a.len() {
                a[i]
            } else {
                b[i - a.len()]
            };
            values.push(v);
            assert(all.subrange(skip as int, i + 1) =~= all.subrange(skip as int, i as int).push(v));
            i += 1;
        }
        assert(all.subrange(0, all.len() as int) =~= all);
        values
    }

    /// Latest total GPU time in microseconds, or zero if the history is
    /// empty.
    pub fn latest_total(&self) -> (v: Binary32)
        requires
            self.wf(),
        ensures
            v == if self.len_spec() == 0 {
                Binary32 { bits: 0 }
            } else {
                self.track(TOTAL_TRACK as int).last()
            },
    {
        if self.tail == 0 {
            return Binary32::zero();
        }
        let prev: usize = (self.tail - 1) % HISTORY_CAP;
        self.buf[TOTAL_TRACK * HISTORY_CAP + prev]
    }

    /// The latest value of every segment, with the segment's name; `None`
    /// if the history is empty.
    pub fn latest_segments(&self) -> (r: Option<[(&'static str, Binary32); 5]>)
        requires
            self.wf(),
        ensures
            r is None <==> self.len_spec() == 0,
            r matches Some(latest) ==> forall|i: int|
                0 <= i < NUM_SEGMENTS ==> (#[trigger] latest@[i]).1 == self.track(i).last()
                    && latest@[i].0@ == segment_label(i),
    {
        if self.tail == 0 {
            return None;
        }
        let prev: usize = (self.tail - 1) % HISTORY_CAP;
        Some(
            [
                (segment_name(0), self.buf[prev]),
                (segment_name(1), self.buf[HISTORY_CAP + prev]),
                (segment_name(2), self.buf[2 * HISTORY_CAP + prev]),
                (segment_name(3), self.buf[3 * HISTORY_CAP + prev]),
                (segment_name(4), self.buf[4 * HISTORY_CAP + prev]),
            ],
        )
    }

    /// Sum and number of the beam sample counts of the last `n` frames
    /// (of all frames held, when there are fewer). Their quotient is the
    /// average.
    pub fn beam_samples_sum(&self, n: usize) -> (r: (u64, usize))
        requires
            self.wf(),
        ensures
            r.1 == if n < self.len_spec() {
                n as nat
            } else {
                self.len_spec()
            },
            r.0 == sum_counts(
                self.beam_track().subrange(self.len_spec() - r.1, self.len_spec() as int),
            ),
    {
        let held = self.len();
        let count: usize = if n < held {
            n
        } else {
            held
        };
        let ghost track = self.beam_track();
        let mut sum: u64 = 0;
        let mut i: usize = 0;
        // Walks from the oldest of the frames asked for to the newest.
        while i < count
            invariant
                i <= count <= held,
                held == self.len_spec(),
                held <= HISTORY_CAP,
                track == self.beam_track(),
                self.beam_buf@.len() == HISTORY_CAP,
                sum == sum_counts(track.subrange(held - count, held - count + i)),
                sum <= i * 0xffff_ffff,
            decreases count - i,
        {
            let j: usize = held - count + i;
            let slot: usize = (self.tail - held + j) % HISTORY_CAP;
            let c: u32 = self.beam_buf[slot];
            assert(track[j as int] == c);
            assert(track.subrange(held - count, held - count + i + 1).drop_last() =~= track.subrange(
                held - count,
                held - count + i,
            ));
            sum = sum + c as u64;
            i += 1;
        }
        (sum, count)
    }

    /// Beam sample count of the latest frame, or zero if the history is
    /// empty.
    pub fn latest_beam_samples(&self) -> (n: u32)
        requires
            self.wf(),
        ensures
            n == if self.len_spec() == 0 {
                0
            } else {
                self.beam_track().last()
            },
    {
        if self.tail == 0 {
            return 0;
        }
        let prev: usize = (self.tail - 1) % HISTORY_CAP;
        self.beam_buf[prev]
    }
}

} // verus!
