//! The order of work within a frame.
//!
//! Every frame records the same passes in the same order: the beam write
//! deposits the drained samples, the spectral resolve reads the state into
//! the HDR image, the decay evolves the state, the faceplate scatter blurs
//! the bright part of the image, and the composite writes the swapchain
//! image. The resolve runs before the decay on purpose: instantaneous energy
//! has to be seen once, in the frame of its deposit, before the decay
//! clears it.

use vstd::prelude::*;
use crate::profiler::GpuQuery;

verus! {

/// One step of a frame.
#[derive(Clone, Copy, Debug, PartialEq, Eq, Structural)]
pub enum FrameStep {
    /// Read the timestamps of the frame before, and file them with this
    /// frame's sample count.
    ReadBack { beam_samples: u32 },
    /// Write a timestamp.
    Timestamp(GpuQuery),
    /// Deposit this many samples into the accumulation buffer.
    BeamWrite { sample_count: u32 },
    /// Resolve the accumulation buffer into the HDR image.
    SpectralResolve,
    /// Evolve the accumulation buffer by the frame's time step.
    Decay,
    /// Downsample and blur the HDR image.
    FaceplateScatter,
    /// Tonemap HDR image and scatter into the swapchain image.
    Composite,
    /// Resolve the timestamps for reading in the next frame.
    ResolveQueries,
    /// Draw the user interface over the image.
    Overlay,
    /// Submit the recorded commands.
    Submit,
    /// Present the swapchain image.
    Present,
}

/// `steps` if `wanted`, else nothing.
pub open spec fn when(wanted: bool, steps: Seq<FrameStep>) -> Seq<FrameStep> {
    if wanted {
        steps
    } else {
        Seq::<FrameStep>::empty()
    }
}

/// The steps of a frame, in order.
///
/// The beam write is left out when there are no samples, the timestamps and
/// their read-back when the device is not profiled, and the overlay when no
/// interface is shown.
pub open spec fn frame_plan_spec(sample_count: u32, profiling: bool, overlay: bool) -> Seq<FrameStep> {
    when(profiling, seq![FrameStep::ReadBack { beam_samples: sample_count }]) + when(
        profiling,
        seq![FrameStep::Timestamp(GpuQuery::FrameStart)],
    ) + when(sample_count > 0, seq![FrameStep::BeamWrite { sample_count }]) + when(
        profiling,
        seq![FrameStep::Timestamp(GpuQuery::AfterBeamWrite)],
    ) + seq![FrameStep::SpectralResolve] + when(
        profiling,
        seq![FrameStep::Timestamp(GpuQuery::AfterSpectralResolve)],
    ) + seq![FrameStep::Decay] + when(profiling, seq![FrameStep::Timestamp(GpuQuery::AfterDecay)])
        + seq![FrameStep::FaceplateScatter] + when(
        profiling,
        seq![FrameStep::Timestamp(GpuQuery::AfterFaceplateScatter)],
    ) + seq![FrameStep::Composite] + when(
        profiling,
        seq![FrameStep::Timestamp(GpuQuery::AfterComposite), FrameStep::ResolveQueries],
    ) + when(overlay, seq![FrameStep::Overlay]) + seq![FrameStep::Submit, FrameStep::Present]
}

fn push_when(plan: &mut Vec<FrameStep>, wanted: bool, step: FrameStep)
    ensures
        final(plan)@ == old(plan)@ + when(wanted, seq![step]),
{
    if wanted {
        plan.push(step);
        assert(plan@ =~= old(plan)@ + seq![step]);
    } else {
        assert(plan@ =~= old(plan)@ + Seq::<FrameStep>::empty());
    }
}

/// Plans a frame that deposits `sample_count` samples.
pub fn frame_plan(sample_count: u32, profiling: bool, overlay: bool) -> (plan: Vec<FrameStep>)
    ensures
        plan@ == frame_plan_spec(sample_count, profiling, overlay),
{
    let mut plan: Vec<FrameStep> = Vec::new();
    assert(plan@ =~= Seq::<FrameStep>::empty());
    push_when(&mut plan, profiling, FrameStep::ReadBack { beam_samples: sample_count });
    assert(plan@ =~= when(profiling, seq![FrameStep::ReadBack { beam_samples: sample_count }]));
    push_when(&mut plan, profiling, FrameStep::Timestamp(GpuQuery::FrameStart));
    push_when(&mut plan, sample_count > 0, FrameStep::BeamWrite { sample_count });
    push_when(&mut plan, profiling, FrameStep::Timestamp(GpuQuery::AfterBeamWrite));
    push_when(&mut plan, true, FrameStep::SpectralResolve);
    push_when(&mut plan, profiling, FrameStep::Timestamp(GpuQuery::AfterSpectralResolve));
    push_when(&mut plan, true, FrameStep::Decay);
    push_when(&mut plan, profiling, FrameStep::Timestamp(GpuQuery::AfterDecay));
    push_when(&mut plan, true, FrameStep::FaceplateScatter);
    push_when(&mut plan, profiling, FrameStep::Timestamp(GpuQuery::AfterFaceplateScatter));
    push_when(&mut plan, true, FrameStep::Composite);
    let ghost before_resolve = plan@;
    push_when(&mut plan, profiling, FrameStep::Timestamp(GpuQuery::AfterComposite));
    push_when(&mut plan, profiling, FrameStep::ResolveQueries);
    assert(plan@ =~= before_resolve + when(
        profiling,
        seq![FrameStep::Timestamp(GpuQuery::AfterComposite), FrameStep::ResolveQueries],
    ));
    push_when(&mut plan, overlay, FrameStep::Overlay);
    let ghost before_submit = plan@;
    push_when(&mut plan, true, FrameStep::Submit);
    push_when(&mut plan, true, FrameStep::Present);
    assert(plan@ =~= before_submit + seq![FrameStep::Submit, FrameStep::Present]);
    plan
}

/// Number of times `step` occurs in `plan`.
pub open spec fn occurrences(plan: Seq<FrameStep>, step: FrameStep) -> nat
    decreases plan.len(),
{
    if plan.len() == 0 {
        0
    } else {
        occurrences(plan.drop_last(), step) + if plan.last() == step {
            1nat
        } else {
            0nat
        }
    }
}

proof fn lemma_occurrences_concat(a: Seq<FrameStep>, b: Seq<FrameStep>, step: FrameStep)
    ensures
        occurrences(a + b, step) == occurrences(a, step) + occurrences(b, step),
    decreases b.len(),
{
    if b.len() == 0 {
        assert(a + b =~= a);
    } else {
        assert((a + b).drop_last() =~= a + b.drop_last());
        lemma_occurrences_concat(a, b.drop_last(), step);
    }
}

proof fn lemma_occurrences_one(other: FrameStep, step: FrameStep)
    ensures
        occurrences(seq![other], step) == if other == step {
            1nat
        } else {
            0nat
        },
{
    reveal_with_fuel(occurrences, 3);
    assert(seq![other].drop_last() =~= Seq::<FrameStep>::empty());
}

proof fn lemma_occurrences_two(first: FrameStep, second: FrameStep, step: FrameStep)
    ensures
        occurrences(seq![first, second], step) == (if first == step {
            1nat
        } else {
            0nat
        }) + (if second == step {
            1nat
        } else {
            0nat
        }),
{
    assert(seq![first, second].drop_last() =~= seq![first]);
    lemma_occurrences_one(first, step);
}

/// The pieces that a plan is put together from.
spec fn plan_pieces(sample_count: u32, profiling: bool, overlay: bool) -> Seq<Seq<FrameStep>> {
    seq![
        when(profiling, seq![FrameStep::ReadBack { beam_samples: sample_count }]),
        when(profiling, seq![FrameStep::Timestamp(GpuQuery::FrameStart)]),
        when(sample_count > 0, seq![FrameStep::BeamWrite { sample_count }]),
        when(profiling, seq![FrameStep::Timestamp(GpuQuery::AfterBeamWrite)]),
        seq![FrameStep::SpectralResolve],
        when(profiling, seq![FrameStep::Timestamp(GpuQuery::AfterSpectralResolve)]),
        seq![FrameStep::Decay],
        when(profiling, seq![FrameStep::Timestamp(GpuQuery::AfterDecay)]),
        seq![FrameStep::FaceplateScatter],
        when(profiling, seq![FrameStep::Timestamp(GpuQuery::AfterFaceplateScatter)]),
        seq![FrameStep::Composite],
        when(
            profiling,
            seq![FrameStep::Timestamp(GpuQuery::AfterComposite), FrameStep::ResolveQueries],
        ),
        when(overlay, seq![FrameStep::Overlay]),
        seq![FrameStep::Submit, FrameStep::Present],
    ]
}

/// The first `n` pieces, strung together.
spec fn joined(pieces: Seq<Seq<FrameStep>>, n: nat) -> Seq<FrameStep>
    decreases n,
{
    if n == 0 {
        Seq::<FrameStep>::empty()
    } else {
        joined(pieces, (n - 1) as nat) + pieces[n - 1]
    }
}

proof fn lemma_plan_is_joined(sample_count: u32, profiling: bool, overlay: bool)
    ensures
        frame_plan_spec(sample_count, profiling, overlay) == joined(
            plan_pieces(sample_count, profiling, overlay),
            14,
        ),
{
    let pieces = plan_pieces(sample_count, profiling, overlay);
    reveal_with_fuel(joined, 15);
    assert(joined(pieces, 1) =~= pieces[0]);
    assert(frame_plan_spec(sample_count, profiling, overlay) =~= joined(pieces, 14));
}

proof fn lemma_occurrences_joined(pieces: Seq<Seq<FrameStep>>, n: nat, step: FrameStep)
    requires
        n <= pieces.len(),
    ensures
        occurrences(joined(pieces, n), step) == piece_occurrences(pieces, n, step),
    decreases n,
{
    if n > 0 {
        lemma_occurrences_joined(pieces, (n - 1) as nat, step);
        lemma_occurrences_concat(joined(pieces, (n - 1) as nat), pieces[n - 1], step);
    }
}

/// Occurrences of `step` in the first `n` pieces, piece by piece.
spec fn piece_occurrences(pieces: Seq<Seq<FrameStep>>, n: nat, step: FrameStep) -> nat
    decreases n,
{
    if n == 0 {
        0
    } else {
        piece_occurrences(pieces, (n - 1) as nat, step) + occurrences(pieces[n - 1], step)
    }
}

/// Every frame resolves, decays, scatters and composites exactly once, and
/// deposits exactly once when it has samples and not at all when it has
/// none.
pub proof fn lemma_each_pass_runs_once(sample_count: u32, profiling: bool, overlay: bool)
    ensures
        ({
            let plan = frame_plan_spec(sample_count, profiling, overlay);
            &&& occurrences(plan, FrameStep::SpectralResolve) == 1
            &&& occurrences(plan, FrameStep::Decay) == 1
            &&& occurrences(plan, FrameStep::FaceplateScatter) == 1
            &&& occurrences(plan, FrameStep::Composite) == 1
            &&& occurrences(plan, FrameStep::Submit) == 1
            &&& occurrences(plan, FrameStep::Present) == 1
            &&& occurrences(plan, FrameStep::BeamWrite { sample_count }) == if sample_count > 0 {
                1nat
            } else {
                0nat
            }
        }),
{
    lemma_count_in_plan(sample_count, profiling, overlay, FrameStep::SpectralResolve);
    lemma_count_in_plan(sample_count, profiling, overlay, FrameStep::Decay);
    lemma_count_in_plan(sample_count, profiling, overlay, FrameStep::FaceplateScatter);
    lemma_count_in_plan(sample_count, profiling, overlay, FrameStep::Composite);
    lemma_count_in_plan(sample_count, profiling, overlay, FrameStep::Submit);
    lemma_count_in_plan(sample_count, profiling, overlay, FrameStep::Present);
    lemma_count_in_plan(sample_count, profiling, overlay, FrameStep::BeamWrite { sample_count });
}

/// The number of occurrences of a step in a plan, piece by piece.
proof fn lemma_count_in_plan(sample_count: u32, profiling: bool, overlay: bool, step: FrameStep)
    ensures
        occurrences(frame_plan_spec(sample_count, profiling, overlay), step) == piece_occurrences(
            plan_pieces(sample_count, profiling, overlay),
            14,
            step,
        ),
        piece_occurrences(plan_pieces(sample_count, profiling, overlay), 14, step) == (if profiling
            && step == (FrameStep::ReadBack { beam_samples: sample_count }) {
            1nat
        } else {
            0nat
        }) + (if profiling && step == FrameStep::Timestamp(GpuQuery::FrameStart) {
            1nat
        } else {
            0nat
        }) + (if sample_count > 0 && step == (FrameStep::BeamWrite { sample_count }) {
            1nat
        } else {
            0nat
        }) + (if profiling && step == FrameStep::Timestamp(GpuQuery::AfterBeamWrite) {
            1nat
        } else {
            0nat
        }) + (if step == FrameStep::SpectralResolve {
            1nat
        } else {
            0nat
        }) + (if profiling && step == FrameStep::Timestamp(GpuQuery::AfterSpectralResolve) {
            1nat
        } else {
            0nat
        }) + (if step == FrameStep::Decay {
            1nat
        } else {
            0nat
        }) + (if profiling && step == FrameStep::Timestamp(GpuQuery::AfterDecay) {
            1nat
        } else {
            0nat
        }) + (if step == FrameStep::FaceplateScatter {
            1nat
        } else {
            0nat
        }) + (if profiling && step == FrameStep::Timestamp(GpuQuery::AfterFaceplateScatter) {
            1nat
        } else {
            0nat
        }) + (if step == FrameStep::Composite {
            1nat
        } else {
            0nat
        }) + (if profiling && step == FrameStep::Timestamp(GpuQuery::AfterComposite) {
            1nat
        } else {
            0nat
        }) + (if profiling && step == FrameStep::ResolveQueries {
            1nat
        } else {
            0nat
        }) + (if overlay && step == FrameStep::Overlay {
            1nat
        } else {
            0nat
        }) + (if step == FrameStep::Submit {
            1nat
        } else {
            0nat
        }) + (if step == FrameStep::Present {
            1nat
        } else {
            0nat
        }),
{
    let pieces = plan_pieces(sample_count, profiling, overlay);
    lemma_plan_is_joined(sample_count, profiling, overlay);
    lemma_occurrences_joined(pieces, 14, step);
    reveal_with_fuel(piece_occurrences, 15);
    lemma_occurrences_one(FrameStep::ReadBack { beam_samples: sample_count }, step);
    lemma_occurrences_one(FrameStep::Timestamp(GpuQuery::FrameStart), step);
    lemma_occurrences_one(FrameStep::BeamWrite { sample_count }, step);
    lemma_occurrences_one(FrameStep::Timestamp(GpuQuery::AfterBeamWrite), step);
    lemma_occurrences_one(FrameStep::SpectralResolve, step);
    lemma_occurrences_one(FrameStep::Timestamp(GpuQuery::AfterSpectralResolve), step);
    lemma_occurrences_one(FrameStep::Decay, step);
    lemma_occurrences_one(FrameStep::Timestamp(GpuQuery::AfterDecay), step);
    lemma_occurrences_one(FrameStep::FaceplateScatter, step);
    lemma_occurrences_one(FrameStep::Timestamp(GpuQuery::AfterFaceplateScatter), step);
    lemma_occurrences_one(FrameStep::Composite, step);
    lemma_occurrences_two(
        FrameStep::Timestamp(GpuQuery::AfterComposite),
        FrameStep::ResolveQueries,
        step,
    );
    lemma_occurrences_one(FrameStep::Overlay, step);
    lemma_occurrences_two(FrameStep::Submit, FrameStep::Present, step);
    assert(occurrences(Seq::<FrameStep>::empty(), step) == 0);
}

/// Position of the passes in a plan.
pub open spec fn pass_positions(sample_count: u32, profiling: bool) -> (int, int, int, int, int) {
    let p: int = if profiling {
        1
    } else {
        0
    };
    let w: int = if sample_count > 0 {
        1
    } else {
        0
    };
    (2 * p, 3 * p + w, 4 * p + w + 1, 5 * p + w + 2, 6 * p + w + 3)
}

/// The passes of a frame stand in their order: the beam write, when there
/// is one, before the spectral resolve; the resolve before the decay; the
/// decay before the scatter; the scatter before the composite. With each
/// pass running once, energy deposited in a frame is resolved once before
/// the decay of that frame clears what is instantaneous.
pub proof fn lemma_pass_order(sample_count: u32, profiling: bool, overlay: bool)
    ensures
        ({
            let plan = frame_plan_spec(sample_count, profiling, overlay);
            let at = pass_positions(sample_count, profiling);
            &&& sample_count > 0 ==> plan[at.0] == (FrameStep::BeamWrite { sample_count })
            &&& plan[at.1] == FrameStep::SpectralResolve
            &&& plan[at.2] == FrameStep::Decay
            &&& plan[at.3] == FrameStep::FaceplateScatter
            &&& plan[at.4] == FrameStep::Composite
            &&& 0 <= at.0 <= at.1 < at.2 < at.3 < at.4 < plan.len()
            &&& sample_count > 0 ==> at.0 < at.1
            &&& plan[plan.len() - 2] == FrameStep::Submit
            &&& plan[plan.len() - 1] == FrameStep::Present
        }),
{
}

/// What went wrong with the swapchain while a frame was acquired.
#[derive(Clone, Copy, Debug, PartialEq, Eq, Structural)]
pub enum SurfaceFailure {
    /// The swapchain is lost or stale.
    Lost,
    /// The device is out of memory.
    OutOfMemory,
    /// Anything else.
    Other,
}

/// What the frame loop does about a swapchain failure.
#[derive(Clone, Copy, Debug, PartialEq, Eq, Structural)]
pub enum Recovery {
    /// Configure the surface again at its current size; the next frame
    /// proceeds.
    Reconfigure,
    /// Leave the program.
    Exit,
    /// Log the failure and go on.
    Continue,
}

/// Decides what to do about a swapchain failure: a lost swapchain is
/// configured again, running out of memory ends the program, and anything
/// else is passed over.
pub fn recover(failure: SurfaceFailure) -> (r: Recovery)
    ensures
        r == match failure {
            SurfaceFailure::Lost => Recovery::Reconfigure,
            SurfaceFailure::OutOfMemory => Recovery::Exit,
            SurfaceFailure::Other => Recovery::Continue,
        },
{
    match failure {
        SurfaceFailure::Lost => Recovery::Reconfigure,
        SurfaceFailure::OutOfMemory => Recovery::Exit,
        SurfaceFailure::Other => Recovery::Continue,
    }
}

} // verus!
