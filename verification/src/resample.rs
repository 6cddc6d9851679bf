//! Arc-length resampling of the beam path.
//!
//! Resampling walks the samples of a batch and merges short steps, so that
//! energy is deposited about every `threshold` of path length whatever the
//! input rate. Along a run of lit samples it keeps the path length and the
//! energy gathered since the last deposit:
//!
//! * the first lit sample of a run goes out unchanged, as the anchor of the
//!   line that follows;
//! * every later lit sample adds its step and its energy; once the length
//!   reaches the threshold, a deposit goes out at the sample's position;
//! * a blank sample flushes what is gathered, goes out unchanged, and ends
//!   the run;
//! * the end of the batch flushes what is gathered.
//!
//! A deposit carries the gathered energy as its intensity and a duration of
//! exactly one, which tells the later passes that the intensity is energy
//! already integrated.
//!
//! Sums and distances are arithmetic, which this crate leaves to the caller:
//! for a lit sample that continues a run the caller says what the two
//! running sums become ([`Advance`]), and this module decides what happens.

use vstd::prelude::*;
use crate::beam::BeamSample;
use crate::binary32::{Binary32, ONE_BITS};

verus! {

/// What is carried along a run of lit samples.
#[derive(Clone, Copy, Debug, PartialEq, Eq, Structural)]
pub struct ResampleState {
    /// Whether a run of lit samples is open.
    pub in_run: bool,
    /// Position of the last lit sample.
    pub prev_x: Binary32,
    pub prev_y: Binary32,
    /// Energy gathered since the last deposit.
    pub accum_energy: Binary32,
    /// Path length gathered since the last deposit.
    pub accum_dist: Binary32,
}

/// The running sums as they would be with one more lit sample taken in:
/// `dist` is the gathered length plus the distance from the previous position
/// to the sample, `energy` the gathered energy plus the sample's intensity
/// times its duration.
#[derive(Clone, Copy, Debug, PartialEq, Eq, Structural)]
pub struct Advance {
    pub dist: Binary32,
    pub energy: Binary32,
}

/// What one step sends out, in order.
#[derive(Clone, Copy, Debug, PartialEq, Eq, Structural)]
pub enum Emission {
    Nothing,
    One(BeamSample),
    Two(BeamSample, BeamSample),
}

impl Emission {
    /// The samples sent out, in order.
    pub open spec fn samples(self) -> Seq<BeamSample> {
        match self {
            Emission::Nothing => Seq::<BeamSample>::empty(),
            Emission::One(a) => seq![a],
            Emission::Two(a, b) => seq![a, b],
        }
    }
}

/// The state before the first sample of a batch.
pub open spec fn initial_state() -> ResampleState {
    ResampleState {
        in_run: false,
        prev_x: Binary32 { bits: 0 },
        prev_y: Binary32 { bits: 0 },
        accum_energy: Binary32 { bits: 0 },
        accum_dist: Binary32 { bits: 0 },
    }
}

/// Whether a sample is blank: its intensity is zero or less.
pub open spec fn is_blank_sample(sample: BeamSample) -> bool {
    sample.intensity.le_spec(Binary32 { bits: 0 })
}

/// A deposit of `energy` at `(x, y)`.
pub open spec fn deposit(x: Binary32, y: Binary32, energy: Binary32) -> BeamSample {
    BeamSample { x, y, intensity: energy, dt: Binary32 { bits: ONE_BITS } }
}

/// Whether resampling leaves a batch as it is: there is nothing to do for an
/// empty batch, and a threshold of zero or less merges nothing.
pub open spec fn is_passthrough(len: nat, threshold: Binary32) -> bool {
    len == 0 || threshold.le_spec(Binary32 { bits: 0 })
}

impl ResampleState {
    /// Whether gathered energy waits to be flushed.
    pub open spec fn has_pending(self) -> bool {
        self.in_run && self.accum_energy.gt_spec(Binary32 { bits: 0 })
    }

    /// The deposit that a flush sends out.
    pub open spec fn pending_deposit(self) -> BeamSample {
        deposit(self.prev_x, self.prev_y, self.accum_energy)
    }

    /// The state with both sums back at zero.
    pub open spec fn cleared(self) -> ResampleState {
        ResampleState { accum_energy: Binary32 { bits: 0 }, accum_dist: Binary32 { bits: 0 }, ..self }
    }

    /// The state after one sample.
    pub open spec fn step_state(
        self,
        sample: BeamSample,
        advance: Advance,
        threshold: Binary32,
    ) -> ResampleState {
        if is_blank_sample(sample) {
            ResampleState { in_run: false, ..self.cleared() }
        } else if !self.in_run {
            ResampleState {
                in_run: true,
                prev_x: sample.x,
                prev_y: sample.y,
                accum_energy: Binary32 { bits: 0 },
                accum_dist: Binary32 { bits: 0 },
            }
        } else if advance.dist.ge_spec(threshold) {
            ResampleState {
                in_run: true,
                prev_x: sample.x,
                prev_y: sample.y,
                accum_energy: Binary32 { bits: 0 },
                accum_dist: Binary32 { bits: 0 },
            }
        } else {
            ResampleState {
                in_run: true,
                prev_x: sample.x,
                prev_y: sample.y,
                accum_energy: advance.energy,
                accum_dist: advance.dist,
            }
        }
    }

    /// What one sample sends out.
    pub open spec fn step_output(
        self,
        sample: BeamSample,
        advance: Advance,
        threshold: Binary32,
    ) -> Emission {
        if is_blank_sample(sample) {
            if self.has_pending() {
                Emission::Two(self.pending_deposit(), sample)
            } else {
                Emission::One(sample)
            }
        } else if !self.in_run {
            Emission::One(sample)
        } else if advance.dist.ge_spec(threshold) {
            Emission::One(deposit(sample.x, sample.y, advance.energy))
        } else {
            Emission::Nothing
        }
    }

    /// The state before the first sample of a batch.
    pub fn new() -> (s: ResampleState)
        ensures
            s == initial_state(),
    {
        ResampleState {
            in_run: false,
            prev_x: Binary32::zero(),
            prev_y: Binary32::zero(),
            accum_energy: Binary32::zero(),
            accum_dist: Binary32::zero(),
        }
    }

    /// Takes in one sample and says what goes out.
    ///
    /// `advance` is looked at only when the sample is lit and continues a
    /// run.
    pub fn step(&mut self, sample: BeamSample, advance: Advance, threshold: Binary32) -> (out: Emission)
        ensures
            *final(self) == old(self).step_state(sample, advance, threshold),
            out == old(self).step_output(sample, advance, threshold),
    {
        let zero = Binary32::zero();
        if sample.intensity.le(zero) {
            let out = if self.in_run && self.accum_energy.gt(zero) {
                Emission::Two(
                    BeamSample {
                        x: self.prev_x,
                        y: self.prev_y,
                        intensity: self.accum_energy,
                        dt: Binary32::one(),
                    },
                    sample,
                )
            } else {
                Emission::One(sample)
            };
            self.accum_energy = zero;
            self.accum_dist = zero;
            self.in_run = false;
            return out;
        }
        if !self.in_run {
            self.prev_x = sample.x;
            self.prev_y = sample.y;
            self.accum_energy = zero;
            self.accum_dist = zero;
            self.in_run = true;
            return Emission::One(sample);
        }
        self.accum_dist = advance.dist;
        self.accum_energy = advance.energy;
        self.prev_x = sample.x;
        self.prev_y = sample.y;
        if self.accum_dist.ge(threshold) {
            let out = Emission::One(
                BeamSample { x: sample.x, y: sample.y, intensity: self.accum_energy, dt: Binary32::one() },
            );
            self.accum_energy = zero;
            self.accum_dist = zero;
            out
        } else {
            Emission::Nothing
        }
    }

    /// The flush at the end of a batch: the deposit of whatever energy is
    /// still gathered.
    pub fn finish(&self) -> (out: Option<BeamSample>)
        ensures
            out == if self.has_pending() {
                Some(self.pending_deposit())
            } else {
                None::<BeamSample>
            },
    {
        if self.in_run && self.accum_energy.gt(Binary32::zero()) {
            Some(
                BeamSample {
                    x: self.prev_x,
                    y: self.prev_y,
                    intensity: self.accum_energy,
                    dt: Binary32::one(),
                },
            )
        } else {
            None
        }
    }
}

/// Whether resampling leaves the batch as it is.
pub fn passthrough(len: usize, threshold: Binary32) -> (r: bool)
    ensures
        r == is_passthrough(len as nat, threshold),
{
    len == 0 || threshold.le(Binary32::zero())
}

/// One sample with the sums that the caller worked out for it.
pub struct Event {
    pub sample: BeamSample,
    pub advance: Advance,
}

/// The state after a whole list of events.
pub open spec fn run_state(state: ResampleState, events: Seq<Event>, threshold: Binary32) -> ResampleState
    decreases events.len(),
{
    if events.len() == 0 {
        state
    } else {
        run_state(state, events.drop_last(), threshold).step_state(
            events.last().sample,
            events.last().advance,
            threshold,
        )
    }
}

/// Everything that a list of events sends out, in order, before the final
/// flush.
pub open spec fn run_output(state: ResampleState, events: Seq<Event>, threshold: Binary32) -> Seq<
    BeamSample,
>
    decreases events.len(),
{
    if events.len() == 0 {
        Seq::<BeamSample>::empty()
    } else {
        run_output(state, events.drop_last(), threshold) + run_state(
            state,
            events.drop_last(),
            threshold,
        ).step_output(events.last().sample, events.last().advance, threshold).samples()
    }
}

/// The final flush after a list of events.
pub open spec fn run_flush(state: ResampleState, events: Seq<Event>, threshold: Binary32) -> Seq<
    BeamSample,
> {
    let last = run_state(state, events, threshold);
    if last.has_pending() {
        seq![last.pending_deposit()]
    } else {
        Seq::<BeamSample>::empty()
    }
}

/// The resampled batch: what the events send out, then the final flush.
pub open spec fn resampled(events: Seq<Event>, threshold: Binary32) -> Seq<BeamSample> {
    run_output(initial_state(), events, threshold) + run_flush(initial_state(), events, threshold)
}

/// An empty batch resamples to an empty batch.
pub proof fn lemma_empty_batch(threshold: Binary32)
    ensures
        resampled(Seq::<Event>::empty(), threshold) == Seq::<BeamSample>::empty(),
        is_passthrough(0, threshold),
{
    assert(resampled(Seq::<Event>::empty(), threshold) =~= Seq::<BeamSample>::empty());
}

/// A threshold of zero merges nothing, whatever the samples are.
pub proof fn lemma_zero_threshold_passes_through(len: nat)
    ensures
        is_passthrough(len, Binary32 { bits: 0 }),
        is_passthrough(len, Binary32 { bits: 0x8000_0000 }),
{
}

/// A single lit sample comes out unchanged, with nothing flushed after it.
pub proof fn lemma_single_sample(event: Event, threshold: Binary32)
    requires
        !is_blank_sample(event.sample),
    ensures
        resampled(seq![event], threshold) == seq![event.sample],
{
    let events = seq![event];
    let none = Seq::<Event>::empty();
    assert(events =~= none.push(event));
    lemma_run_push(initial_state(), none, event, threshold);
    assert(run_state(initial_state(), none, threshold) == initial_state());
    assert(run_output(initial_state(), none, threshold) =~= Seq::<BeamSample>::empty());
    let s1 = run_state(initial_state(), events, threshold);
    assert(!s1.has_pending());
    assert(run_output(initial_state(), events, threshold) =~= seq![event.sample]);
    assert(resampled(events, threshold) =~= seq![event.sample]);
}

/// Whether every event is a lit sample whose gathered length stays under the
/// threshold.
pub open spec fn all_lit_and_short(events: Seq<Event>, threshold: Binary32) -> bool {
    forall|i: int|
        0 <= i < events.len() ==> !is_blank_sample((#[trigger] events[i]).sample)
            && !events[i].advance.dist.ge_spec(threshold)
}

/// Along lit samples that never reach the threshold, only the first sample
/// goes out; the run stays open at the last position with the energy that
/// the last sum gave.
pub proof fn lemma_short_run(events: Seq<Event>, threshold: Binary32)
    requires
        events.len() >= 1,
        all_lit_and_short(events, threshold),
    ensures
        run_output(initial_state(), events, threshold) == seq![events[0].sample],
        run_state(initial_state(), events, threshold).in_run,
        run_state(initial_state(), events, threshold).prev_x == events.last().sample.x,
        run_state(initial_state(), events, threshold).prev_y == events.last().sample.y,
        events.len() >= 2 ==> run_state(initial_state(), events, threshold).accum_energy
            == events.last().advance.energy,
        events.len() == 1 ==> run_state(initial_state(), events, threshold).accum_energy.bits == 0,
    decreases events.len(),
{
    let init = initial_state();
    let before = events.drop_last();
    assert(events =~= before.push(events.last()));
    lemma_run_push(init, before, events.last(), threshold);
    if events.len() == 1 {
        assert(before =~= Seq::<Event>::empty());
        assert(run_state(init, before, threshold) == init);
        assert(run_output(init, before, threshold) =~= Seq::<BeamSample>::empty());
        assert(run_output(init, events, threshold) =~= seq![events[0].sample]);
    } else {
        assert(all_lit_and_short(before, threshold)) by {
            assert forall|i: int| 0 <= i < before.len() implies !is_blank_sample(
                (#[trigger] before[i]).sample,
            ) && !before[i].advance.dist.ge_spec(threshold) by {
                assert(before[i] == events[i]);
            }
        }
        lemma_short_run(before, threshold);
        assert(before[0] == events[0]);
        assert(run_output(init, events, threshold) =~= seq![events[0].sample]);
    }
}

/// A stationary beam, or any run that never reaches the threshold, comes
/// out as its first sample followed by one flush that carries all the
/// energy gathered after it.
pub proof fn lemma_stationary_beam(events: Seq<Event>, threshold: Binary32)
    requires
        events.len() >= 2,
        all_lit_and_short(events, threshold),
        events.last().advance.energy.gt_spec(Binary32 { bits: 0 }),
    ensures
        resampled(events, threshold) == seq![
            events[0].sample,
            deposit(events.last().sample.x, events.last().sample.y, events.last().advance.energy),
        ],
{
    lemma_short_run(events, threshold);
    assert(resampled(events, threshold) =~= seq![
        events[0].sample,
        deposit(events.last().sample.x, events.last().sample.y, events.last().advance.energy),
    ]);
}

/// A blank sample breaks the run: it goes out unchanged, right after the
/// flush of the run that it ends, and leaves no run open, so the next lit
/// sample starts a run of its own and goes out unchanged as well.
pub proof fn lemma_blank_breaks_run(
    state: ResampleState,
    blank: BeamSample,
    advance: Advance,
    next: BeamSample,
    next_advance: Advance,
    threshold: Binary32,
)
    requires
        is_blank_sample(blank),
        !is_blank_sample(next),
    ensures
        state.step_output(blank, advance, threshold).samples().last() == blank,
        state.has_pending() ==> state.step_output(blank, advance, threshold).samples() == seq![
            state.pending_deposit(),
            blank,
        ],
        !state.has_pending() ==> state.step_output(blank, advance, threshold).samples() == seq![blank],
        !state.step_state(blank, advance, threshold).in_run,
        !state.step_state(blank, advance, threshold).has_pending(),
        state.step_state(blank, advance, threshold).step_output(next, next_advance, threshold)
            == Emission::One(next),
        state.step_state(blank, advance, threshold).step_state(next, next_advance, threshold).in_run,
{
}

/// Whether event `i` continues a run: it is lit, and so is the one before.
pub open spec fn continues_run(events: Seq<Event>, i: int) -> bool {
    0 < i < events.len() && !is_blank_sample(events[i - 1].sample) && !is_blank_sample(events[i].sample)
}

/// Whether resampling finds nothing to merge at event `i`. An event that
/// starts a run or is blank always qualifies. One that continues a run
/// qualifies if it is a deposit already (its duration is one and its sum of
/// energy is its own intensity) and either lies a threshold or more from
/// the deposit before it, or carries energy and is the last of its run.
pub open spec fn stands_apart(events: Seq<Event>, i: int, threshold: Binary32) -> bool {
    continues_run(events, i) ==> {
        &&& events[i].sample.dt.bits == ONE_BITS
        &&& events[i].advance.energy == events[i].sample.intensity
        &&& events[i].advance.dist.ge_spec(threshold) || (events[i].sample.intensity.gt_spec(
            Binary32 { bits: 0 },
        ) && (i + 1 == events.len() || is_blank_sample(events[i + 1].sample)))
    }
}

proof fn lemma_apart_prefix(events: Seq<Event>, threshold: Binary32, k: int)
    requires
        0 <= k <= events.len(),
        forall|i: int| 0 <= i < events.len() ==> stands_apart(events, i, threshold),
    ensures
        resampled(events.take(k), threshold) == samples_of(events.take(k)),
        run_state(initial_state(), events.take(k), threshold).in_run == (k > 0 && !is_blank_sample(
            events[k - 1].sample,
        )),
        run_state(initial_state(), events.take(k), threshold).has_pending() ==> k == events.len()
            || is_blank_sample(events[k].sample),
    decreases k,
{
    let init = initial_state();
    if k == 0 {
        assert(events.take(0) =~= Seq::<Event>::empty());
        assert(resampled(events.take(0), threshold) =~= samples_of(events.take(0)));
    } else {
        lemma_apart_prefix(events, threshold, k - 1);
        let before = events.take(k - 1);
        let event = events[k - 1];
        assert(events.take(k) =~= before.push(event));
        lemma_run_push(init, before, event, threshold);
        assert(samples_of(events.take(k)) =~= samples_of(before).push(event.sample));
        let state = run_state(init, before, threshold);
        assert(stands_apart(events, k - 1, threshold));
        if !is_blank_sample(event.sample) && state.in_run {
            assert(continues_run(events, k - 1));
            assert(!state.has_pending());
            assert(deposit(event.sample.x, event.sample.y, event.advance.energy) == event.sample);
        }
        assert(resampled(events.take(k), threshold) =~= samples_of(before).push(event.sample));
    }
}

/// A batch whose deposits stand apart is left as it is: where resampling
/// finds nothing to merge at any sample, what comes out is the batch
/// itself. This is what a second pass over a resampled batch finds unless
/// the path turns back on itself, so that deposits a threshold apart along
/// the path lie closer than that to each other.
pub proof fn lemma_spread_batch_is_unchanged(events: Seq<Event>, threshold: Binary32)
    requires
        forall|i: int| 0 <= i < events.len() ==> stands_apart(events, i, threshold),
    ensures
        resampled(events, threshold) == samples_of(events),
{
    lemma_apart_prefix(events, threshold, events.len() as int);
    assert(events.take(events.len() as int) =~= events);
}

/// Extending a list of events by one extends the output by that step's
/// emission.
pub proof fn lemma_run_push(state: ResampleState, events: Seq<Event>, event: Event, threshold: Binary32)
    ensures
        run_state(state, events.push(event), threshold) == run_state(state, events, threshold).step_state(
            event.sample,
            event.advance,
            threshold,
        ),
        run_output(state, events.push(event), threshold) == run_output(state, events, threshold)
            + run_state(state, events, threshold).step_output(
            event.sample,
            event.advance,
            threshold,
        ).samples(),
{
    assert(events.push(event).drop_last() =~= events);
}

/// Resampling never sends out more than one sample beyond its input: every
/// step sends at most two samples, and it sends two only when it closes a
/// run that an earlier step opened.
pub proof fn lemma_step_output_bound(
    state: ResampleState,
    sample: BeamSample,
    advance: Advance,
    threshold: Binary32,
)
    ensures
        state.step_output(sample, advance, threshold).samples().len() <= 2,
        state.step_output(sample, advance, threshold).samples().len() == 2 ==> state.in_run
            && !state.step_state(sample, advance, threshold).in_run,
{
}

/// The energy of a list of samples under a reading `energy_of` of what
/// energy one sample carries.
pub open spec fn total_energy(samples: Seq<BeamSample>, energy_of: spec_fn(BeamSample) -> int) -> int
    decreases samples.len(),
{
    if samples.len() == 0 {
        0
    } else {
        total_energy(samples.drop_last(), energy_of) + energy_of(samples.last())
    }
}

/// The samples of a list of events.
pub open spec fn samples_of(events: Seq<Event>) -> Seq<BeamSample> {
    events.map_values(|e: Event| e.sample)
}

/// Whether `value` and `energy_of` read numbers and samples as exact
/// quantities of energy: zero reads as nothing, a number is positive exactly
/// when it reads as a positive quantity, a lit sample carries no negative
/// energy, and a deposit carries the energy that its intensity reads as.
pub open spec fn reads_energy(value: spec_fn(Binary32) -> int, energy_of: spec_fn(BeamSample) -> int) -> bool {
    &&& value(Binary32 { bits: 0 }) == 0
    &&& forall|v: Binary32| v.gt_spec(Binary32 { bits: 0 }) <==> #[trigger] value(v) > 0
    &&& forall|s: BeamSample| !is_blank_sample(s) ==> #[trigger] energy_of(s) >= 0
    &&& forall|x: Binary32, y: Binary32, e: Binary32| #[trigger]
        energy_of(deposit(x, y, e)) == value(e)
}

/// Whether the energy sums of `events` are exact under `value` and
/// `energy_of`: wherever a step looks at the sums, the new energy reads as
/// the gathered energy plus the energy of the sample.
pub open spec fn sums_exactly(
    events: Seq<Event>,
    threshold: Binary32,
    value: spec_fn(Binary32) -> int,
    energy_of: spec_fn(BeamSample) -> int,
) -> bool {
    forall|i: int|
        0 <= i < events.len() && uses_advance(
            run_state(initial_state(), events.take(i), threshold),
            events[i].sample,
        ) ==> value((#[trigger] events[i]).advance.energy) == value(
            run_state(initial_state(), events.take(i), threshold).accum_energy,
        ) + energy_of(events[i].sample)
}

/// The energy that waits in a state.
pub open spec fn pending_energy(state: ResampleState, value: spec_fn(Binary32) -> int) -> int {
    if state.in_run {
        value(state.accum_energy)
    } else {
        0
    }
}

proof fn lemma_total_energy_concat(
    a: Seq<BeamSample>,
    b: Seq<BeamSample>,
    energy_of: spec_fn(BeamSample) -> int,
)
    ensures
        total_energy(a + b, energy_of) == total_energy(a, energy_of) + total_energy(b, energy_of),
    decreases b.len(),
{
    if b.len() == 0 {
        assert(a + b =~= a);
    } else {
        assert((a + b).drop_last() =~= a + b.drop_last());
        lemma_total_energy_concat(a, b.drop_last(), energy_of);
    }
}

proof fn lemma_total_energy_small(energy_of: spec_fn(BeamSample) -> int, a: BeamSample, b: BeamSample)
    ensures
        total_energy(Seq::<BeamSample>::empty(), energy_of) == 0,
        total_energy(seq![a], energy_of) == energy_of(a),
        total_energy(seq![a, b], energy_of) == energy_of(a) + energy_of(b),
{
    reveal_with_fuel(total_energy, 3);
    assert(seq![a].drop_last() =~= Seq::<BeamSample>::empty());
    assert(seq![a, b].drop_last() =~= seq![a]);
}

/// While the sums are exact, what has gone out and what still waits add
/// up to what has come in, and what waits is never negative.
proof fn lemma_energy_balance(
    events: Seq<Event>,
    threshold: Binary32,
    value: spec_fn(Binary32) -> int,
    energy_of: spec_fn(BeamSample) -> int,
)
    requires
        reads_energy(value, energy_of),
        sums_exactly(events, threshold, value, energy_of),
    ensures
        total_energy(run_output(initial_state(), events, threshold), energy_of) + pending_energy(
            run_state(initial_state(), events, threshold),
            value,
        ) == total_energy(samples_of(events), energy_of),
        pending_energy(run_state(initial_state(), events, threshold), value) >= 0,
    decreases events.len(),
{
    let init = initial_state();
    if events.len() == 0 {
        assert(samples_of(events) =~= Seq::<BeamSample>::empty());
    } else {
        let before = events.drop_last();
        let last = events.last();
        assert(sums_exactly(before, threshold, value, energy_of)) by {
            assert forall|i: int|
                0 <= i < before.len() && uses_advance(
                    run_state(init, before.take(i), threshold),
                    before[i].sample,
                ) implies value((#[trigger] before[i]).advance.energy) == value(
                run_state(init, before.take(i), threshold).accum_energy,
            ) + energy_of(before[i].sample) by {
                assert(before.take(i) =~= events.take(i));
                assert(before[i] == events[i]);
            }
        }
        lemma_energy_balance(before, threshold, value, energy_of);
        let state = run_state(init, before, threshold);
        let emitted = state.step_output(last.sample, last.advance, threshold).samples();
        assert(events.take(events.len() - 1) =~= before);
        assert(events[events.len() - 1] == last);
        assert(samples_of(events).drop_last() =~= samples_of(before));
        assert(samples_of(events).last() == last.sample);
        lemma_total_energy_concat(run_output(init, before, threshold), emitted, energy_of);
        lemma_total_energy_small(energy_of, state.pending_deposit(), last.sample);
        lemma_total_energy_small(
            energy_of,
            deposit(last.sample.x, last.sample.y, last.advance.energy),
            last.sample,
        );
        lemma_total_energy_small(energy_of, last.sample, last.sample);
        if is_blank_sample(last.sample) {
            if state.has_pending() {
                assert(emitted =~= seq![state.pending_deposit(), last.sample]);
            } else {
                assert(emitted =~= seq![last.sample]);
            }
        } else if !state.in_run {
            assert(emitted =~= seq![last.sample]);
        } else if last.advance.dist.ge_spec(threshold) {
            assert(emitted =~= seq![deposit(last.sample.x, last.sample.y, last.advance.energy)]);
        } else {
            assert(emitted =~= Seq::<BeamSample>::empty());
        }
    }
}

/// Resampling conserves energy wherever the sums are exact: under any
/// reading of numbers as exact quantities of energy, the resampled batch
/// carries the energy of its input. Whatever a batch gains or loses in
/// resampling is the rounding of the sums.
pub proof fn lemma_energy_conserved(
    events: Seq<Event>,
    threshold: Binary32,
    value: spec_fn(Binary32) -> int,
    energy_of: spec_fn(BeamSample) -> int,
)
    requires
        reads_energy(value, energy_of),
        sums_exactly(events, threshold, value, energy_of),
    ensures
        total_energy(resampled(events, threshold), energy_of) == total_energy(
            samples_of(events),
            energy_of,
        ),
{
    let init = initial_state();
    lemma_energy_balance(events, threshold, value, energy_of);
    let last = run_state(init, events, threshold);
    lemma_total_energy_concat(
        run_output(init, events, threshold),
        run_flush(init, events, threshold),
        energy_of,
    );
    lemma_total_energy_small(energy_of, last.pending_deposit(), last.pending_deposit());
}

/// Whether a step looks at the sums: only for a lit sample that continues a
/// run.
pub open spec fn uses_advance(state: ResampleState, sample: BeamSample) -> bool {
    !is_blank_sample(sample) && state.in_run
}

/// Whether `events` is a walk over `samples` with sums as `advance` gives
/// them: one event per sample, in order, and wherever a step looks at the
/// sums they are what `advance` returned for the state before the step.
pub open spec fn walks<F: Fn(ResampleState, BeamSample) -> Advance>(
    events: Seq<Event>,
    samples: Seq<BeamSample>,
    threshold: Binary32,
    advance: F,
) -> bool {
    &&& events.len() == samples.len()
    &&& forall|i: int| 0 <= i < events.len() ==> (#[trigger] events[i]).sample == samples[i]
    &&& forall|i: int|
        0 <= i < events.len() && uses_advance(
            run_state(initial_state(), events.take(i), threshold),
            samples[i],
        ) ==> call_ensures(
            advance,
            (run_state(initial_state(), events.take(i), threshold), samples[i]),
            (#[trigger] events[i]).advance,
        )
}

/// Resamples a batch by arc length.
///
/// `advance` does the arithmetic: called with the state of the run and a
/// lit sample that continues it, it returns the gathered length plus the
/// distance from the previous position to the sample, and the gathered
/// energy plus the sample's intensity times its duration.
///
/// An empty batch, and any batch under a threshold of zero or less, comes
/// back as it is. Otherwise the result is what the walk over the samples
/// sends out, followed by the final flush.
pub fn arc_length_resample<F: Fn(ResampleState, BeamSample) -> Advance>(
    samples: &[BeamSample],
    threshold: Binary32,
    advance: F,
) -> (out: Vec<BeamSample>)
    requires
        forall|state: ResampleState, sample: BeamSample| call_requires(advance, (state, sample)),
    ensures
        is_passthrough(samples@.len(), threshold) ==> out@ == samples@,
        !is_passthrough(samples@.len(), threshold) ==> exists|events: Seq<Event>|
            walks(events, samples@, threshold, advance) && out@ == resampled(events, threshold),
{
    let mut out: Vec<BeamSample> = Vec::new();
    if passthrough(samples.len(), threshold) {
        let mut i: usize = 0;
        while i < samples.len()
            invariant
                i <= samples@.len(),
                out@ == samples@.take(i as int),
            decreases samples@.len() - i,
        {
            out.push(samples[i]);
            assert(samples@.take(i + 1) =~= samples@.take(i as int).push(samples@[i as int]));
            i += 1;
        }
        assert(samples@.take(samples@.len() as int) =~= samples@);
        return out;
    }
    let mut state = ResampleState::new();
    let ghost mut events: Seq<Event> = Seq::empty();
    let mut i: usize = 0;
    while i < samples.len()
        invariant
            i <= samples@.len(),
            forall|state: ResampleState, sample: BeamSample| call_requires(advance, (state, sample)),
            walks(events, samples@.take(i as int), threshold, advance),
            state == run_state(initial_state(), events, threshold),
            out@ == run_output(initial_state(), events, threshold),
        decreases samples@.len() - i,
    {
        let sample = samples[i];
        let sums = if !sample.intensity.le(Binary32::zero()) && state.in_run {
            advance(state, sample)
        } else {
            Advance { dist: Binary32::zero(), energy: Binary32::zero() }
        };
        let ghost before = state;
        let ghost earlier = events;
        let emitted = state.step(sample, sums, threshold);
        match emitted {
            Emission::Nothing => {},
            Emission::One(a) => {
                out.push(a);
            },
            Emission::Two(a, b) => {
                out.push(a);
                out.push(b);
            },
        }
        proof {
            let event = Event { sample, advance: sums };
            events = earlier.push(event);
            lemma_run_push(initial_state(), earlier, event, threshold);
            assert(out@ =~= run_output(initial_state(), earlier, threshold) + emitted.samples());
            assert(samples@.take(i + 1) =~= samples@.take(i as int).push(sample));
            assert forall|k: int|
                0 <= k < events.len() && uses_advance(
                    run_state(initial_state(), events.take(k), threshold),
                    samples@.take(i + 1)[k],
                ) implies call_ensures(
                advance,
                (run_state(initial_state(), events.take(k), threshold), samples@.take(i + 1)[k]),
                (#[trigger] events[k]).advance,
            ) by {
                if k < earlier.len() {
                    assert(events.take(k) =~= earlier.take(k));
                    assert(events[k] == earlier[k]);
                    assert(samples@.take(i + 1)[k] == samples@.take(i as int)[k]);
                } else {
                    assert(events.take(k) =~= earlier);
                }
            }
        }
        i += 1;
    }
    proof {
        assert(samples@.take(samples@.len() as int) =~= samples@);
    }
    match state.finish() {
        Some(last) => {
            out.push(last);
        },
        None => {},
    }
    assert(out@ =~= resampled(events, threshold));
    out
}

} // verus!
