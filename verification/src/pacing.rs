//! Pacing of the two loops that share the sample channel.
//!
//! The sample producer generates a batch, pushes it, and sleeps until its
//! next deadline. The length of a batch adapts to the machine: it starts at
//! one millisecond and stays between one and ten; it doubles when a batch
//! takes more than four fifths of it to generate or when a second's
//! throughput falls under nine tenths of the sample rate, and halves when a
//! batch takes less than one fifth. A missed deadline is reset, never
//! caught up with a burst.
//!
//! The renderer drains at most two frame intervals' worth of samples per
//! frame, so that a stall cannot decay the image by a large step at once.
//!
//! Times are nanoseconds on a monotonic clock of the caller's; rates are
//! whole samples per second.

use vstd::prelude::*;

verus! {

/// Shortest batch interval: one millisecond.
pub const MIN_BATCH_INTERVAL_NS: u64 = 1_000_000;

/// Longest batch interval: ten milliseconds.
pub const MAX_BATCH_INTERVAL_NS: u64 = 10_000_000;

/// Nanoseconds in a second.
pub const NANOS_PER_SECOND: u64 = 1_000_000_000;

/// Frame interval when the display's refresh rate is unknown: 60 Hz, in
/// microseconds.
pub const DEFAULT_FRAME_INTERVAL_US: u64 = 16_667;

/// Twice the interval, but no more than the longest.
pub open spec fn doubled(interval_ns: int) -> int {
    if 2 * interval_ns > MAX_BATCH_INTERVAL_NS {
        MAX_BATCH_INTERVAL_NS as int
    } else {
        2 * interval_ns
    }
}

/// Half the interval, but no less than the shortest.
pub open spec fn halved(interval_ns: int) -> int {
    if interval_ns / 2 < MIN_BATCH_INTERVAL_NS {
        MIN_BATCH_INTERVAL_NS as int
    } else {
        interval_ns / 2
    }
}

/// Whole samples that a rate produces in an interval.
pub open spec fn samples_in(sample_rate_hz: int, interval_ns: int) -> int {
    (sample_rate_hz * interval_ns) / (NANOS_PER_SECOND as int)
}

/// `value`, but no more than the largest `usize`.
pub open spec fn clamp_to_usize(value: int) -> int {
    if value > usize::MAX {
        usize::MAX as int
    } else {
        value
    }
}

/// Number of samples of the next batch: what the sample rate produces in
/// one batch interval, and at least one.
pub open spec fn batch_size_spec(sample_rate_hz: int, batch_interval_ns: int) -> int {
    let n = clamp_to_usize(samples_in(sample_rate_hz, batch_interval_ns));
    if n < 1 {
        1
    } else {
        n
    }
}

fn samples_in_interval(sample_rate_hz: u64, interval_ns: u64) -> (n: usize)
    ensures
        n == clamp_to_usize(samples_in(sample_rate_hz as int, interval_ns as int)),
{
    assert(sample_rate_hz * interval_ns <= 0xffff_ffff_ffff_ffff * 0xffff_ffff_ffff_ffff)
        by (nonlinear_arith)
        requires
            sample_rate_hz <= 0xffff_ffff_ffff_ffff,
            interval_ns <= 0xffff_ffff_ffff_ffff,
    ;
    let product: u128 = (sample_rate_hz as u128) * (interval_ns as u128);
    let whole: u128 = product / (NANOS_PER_SECOND as u128);
    if whole > usize::MAX as u128 {
        usize::MAX
    } else {
        whole as usize
    }
}

/// Number of samples of the next batch.
pub fn batch_size(sample_rate_hz: u64, batch_interval_ns: u64) -> (n: usize)
    ensures
        n == batch_size_spec(sample_rate_hz as int, batch_interval_ns as int),
        n >= 1,
{
    let n = samples_in_interval(sample_rate_hz, batch_interval_ns);
    if n < 1 {
        1
    } else {
        n
    }
}

/// What the producer loop reports after generating and pushing a batch.
#[derive(Clone, Copy, Debug, PartialEq, Eq, Structural)]
pub struct BatchReport {
    /// Samples generated before resampling: the batch size asked for.
    pub generated: usize,
    /// Samples offered to the channel.
    pub offered: usize,
    /// Samples that the channel took.
    pub pushed: usize,
    /// Time that generating and pushing took.
    pub gen_elapsed_ns: u64,
    /// Time since the throughput window was opened.
    pub window_elapsed_ns: u64,
    /// The clock as the batch is done.
    pub now_ns: u64,
}

/// A second's worth of throughput, for the telemetry.
#[derive(Clone, Copy, Debug, PartialEq, Eq, Structural)]
pub struct Throughput {
    /// Samples pushed in the window.
    pub pushed: u64,
    /// Samples generated in the window, before resampling.
    pub generated: u64,
}

/// What the producer loop does after a batch.
#[derive(Clone, Copy, Debug, PartialEq, Eq, Structural)]
pub struct BatchOutcome {
    /// Samples of this batch that the channel did not take.
    pub dropped: usize,
    /// The window's throughput, when a second has passed; the caller
    /// publishes it and opens a new window.
    pub window: Option<Throughput>,
    /// How long to sleep; zero when the deadline has passed already.
    pub sleep_ns: u64,
}

/// The pacing state of the producer loop.
#[derive(Clone, Copy, Debug, PartialEq, Eq, Structural)]
pub struct BatchPacer {
    /// Current batch interval.
    pub batch_interval_ns: u64,
    /// Deadline of the batch in progress.
    pub next_tick_ns: u64,
    /// Samples pushed since the window was opened.
    pub samples_this_second: u64,
    /// Samples generated since the window was opened.
    pub generated_this_second: u64,
    /// Samples dropped since the loop started.
    pub samples_dropped: u64,
}

/// The sum of two counters; a counter that is full stays full.
pub open spec fn counter_add(a: u64, b: int) -> u64 {
    if a + b > u64::MAX {
        u64::MAX
    } else {
        (a + b) as u64
    }
}

fn add_to_counter(a: u64, b: usize) -> (r: u64)
    ensures
        r == counter_add(a, b as int),
{
    let wide: u128 = a as u128 + b as u128;
    if wide > u64::MAX as u128 {
        u64::MAX
    } else {
        wide as u64
    }
}

impl BatchReport {
    /// Samples of the batch that the channel did not take.
    pub open spec fn dropped(self) -> int {
        if self.pushed < self.offered {
            self.offered - self.pushed
        } else {
            0
        }
    }

    /// Whether the throughput window is over: a second has passed.
    pub open spec fn window_over(self) -> bool {
        self.window_elapsed_ns >= NANOS_PER_SECOND
    }
}

impl BatchPacer {
    /// The interval is within its bounds.
    pub open spec fn wf(self) -> bool {
        MIN_BATCH_INTERVAL_NS <= self.batch_interval_ns <= MAX_BATCH_INTERVAL_NS
    }

    /// The pacer of a loop that starts now: the shortest interval, no
    /// counts, and a deadline that the first batch moves on.
    pub fn new(now_ns: u64) -> (p: Self)
        ensures
            p.wf(),
            p == (BatchPacer {
                batch_interval_ns: MIN_BATCH_INTERVAL_NS,
                next_tick_ns: now_ns,
                samples_this_second: 0,
                generated_this_second: 0,
                samples_dropped: 0,
            }),
    {
        BatchPacer {
            batch_interval_ns: MIN_BATCH_INTERVAL_NS,
            next_tick_ns: now_ns,
            samples_this_second: 0,
            generated_this_second: 0,
            samples_dropped: 0,
        }
    }

    /// The interval after the throughput check of a batch: doubled when the
    /// window is over and fewer samples went through than nine tenths of
    /// the sample rate.
    pub open spec fn interval_after_window(self, report: BatchReport, sample_rate_hz: u64) -> int {
        let pushed = counter_add(self.samples_this_second, report.pushed as int);
        if report.window_over() && 10 * pushed < 9 * sample_rate_hz {
            doubled(self.batch_interval_ns as int)
        } else {
            self.batch_interval_ns as int
        }
    }

    /// The interval after a batch: the throughput check first, then the
    /// load check, which doubles the interval when generating took more
    /// than four fifths of it and halves it when generating took less than
    /// one fifth.
    pub open spec fn interval_after(self, report: BatchReport, sample_rate_hz: u64) -> int {
        let interval = self.interval_after_window(report, sample_rate_hz);
        if 5 * report.gen_elapsed_ns > 4 * interval {
            doubled(interval)
        } else if 5 * report.gen_elapsed_ns < interval {
            halved(interval)
        } else {
            interval
        }
    }

    /// The deadline after a batch: the old one moved on by the new
    /// interval, or the present time if that has passed already.
    pub open spec fn tick_after(self, report: BatchReport, sample_rate_hz: u64) -> int {
        let moved = counter_add(self.next_tick_ns, self.interval_after(report, sample_rate_hz));
        if moved > report.now_ns {
            moved as int
        } else {
            report.now_ns as int
        }
    }

    /// Takes in the report of a batch and says what the loop does next.
    ///
    /// Counts the drops, closes the throughput window after a second,
    /// adapts the batch interval, and moves the deadline on.
    pub fn after_batch(&mut self, report: BatchReport, sample_rate_hz: u64) -> (outcome: BatchOutcome)
        requires
            old(self).wf(),
        ensures
            final(self).wf(),
            outcome.dropped == report.dropped(),
            report.pushed <= report.offered ==> outcome.dropped + report.pushed == report.offered,
            final(self).samples_dropped == counter_add(old(self).samples_dropped, report.dropped()),
            final(self).samples_dropped >= old(self).samples_dropped,
            outcome.window is Some <==> report.window_over(),
            outcome.window matches Some(window) ==> window.pushed == counter_add(
                old(self).samples_this_second,
                report.pushed as int,
            ) && window.generated == counter_add(
                old(self).generated_this_second,
                report.generated as int,
            ),
            final(self).samples_this_second == if report.window_over() {
                0
            } else {
                counter_add(old(self).samples_this_second, report.pushed as int)
            },
            final(self).generated_this_second == if report.window_over() {
                0
            } else {
                counter_add(old(self).generated_this_second, report.generated as int)
            },
            final(self).batch_interval_ns == old(self).interval_after(report, sample_rate_hz),
            final(self).next_tick_ns == old(self).tick_after(report, sample_rate_hz),
            outcome.sleep_ns == final(self).next_tick_ns - report.now_ns,
    {
        let dropped: usize = if report.pushed < report.offered {
            report.offered - report.pushed
        } else {
            0
        };
        self.samples_dropped = add_to_counter(self.samples_dropped, dropped);
        self.samples_this_second = add_to_counter(self.samples_this_second, report.pushed);
        self.generated_this_second = add_to_counter(self.generated_this_second, report.generated);
        let mut window: Option<Throughput> = None;
        if report.window_elapsed_ns >= NANOS_PER_SECOND {
            window = Some(
                Throughput { pushed: self.samples_this_second, generated: self.generated_this_second },
            );
            if 10 * (self.samples_this_second as u128) < 9 * (sample_rate_hz as u128) {
                self.batch_interval_ns = double_interval(self.batch_interval_ns);
            }
            self.samples_this_second = 0;
            self.generated_this_second = 0;
        }
        let load: u128 = 5 * (report.gen_elapsed_ns as u128);
        if load > 4 * (self.batch_interval_ns as u128) {
            self.batch_interval_ns = double_interval(self.batch_interval_ns);
        } else if load < self.batch_interval_ns as u128 {
            self.batch_interval_ns = halve_interval(self.batch_interval_ns);
        }
        let moved: u64 = if self.next_tick_ns > u64::MAX - self.batch_interval_ns {
            u64::MAX
        } else {
            self.next_tick_ns + self.batch_interval_ns
        };
        let sleep_ns: u64 = if moved > report.now_ns {
            self.next_tick_ns = moved;
            moved - report.now_ns
        } else {
            self.next_tick_ns = report.now_ns;
            0
        };
        BatchOutcome { dropped, window, sleep_ns }
    }
}

fn double_interval(interval_ns: u64) -> (r: u64)
    requires
        MIN_BATCH_INTERVAL_NS <= interval_ns <= MAX_BATCH_INTERVAL_NS,
    ensures
        r == doubled(interval_ns as int),
        MIN_BATCH_INTERVAL_NS <= r <= MAX_BATCH_INTERVAL_NS,
{
    if 2 * interval_ns > MAX_BATCH_INTERVAL_NS {
        MAX_BATCH_INTERVAL_NS
    } else {
        2 * interval_ns
    }
}

fn halve_interval(interval_ns: u64) -> (r: u64)
    requires
        MIN_BATCH_INTERVAL_NS <= interval_ns <= MAX_BATCH_INTERVAL_NS,
    ensures
        r == halved(interval_ns as int),
        MIN_BATCH_INTERVAL_NS <= r <= MAX_BATCH_INTERVAL_NS,
{
    if interval_ns / 2 < MIN_BATCH_INTERVAL_NS {
        MIN_BATCH_INTERVAL_NS
    } else {
        interval_ns / 2
    }
}

/// One batch as the channel saw it.
pub struct Offer {
    pub offered: nat,
    pub pushed: nat,
}

/// Samples offered over a run of batches.
pub open spec fn total_offered(batches: Seq<Offer>) -> nat
    decreases batches.len(),
{
    if batches.len() == 0 {
        0
    } else {
        total_offered(batches.drop_last()) + batches.last().offered
    }
}

/// Samples pushed over a run of batches.
pub open spec fn total_pushed(batches: Seq<Offer>) -> nat
    decreases batches.len(),
{
    if batches.len() == 0 {
        0
    } else {
        total_pushed(batches.drop_last()) + batches.last().pushed
    }
}

/// Samples dropped over a run of batches: of each batch, what was offered
/// and not pushed.
pub open spec fn total_dropped(batches: Seq<Offer>) -> nat
    decreases batches.len(),
{
    if batches.len() == 0 {
        0
    } else {
        total_dropped(batches.drop_last()) + (batches.last().offered - batches.last().pushed) as nat
    }
}

/// Over any run of batches, what was pushed and what was dropped add up to
/// what was offered: no sample goes uncounted.
pub proof fn lemma_drops_account_for_offers(batches: Seq<Offer>)
    requires
        forall|i: int| 0 <= i < batches.len() ==> (#[trigger] batches[i]).pushed <= batches[i].offered,
    ensures
        total_pushed(batches) + total_dropped(batches) == total_offered(batches),
    decreases batches.len(),
{
    if batches.len() > 0 {
        let before = batches.drop_last();
        assert forall|i: int| 0 <= i < before.len() implies (#[trigger] before[i]).pushed
            <= before[i].offered by {
            assert(before[i] == batches[i]);
        }
        lemma_drops_account_for_offers(before);
    }
}

/// The interval between frames at a refresh rate given in thousandths of a
/// hertz, in microseconds; the 60 Hz default when the rate is unknown or
/// zero.
pub fn frame_interval_us(refresh_millihertz: Option<u32>) -> (us: u64)
    ensures
        us == match refresh_millihertz {
            Some(rate) if rate > 0 => 1_000_000_000int / (rate as int),
            _ => DEFAULT_FRAME_INTERVAL_US as int,
        },
{
    match refresh_millihertz {
        Some(rate) => {
            if rate > 0 {
                1_000_000_000u64 / (rate as u64)
            } else {
                DEFAULT_FRAME_INTERVAL_US
            }
        },
        None => DEFAULT_FRAME_INTERVAL_US,
    }
}

/// The deadline of the next frame: the last deadline moved on by one
/// frame interval, or one interval from now if that has passed already.
pub fn next_frame_deadline(next_frame_ns: u64, frame_interval_ns: u64, now_ns: u64) -> (deadline: u64)
    requires
        next_frame_ns + frame_interval_ns <= u64::MAX,
        now_ns + frame_interval_ns <= u64::MAX,
    ensures
        deadline == if next_frame_ns + frame_interval_ns < now_ns {
            now_ns + frame_interval_ns
        } else {
            next_frame_ns + frame_interval_ns
        },
        deadline >= now_ns,
{
    let moved: u64 = next_frame_ns + frame_interval_ns;
    if moved < now_ns {
        now_ns + frame_interval_ns
    } else {
        moved
    }
}

/// Most samples that one frame drains from the channel: what the sample
/// rate produces in two frame intervals.
pub fn drain_cap(sample_rate_hz: u64, frame_interval_ns: u64) -> (cap: usize)
    requires
        2 * frame_interval_ns <= u64::MAX,
    ensures
        cap == clamp_to_usize(samples_in(sample_rate_hz as int, 2 * frame_interval_ns)),
{
    samples_in_interval(sample_rate_hz, 2 * frame_interval_ns)
}

/// Two to the power `k`.
pub open spec fn pow2(k: nat) -> nat
    decreases k,
{
    if k == 0 {
        1
    } else {
        2 * pow2((k - 1) as nat)
    }
}

/// Whether `n` is a power of two.
pub open spec fn is_power_of_two(n: int) -> bool {
    exists|k: nat| n == pow2(k)
}

/// The least of `p`, `2p`, `4p`, ... that is at least `target`.
pub open spec fn doubled_up_to(p: int, target: int) -> int
    decreases 2 * target - p,
{
    if p >= target || p <= 0 {
        p
    } else {
        doubled_up_to(2 * p, target)
    }
}

/// The number of samples that the channel should hold at a sample rate:
/// one and a half seconds' worth, rounded up to a power of two.
pub open spec fn ring_capacity_spec(sample_rate_hz: int) -> int {
    doubled_up_to(1, (3 * sample_rate_hz) / 2)
}

/// The capacity is a power of two, holds one and a half seconds of samples,
/// and is the least such number.
pub proof fn lemma_ring_capacity(sample_rate_hz: int)
    requires
        0 <= sample_rate_hz,
    ensures
        is_power_of_two(ring_capacity_spec(sample_rate_hz)),
        ring_capacity_spec(sample_rate_hz) >= 1,
        ring_capacity_spec(sample_rate_hz) >= (3 * sample_rate_hz) / 2,
        ring_capacity_spec(sample_rate_hz) > 1 ==> ring_capacity_spec(sample_rate_hz) / 2 < (3
            * sample_rate_hz) / 2,
{
    assert(1 == pow2(0));
    lemma_doubling(1, (3 * sample_rate_hz) / 2, 0);
}

proof fn lemma_doubling(p: int, target: int, k: nat)
    requires
        p == pow2(k),
        p > 1 ==> p / 2 < target,
    ensures
        is_power_of_two(doubled_up_to(p, target)),
        doubled_up_to(p, target) >= 1,
        doubled_up_to(p, target) >= target,
        doubled_up_to(p, target) > 1 ==> doubled_up_to(p, target) / 2 < target,
        doubled_up_to(p, target) >= p,
    decreases 2 * target - p,
{
    lemma_pow2_positive(k);
    if p >= target {
    } else {
        assert(2 * p == pow2(k + 1));
        lemma_doubling(2 * p, target, k + 1);
    }
}

proof fn lemma_pow2_positive(k: nat)
    ensures
        pow2(k) >= 1,
    decreases k,
{
    if k > 0 {
        lemma_pow2_positive((k - 1) as nat);
    }
}

/// The number of samples that the channel should hold at a sample rate.
///
/// `None` when one and a half seconds' worth of samples cannot be counted.
pub fn ring_capacity(sample_rate_hz: usize) -> (capacity: Option<usize>)
    ensures
        capacity is None <==> 3 * sample_rate_hz > usize::MAX,
        capacity matches Some(c) ==> c == ring_capacity_spec(sample_rate_hz as int),
{
    if sample_rate_hz > usize::MAX / 3 {
        return None;
    }
    let target: usize = sample_rate_hz * 3 / 2;
    let mut p: usize = 1;
    while p < target
        invariant
            p >= 1,
            target == (3 * sample_rate_hz) / 2,
            target <= usize::MAX / 2,
            p > 1 ==> p / 2 < target,
            doubled_up_to(p as int, target as int) == doubled_up_to(1, target as int),
        decreases 2 * target - p,
    {
        p = 2 * p;
    }
    Some(p)
}

} // verus!
