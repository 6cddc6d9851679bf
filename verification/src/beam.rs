//! Beam samples and the bounded channel that carries them from the sample
//! producer to the renderer.
//!
//! The channel is a single-producer, single-consumer ring from the `rtrb`
//! crate. Its two halves live on different threads, so neither half can say
//! what the other one is doing right now. Each half is therefore described
//! by what it knows for certain:
//!
//! * the producer knows a number of slots to be free ([`SampleProducer::free`]);
//!   the consumer can only raise that number behind its back;
//! * the consumer knows a run of samples to be ready ([`SampleConsumer::ready`]),
//!   oldest first; the producer can only append to that run behind its back.
//!
//! Looking at the ring ([`SampleConsumer::pending`], or any push or drain
//! that needs more than is known) brings that knowledge up to date.
//!
//! Each half also keeps a record: the producer of everything it has sent
//! ([`SampleProducer::sent`]), the consumer of everything it has taken
//! ([`SampleConsumer::taken`]). Whoever holds both halves of one channel can
//! put the two records side by side ([`same_channel`]): samples come out in
//! the order they went in, and no more are under way than the channel holds.
//! Holding both halves, one can also bring each up to date with the other
//! ([`settle`]); between two such moments every push and drain does exactly
//! what the state of the channel allows.

use vstd::prelude::*;
use crate::binary32::Binary32;

verus! {

/// A single beam position sample: where the beam is, how strongly it writes,
/// and for how long. A blank (retrace) sample has zero intensity.
#[derive(Clone, Copy, Debug, PartialEq, Eq, Structural)]
pub struct BeamSample {
    pub x: Binary32,
    pub y: Binary32,
    pub intensity: Binary32,
    pub dt: Binary32,
}

impl Default for BeamSample {
    /// All four fields `+0.0`.
    fn default() -> (r: Self)
        ensures
            r.x.bits == 0,
            r.y.bits == 0,
            r.intensity.bits == 0,
            r.dt.bits == 0,
    {
        BeamSample {
            x: Binary32 { bits: 0 },
            y: Binary32 { bits: 0 },
            intensity: Binary32 { bits: 0 },
            dt: Binary32 { bits: 0 },
        }
    }
}

/// Current beam physics parameters, shared with the input sources that
/// need them (the density of a line's subdivision).
#[derive(Clone, Copy, Debug, PartialEq, Eq, Structural)]
pub struct BeamState {
    /// Minimum spot radius in normalised screen coordinates.
    pub spot_radius: Binary32,
}

/// Size of one sample in memory.
pub const SAMPLE_BYTES: usize = 16;

#[verifier::external_type_specification]
#[verifier::external_body]
#[verifier::reject_recursive_types(T)]
pub struct ExProducer<T>(rtrb::Producer<T>);

#[verifier::external_type_specification]
#[verifier::external_body]
#[verifier::reject_recursive_types(T)]
pub struct ExConsumer<T>(rtrb::Consumer<T>);

/// Number of slots of the ring that a producer writes to.
pub uninterp spec fn producer_capacity(p: rtrb::Producer<BeamSample>) -> nat;

/// Which ring a producer writes to: the ring that `rtrb::Producer::buffer`
/// gives. Only whether two halves have the same one is ever told.
pub uninterp spec fn producer_ring(p: rtrb::Producer<BeamSample>) -> int;

/// Which ring a consumer reads from: the ring that `rtrb::Consumer::buffer`
/// gives.
pub uninterp spec fn consumer_ring(c: rtrb::Consumer<BeamSample>) -> int;

/// Number of slots that a producer knows to be free: the capacity less the
/// distance from the head position it last saw to its own tail position.
pub uninterp spec fn producer_free(p: rtrb::Producer<BeamSample>) -> nat;

/// Everything that a producer has committed to its ring so far, in order.
pub uninterp spec fn producer_sent(p: rtrb::Producer<BeamSample>) -> Seq<BeamSample>;

/// Number of slots of the ring that a consumer reads from.
pub uninterp spec fn consumer_capacity(c: rtrb::Consumer<BeamSample>) -> nat;

/// The samples that a consumer knows to be readable, oldest first: the slots
/// from its own head position to the tail position it last saw.
pub uninterp spec fn consumer_ready(c: rtrb::Consumer<BeamSample>) -> Seq<BeamSample>;

/// Everything that a consumer has taken out of its ring so far, in order.
pub uninterp spec fn consumer_taken(c: rtrb::Consumer<BeamSample>) -> Seq<BeamSample>;

/// `rtrb::RingBuffer::new`: makes an empty ring of `capacity` slots and
/// returns its two halves, which belong to that one ring. The producer knows
/// all slots to be free and has sent nothing, the consumer knows nothing to
/// be ready and has taken nothing. The allocation is asked for up front, so the byte size has to
/// stay within what an allocation may hold.
#[verifier::external_body]
fn ring_new(capacity: usize) -> (r: (rtrb::Producer<BeamSample>, rtrb::Consumer<BeamSample>))
    requires
        1 <= capacity,
        capacity * SAMPLE_BYTES <= isize::MAX,
    ensures
        producer_capacity(r.0) == capacity,
        producer_free(r.0) == capacity,
        producer_sent(r.0) == Seq::<BeamSample>::empty(),
        consumer_capacity(r.1) == capacity,
        consumer_ready(r.1) == Seq::<BeamSample>::empty(),
        consumer_taken(r.1) == Seq::<BeamSample>::empty(),
        producer_ring(r.0) == consumer_ring(r.1),
{
    rtrb::RingBuffer::new(capacity)
}

/// `rtrb::Producer::slots`: reads the consumer's head position and returns
/// the number of free slots. The number never falls below what the producer
/// knew before, and is what it knows afterwards.
#[verifier::external_body]
fn producer_slots(p: &mut rtrb::Producer<BeamSample>) -> (n: usize)
    ensures
        n == producer_free(*final(p)),
        producer_free(*old(p)) <= n <= producer_capacity(*old(p)),
        producer_capacity(*final(p)) == producer_capacity(*old(p)),
        producer_sent(*final(p)) == producer_sent(*old(p)),
        producer_ring(*final(p)) == producer_ring(*old(p)),
{
    p.slots()
}

/// `rtrb::Producer::push`: writes one sample if a slot is free. With a slot
/// known to be free it succeeds without looking at the ring; otherwise it
/// looks, and fails only if the ring is really full. A failed push leaves
/// the producer knowing of no free slot.
#[verifier::external_body]
fn producer_push(p: &mut rtrb::Producer<BeamSample>, sample: BeamSample) -> (ok: bool)
    ensures
        producer_capacity(*final(p)) == producer_capacity(*old(p)),
        producer_free(*old(p)) >= 1 ==> ok && producer_free(*final(p)) == producer_free(*old(p)) - 1,
        ok ==> producer_sent(*final(p)) == producer_sent(*old(p)).push(sample)
            && producer_free(*final(p)) < producer_capacity(*old(p)),
        !ok ==> producer_sent(*final(p)) == producer_sent(*old(p)) && producer_free(*final(p)) == 0,
        producer_ring(*final(p)) == producer_ring(*old(p)),
{
    p.push(sample).is_ok()
}

/// `rtrb::Producer::write_chunk`, filled from `samples[..n]` and committed
/// whole. With `n` slots known to be free the chunk is granted without
/// looking at the ring, and committing it takes `n` from the slots known
/// free.
#[verifier::external_body]
fn producer_write(p: &mut rtrb::Producer<BeamSample>, samples: &[BeamSample], n: usize)
    requires
        n <= samples@.len(),
        n <= producer_free(*old(p)),
    ensures
        producer_capacity(*final(p)) == producer_capacity(*old(p)),
        producer_free(*final(p)) == producer_free(*old(p)) - n,
        producer_sent(*final(p)) == producer_sent(*old(p)) + samples@.take(n as int),
        producer_ring(*final(p)) == producer_ring(*old(p)),
{
    if let Ok(mut chunk) = p.write_chunk(n) {
        let (first, second) = chunk.as_mut_slices();
        let first_len = first.len();
        first.copy_from_slice(&samples[..first_len]);
        second.copy_from_slice(&samples[first_len..n]);
        chunk.commit_all();
    }
}

/// `rtrb::Consumer::slots`: reads the producer's tail position and returns
/// the number of readable slots. What was known to be ready still is, in
/// the same order; newer samples may follow it.
#[verifier::external_body]
fn consumer_slots(c: &mut rtrb::Consumer<BeamSample>) -> (n: usize)
    ensures
        n == consumer_ready(*final(c)).len(),
        n <= consumer_capacity(*old(c)),
        consumer_capacity(*final(c)) == consumer_capacity(*old(c)),
        consumer_ready(*old(c)).len() <= n,
        consumer_ready(*final(c)).take(consumer_ready(*old(c)).len() as int) == consumer_ready(*old(c)),
        consumer_taken(*final(c)) == consumer_taken(*old(c)),
        consumer_ring(*final(c)) == consumer_ring(*old(c)),
{
    c.slots()
}

/// `rtrb::Consumer::read_chunk`, copied out and committed whole. With `n`
/// samples known to be ready the chunk is granted without looking at the
/// ring; it holds the `n` oldest of them, which then leave the ring.
#[verifier::external_body]
fn consumer_read(c: &mut rtrb::Consumer<BeamSample>, n: usize) -> (samples: Vec<BeamSample>)
    requires
        n <= consumer_ready(*old(c)).len(),
    ensures
        samples@ == consumer_ready(*old(c)).take(n as int),
        consumer_ready(*final(c)) == consumer_ready(*old(c)).skip(n as int),
        consumer_taken(*final(c)) == consumer_taken(*old(c)) + samples@,
        consumer_capacity(*final(c)) == consumer_capacity(*old(c)),
        consumer_ring(*final(c)) == consumer_ring(*old(c)),
{
    let mut samples = Vec::with_capacity(n);
    if let Ok(chunk) = c.read_chunk(n) {
        let (first, second) = chunk.as_slices();
        samples.extend_from_slice(first);
        samples.extend_from_slice(second);
        chunk.commit_all();
    }
    samples
}

/// `rtrb::RingBuffer::eq` on the rings that `rtrb::Producer::buffer` and
/// `rtrb::Consumer::buffer` give: whether the two halves belong to one ring,
/// which is so exactly for halves that were made together.
/// Halves of one ring agree on its capacity. A ring hands out what was put
/// in, in the order it was put in: what the consumer has taken, followed by
/// what it knows to be ready, is the front of what the producer has sent.
/// And what has been sent and not yet taken lies in slots that the producer
/// does not count as free.
#[verifier::external_body]
fn ring_shared(p: &rtrb::Producer<BeamSample>, c: &rtrb::Consumer<BeamSample>) -> (same: bool)
    ensures
        same == (producer_ring(*p) == consumer_ring(*c)),
        same ==> producer_capacity(*p) == consumer_capacity(*c),
        same ==> (consumer_taken(*c) + consumer_ready(*c)).is_prefix_of(producer_sent(*p)),
        same ==> producer_free(*p) + producer_sent(*p).len() - consumer_taken(*c).len() <= producer_capacity(*p),
{
    p.buffer() == c.buffer()
}

/// `rtrb::Producer::slots` and `rtrb::Consumer::slots`, called by whoever
/// holds both halves: each half reads the position of the other. Neither
/// record changes, and each half knows no less than before. Halves of one
/// ring then know everything, since nobody else can push or pop meanwhile:
/// what the consumer knows to be ready is all that was sent and not taken,
/// and the producer knows every other slot to be free.
#[verifier::external_body]
fn ring_settle(p: &mut rtrb::Producer<BeamSample>, c: &mut rtrb::Consumer<BeamSample>)
    ensures
        producer_capacity(*final(p)) == producer_capacity(*old(p)),
        producer_ring(*final(p)) == producer_ring(*old(p)),
        producer_sent(*final(p)) == producer_sent(*old(p)),
        producer_free(*old(p)) <= producer_free(*final(p)) <= producer_capacity(*old(p)),
        consumer_capacity(*final(c)) == consumer_capacity(*old(c)),
        consumer_ring(*final(c)) == consumer_ring(*old(c)),
        consumer_taken(*final(c)) == consumer_taken(*old(c)),
        consumer_ready(*old(c)).is_prefix_of(consumer_ready(*final(c))),
        consumer_ready(*final(c)).len() <= consumer_capacity(*old(c)),
        producer_ring(*old(p)) == consumer_ring(*old(c)) ==> consumer_taken(*final(c))
            + consumer_ready(*final(c)) == producer_sent(*final(p)),
        producer_ring(*old(p)) == consumer_ring(*old(c)) ==> producer_free(*final(p))
            + consumer_ready(*final(c)).len() == producer_capacity(*final(p)),
{
    p.slots();
    c.slots();
}

/// Producer half of the sample channel. Lives on the input thread.
pub struct SampleProducer {
    inner: rtrb::Producer<BeamSample>,
}

/// Consumer half of the sample channel. Lives on the render thread.
pub struct SampleConsumer {
    inner: rtrb::Consumer<BeamSample>,
}

/// What one push does to a producer. The channel and its capacity stay.
/// With a slot known to be free the sample goes in and takes that slot. A
/// sample that went in is the newest of the record, and the channel is then
/// not all free; a sample that was refused leaves the record as it was and
/// the producer knowing of no free slot.
pub open spec fn pushed_one(before: SampleProducer, after: SampleProducer, sample: BeamSample, ok: bool) -> bool {
    &&& after.capacity() == before.capacity()
    &&& after.channel() == before.channel()
    &&& before.free() >= 1 ==> ok && after.free() == before.free() - 1
    &&& ok ==> after.sent() == before.sent().push(sample) && after.free() < before.capacity()
    &&& !ok ==> after.sent() == before.sent() && after.free() == 0
}

/// What a bulk push of `samples` does to a producer, `pushed` of them
/// having gone in. The channel and its capacity stay, and the first
/// `pushed` samples join the record, in order. Everything went in, or at
/// least as many as slots were known free before; when not everything went
/// in, the producer afterwards knows of no free slot. The slots known free
/// afterwards are those found free less those filled.
pub open spec fn pushed_bulk(
    before: SampleProducer,
    after: SampleProducer,
    samples: Seq<BeamSample>,
    pushed: int,
) -> bool {
    &&& 0 <= pushed <= samples.len()
    &&& pushed <= before.capacity()
    &&& pushed == samples.len() || pushed >= before.free()
    &&& pushed < samples.len() ==> after.free() == 0
    &&& after.free() + pushed >= before.free()
    &&& after.free() + pushed <= before.capacity()
    &&& after.sent() == before.sent() + samples.take(pushed)
    &&& after.capacity() == before.capacity()
    &&& after.channel() == before.channel()
}

/// What a look at the ring does to a consumer, `n` samples being counted.
/// The channel, its capacity and the record of what was taken stay. What
/// was known to wait still does, in the same order, with what has arrived
/// since behind it, and `n` counts it all.
pub open spec fn looked(before: SampleConsumer, after: SampleConsumer, n: int) -> bool {
    &&& n == after.ready().len()
    &&& n <= before.capacity()
    &&& before.ready().is_prefix_of(after.ready())
    &&& after.taken() == before.taken()
    &&& after.capacity() == before.capacity()
    &&& after.channel() == before.channel()
}

/// What a drain does to a consumer, `samples` having come out. The channel
/// and its capacity stay, and the samples join the record of what was
/// taken. They begin with everything that was known to wait, and nothing
/// is known to wait afterwards.
pub open spec fn drained(before: SampleConsumer, after: SampleConsumer, samples: Seq<BeamSample>) -> bool {
    &&& after.ready().len() == 0
    &&& before.ready().is_prefix_of(samples)
    &&& samples.len() <= before.capacity()
    &&& after.taken() == before.taken() + samples
    &&& after.capacity() == before.capacity()
    &&& after.channel() == before.channel()
}

/// What a drain of at most `max` samples does to a consumer, `samples`
/// having come out. The channel and its capacity stay, and the samples
/// join the record of what was taken. As many as `max` came out, or nothing
/// is known to wait afterwards. What came out, followed by what is then
/// known to wait, begins with what was known to wait before.
pub open spec fn drained_up_to(
    before: SampleConsumer,
    after: SampleConsumer,
    max: int,
    samples: Seq<BeamSample>,
) -> bool {
    &&& samples.len() <= max
    &&& samples.len() == max || after.ready().len() == 0
    &&& before.ready().is_prefix_of(samples + after.ready())
    &&& samples.len() + after.ready().len() <= before.capacity()
    &&& after.taken() == before.taken() + samples
    &&& after.capacity() == before.capacity()
    &&& after.channel() == before.channel()
}

/// Creates a bounded single-producer, single-consumer sample channel of
/// `capacity` samples, empty.
pub fn sample_channel(capacity: usize) -> (r: (SampleProducer, SampleConsumer))
    requires
        1 <= capacity,
        capacity * SAMPLE_BYTES <= isize::MAX,
    ensures
        r.0.capacity() == capacity,
        r.0.free() == capacity,
        r.0.sent() == Seq::<BeamSample>::empty(),
        r.1.capacity() == capacity,
        r.1.ready() == Seq::<BeamSample>::empty(),
        r.1.taken() == Seq::<BeamSample>::empty(),
        r.0.channel() == r.1.channel(),
{
    let (producer, consumer) = ring_new(capacity);
    (SampleProducer { inner: producer }, SampleConsumer { inner: consumer })
}

/// Creates a sample channel if `capacity` is one that a channel can have:
/// at least one sample, and no more bytes than an allocation may hold.
pub fn try_sample_channel(capacity: usize) -> (r: Option<(SampleProducer, SampleConsumer)>)
    ensures
        r is Some <==> 1 <= capacity && capacity * SAMPLE_BYTES <= isize::MAX,
        r matches Some(halves) ==> {
            &&& halves.0.capacity() == capacity
            &&& halves.0.free() == capacity
            &&& halves.0.sent() == Seq::<BeamSample>::empty()
            &&& halves.1.capacity() == capacity
            &&& halves.1.ready() == Seq::<BeamSample>::empty()
            &&& halves.1.taken() == Seq::<BeamSample>::empty()
            &&& halves.0.channel() == halves.1.channel()
        },
{
    if capacity >= 1 && capacity <= (isize::MAX as usize) / SAMPLE_BYTES {
        Some(sample_channel(capacity))
    } else {
        None
    }
}

impl SampleProducer {
    /// Number of samples that the channel holds at most.
    pub closed spec fn capacity(&self) -> nat {
        producer_capacity(self.inner)
    }

    /// Which channel this half belongs to. The two halves that were made
    /// together have the same one, and keep it.
    pub closed spec fn channel(&self) -> int {
        producer_ring(self.inner)
    }

    /// Number of slots that this half knows to be free. The true number may
    /// be larger, never smaller.
    pub closed spec fn free(&self) -> nat {
        producer_free(self.inner)
    }

    /// Every sample that this half has put into the channel, in order.
    pub closed spec fn sent(&self) -> Seq<BeamSample> {
        producer_sent(self.inner)
    }

    /// Pushes a single sample. Returns `true` if it went in, `false` if the
    /// channel was full and the sample is dropped.
    ///
    /// With a slot known to be free the push succeeds.
    pub fn push(&mut self, sample: BeamSample) -> (ok: bool)
        ensures
            pushed_one(*old(self), *final(self), sample, ok),
    {
        producer_push(&mut self.inner, sample)
    }

    /// Pushes as many of `samples` as fit, from the front, and returns how
    /// many went in. The rest is dropped.
    ///
    /// The count is the smaller of the number of samples and the number of
    /// slots found free, which is at least the number known free before.
    /// When not everything went in, the channel is full as far as this half
    /// knows.
    pub fn push_bulk(&mut self, samples: &[BeamSample]) -> (pushed: usize)
        ensures
            pushed_bulk(*old(self), *final(self), samples@, pushed as int),
    {
        let available = producer_slots(&mut self.inner);
        let n: usize = if samples.len() < available {
            samples.len()
        } else {
            available
        };
        if n == 0 {
            assert(samples@.take(0) =~= Seq::<BeamSample>::empty());
            assert(self.sent() + samples@.take(0) =~= self.sent());
            return 0;
        }
        producer_write(&mut self.inner, samples, n);
        n
    }
}

impl SampleConsumer {
    /// Number of samples that the channel holds at most.
    pub closed spec fn capacity(&self) -> nat {
        consumer_capacity(self.inner)
    }

    /// Which channel this half belongs to. The two halves that were made
    /// together have the same one, and keep it.
    pub closed spec fn channel(&self) -> int {
        consumer_ring(self.inner)
    }

    /// The samples that this half knows to be waiting, oldest first. More
    /// may have arrived behind them.
    pub closed spec fn ready(&self) -> Seq<BeamSample> {
        consumer_ready(self.inner)
    }

    /// Every sample that this half has taken out of the channel, in order.
    pub closed spec fn taken(&self) -> Seq<BeamSample> {
        consumer_taken(self.inner)
    }

    /// Number of samples currently waiting in the channel. Looks at the
    /// ring: what was known to be waiting still is, and what has arrived
    /// since is now known too.
    pub fn pending(&mut self) -> (n: usize)
        ensures
            looked(*old(self), *final(self), n as int),
    {
        consumer_slots(&mut self.inner)
    }

    /// Drains every waiting sample, oldest first.
    pub fn drain(&mut self) -> (samples: Vec<BeamSample>)
        ensures
            drained(*old(self), *final(self), samples@),
    {
        let available = consumer_slots(&mut self.inner);
        let ghost seen = self.ready();
        let samples = consumer_read(&mut self.inner, available);
        assert(seen.take(available as int) =~= seen);
        samples
    }

    /// Drains up to `max` waiting samples, oldest first. Any samples beyond
    /// `max` stay in the channel, in order, for the next call.
    ///
    /// What comes out, followed by what is then known to stay, begins with
    /// what was known to wait before: nothing is lost or reordered. The
    /// call takes `max` samples unless fewer are waiting, and then it takes
    /// them all.
    pub fn drain_up_to(&mut self, max: usize) -> (samples: Vec<BeamSample>)
        ensures
            drained_up_to(*old(self), *final(self), max as int, samples@),
    {
        let available = consumer_slots(&mut self.inner);
        let ghost seen = self.ready();
        let count: usize = if available < max {
            available
        } else {
            max
        };
        if count == 0 {
            let samples: Vec<BeamSample> = Vec::new();
            assert(samples@ + seen =~= seen);
            assert(self.taken() + samples@ =~= self.taken());
            return samples;
        }
        let samples = consumer_read(&mut self.inner, count);
        assert(samples@ + self.ready() =~= seen);
        samples
    }
}

/// Whether the records of two halves fit together as those of one channel:
/// the halves agree on the capacity; what the consumer has taken, followed
/// by what it knows to be waiting, is the front of what the producer has
/// sent; and what is under way, together with the slots that the producer
/// knows to be free, is no more than the channel holds.
pub open spec fn in_step(producer: &SampleProducer, consumer: &SampleConsumer) -> bool {
    &&& producer.capacity() == consumer.capacity()
    &&& (consumer.taken() + consumer.ready()).is_prefix_of(producer.sent())
    &&& producer.free() + producer.sent().len() - consumer.taken().len() <= producer.capacity()
}

/// Whether the two halves belong to one channel, as the halves that were
/// made together do. If they do, their records fit together.
pub fn same_channel(producer: &SampleProducer, consumer: &SampleConsumer) -> (same: bool)
    ensures
        same == (producer.channel() == consumer.channel()),
        same ==> in_step(producer, consumer),
{
    ring_shared(&producer.inner, &consumer.inner)
}

/// Whether the two halves are up to date with each other: they agree on
/// the capacity, what the consumer knows to be waiting is everything that
/// was sent and not taken, and the producer knows every other slot to be
/// free.
pub open spec fn settled(producer: &SampleProducer, consumer: &SampleConsumer) -> bool {
    &&& producer.capacity() == consumer.capacity()
    &&& consumer.taken() + consumer.ready() == producer.sent()
    &&& producer.free() + consumer.ready().len() == producer.capacity()
}

/// Brings the two halves up to date with each other, and says whether they
/// belong to one channel. Neither record changes, and each half knows no
/// less than before. Whoever holds both halves of one channel holds all
/// that can change it, so afterwards nothing is under way unseen: the
/// halves are settled.
pub fn settle(producer: &mut SampleProducer, consumer: &mut SampleConsumer) -> (same: bool)
    ensures
        same == (old(producer).channel() == old(consumer).channel()),
        final(producer).channel() == old(producer).channel(),
        final(producer).capacity() == old(producer).capacity(),
        final(producer).sent() == old(producer).sent(),
        final(producer).free() >= old(producer).free(),
        final(consumer).channel() == old(consumer).channel(),
        final(consumer).capacity() == old(consumer).capacity(),
        final(consumer).taken() == old(consumer).taken(),
        old(consumer).ready().is_prefix_of(final(consumer).ready()),
        same ==> settled(final(producer), final(consumer)),
{
    let same = ring_shared(&producer.inner, &consumer.inner);
    ring_settle(&mut producer.inner, &mut consumer.inner);
    same
}

/// Settled halves are in step.
pub proof fn lemma_settled_in_step(producer: &SampleProducer, consumer: &SampleConsumer)
    requires
        settled(producer, consumer),
    ensures
        in_step(producer, consumer),
{
    assert(producer.sent().subrange(0, producer.sent().len() as int) =~= producer.sent());
}

/// With nobody draining meanwhile, a push goes in exactly if the channel is
/// not full: from settled halves, and with the consumer as it was, the
/// sample is accepted if fewer samples wait than the channel holds, and
/// refused otherwise.
pub proof fn lemma_push_fills_a_free_slot(
    before: &SampleProducer,
    after: &SampleProducer,
    consumer: &SampleConsumer,
    sample: BeamSample,
    ok: bool,
)
    requires
        settled(before, consumer),
        pushed_one(*before, *after, sample, ok),
        in_step(after, consumer),
    ensures
        ok == (consumer.ready().len() < before.capacity()),
        ok ==> after.sent() == consumer.taken() + consumer.ready().push(sample),
        !ok ==> after.sent() == before.sent(),
{
    if ok {
        assert(after.sent() =~= consumer.taken() + consumer.ready().push(sample));
    }
}

/// With nobody draining meanwhile, a bulk push takes exactly what fits:
/// from settled halves, and with the consumer as it was, the number of
/// samples that go in is the smaller of the number offered and the number
/// of slots not waited in, and they are the first of those offered. What
/// went in and what was dropped add up to what was offered.
pub proof fn lemma_push_bulk_takes_what_fits(
    before: &SampleProducer,
    after: &SampleProducer,
    consumer: &SampleConsumer,
    samples: Seq<BeamSample>,
    pushed: int,
)
    requires
        settled(before, consumer),
        pushed_bulk(*before, *after, samples, pushed),
        in_step(after, consumer),
    ensures
        pushed == if samples.len() <= before.capacity() - consumer.ready().len() {
            samples.len() as int
        } else {
            before.capacity() - consumer.ready().len()
        },
        after.sent() == consumer.taken() + consumer.ready() + samples.take(pushed),
        pushed + (samples.len() - pushed) == samples.len(),
{
}

/// With nobody pushing meanwhile, a look counts exactly what waits: from
/// settled halves, and with the producer as it was, the count is the number
/// of samples sent and not taken, and the look changes nothing.
pub proof fn lemma_pending_counts_what_waits(
    producer: &SampleProducer,
    before: &SampleConsumer,
    after: &SampleConsumer,
    n: int,
)
    requires
        settled(producer, before),
        looked(*before, *after, n),
        in_step(producer, after),
    ensures
        n == producer.sent().len() - before.taken().len(),
        n <= producer.capacity(),
        after.ready() == before.ready(),
        after.taken() == before.taken(),
        settled(producer, after),
{
    assert(after.ready() =~= before.ready());
}

/// With nobody pushing meanwhile, a drain takes everything that waits, in
/// the order in which it was sent, and leaves the channel empty.
pub proof fn lemma_drain_takes_all(
    producer: &SampleProducer,
    before: &SampleConsumer,
    after: &SampleConsumer,
    samples: Seq<BeamSample>,
)
    requires
        settled(producer, before),
        drained(*before, *after, samples),
        in_step(producer, after),
    ensures
        samples == before.ready(),
        after.ready().len() == 0,
        after.taken() == producer.sent(),
{
    assert(samples =~= before.ready());
    assert(after.taken() =~= producer.sent());
}

/// With nobody pushing meanwhile, a bounded drain takes the oldest samples
/// and leaves the rest: from settled halves, and with the producer as it
/// was, what comes out is the first `max` of the samples that wait, or all
/// of them if they are fewer, in the order in which they were sent; the
/// others wait on, in the same order.
pub proof fn lemma_drain_up_to_takes_the_oldest(
    producer: &SampleProducer,
    before: &SampleConsumer,
    after: &SampleConsumer,
    max: int,
    samples: Seq<BeamSample>,
)
    requires
        0 <= max,
        settled(producer, before),
        drained_up_to(*before, *after, max, samples),
        in_step(producer, after),
    ensures
        samples.len() == if max <= before.ready().len() {
            max
        } else {
            before.ready().len() as int
        },
        samples == before.ready().take(samples.len() as int),
        after.ready() == before.ready().skip(samples.len() as int),
        producer.free() + samples.len() + after.ready().len() == producer.capacity(),
{
    let whole = samples + after.ready();
    assert(whole =~= before.ready()) by {
        assert((after.taken() + after.ready()) =~= before.taken() + whole);
        assert(whole.len() <= before.ready().len());
    }
    assert(samples =~= before.ready().take(samples.len() as int));
    assert(after.ready() =~= before.ready().skip(samples.len() as int));
}

/// Samples are delivered in the order in which they were submitted, and
/// never more are under way than the channel holds: with the halves of one
/// channel, the `k`-th sample taken is the `k`-th sample sent, and the
/// number of samples sent and not yet taken is at most the capacity.
pub proof fn lemma_delivery_in_order(producer: &SampleProducer, consumer: &SampleConsumer)
    requires
        in_step(producer, consumer),
    ensures
        consumer.taken().is_prefix_of(producer.sent()),
        forall|k: int| 0 <= k < consumer.taken().len() ==> consumer.taken()[k] == producer.sent()[k],
        producer.sent().len() - consumer.taken().len() <= producer.capacity(),
        consumer.ready().len() <= producer.sent().len() - consumer.taken().len(),
{
    let front = consumer.taken() + consumer.ready();
    assert forall|k: int| 0 <= k < consumer.taken().len() implies consumer.taken()[k] == producer.sent()[k] by {
        assert(front[k] == consumer.taken()[k]);
    }
    assert(consumer.taken() =~= producer.sent().subrange(0, consumer.taken().len() as int));
}

} // verus!
