use phosphor::beam::{
    same_channel, sample_channel, settle, try_sample_channel, BeamSample, SampleConsumer, SampleProducer,
    SAMPLE_BYTES,
};
use phosphor::binary32::Binary32;

fn b(v: f32) -> Binary32 {
    Binary32::from_bits(v.to_bits())
}

fn f(v: Binary32) -> f32 {
    f32::from_bits(v.to_bits())
}

fn sample(x: f32, y: f32, intensity: f32, dt: f32) -> BeamSample {
    BeamSample {
        x: b(x),
        y: b(y),
        intensity: b(intensity),
        dt: b(dt),
    }
}

#[test]
fn beam_sample_is_pod() {
    // Four 32-bit fields and nothing else.
    assert_eq!(std::mem::size_of::<BeamSample>(), 16);
    assert_eq!(std::mem::size_of::<BeamSample>(), SAMPLE_BYTES);
}

#[test]
fn channel_push_and_drain() {
    let (mut tx, mut rx) = sample_channel(64);
    tx.push(sample(0.1, 0.2, 1.0, 0.001));
    tx.push(sample(0.3, 0.4, 0.5, 0.001));

    let drained = rx.drain();
    assert_eq!(drained.len(), 2);
    assert!((f(drained[0].x) - 0.1).abs() < f32::EPSILON);
    assert!((f(drained[1].x) - 0.3).abs() < f32::EPSILON);
}

#[test]
fn drain_clears_buffer() {
    let (mut tx, mut rx) = sample_channel(64);
    tx.push(sample(0.0, 0.0, 1.0, 0.001));

    let first = rx.drain();
    assert_eq!(first.len(), 1);

    let second = rx.drain();
    assert_eq!(second.len(), 0);
}

#[test]
fn full_buffer_drops_samples() {
    let (mut tx, mut rx) = sample_channel(2);
    let s = sample(0.0, 0.0, 1.0, 0.001);
    assert!(tx.push(s));
    assert!(tx.push(s));
    assert!(!tx.push(s)); // buffer full

    assert_eq!(rx.drain().len(), 2);
}

#[test]
fn producer_and_consumer_are_send() {
    fn assert_send<T: Send>() {}
    assert_send::<SampleProducer>();
    assert_send::<SampleConsumer>();
}

#[test]
fn bulk_push_and_drain() {
    let (mut tx, mut rx) = sample_channel(128);
    let samples: Vec<BeamSample> = (0..50)
        .map(|i| sample(i as f32 * 0.01, 0.5, 1.0, 0.001))
        .collect();

    let pushed = tx.push_bulk(&samples);
    assert_eq!(pushed, 50);

    let drained = rx.drain();
    assert_eq!(drained.len(), 50);
    assert!((f(drained[0].x) - 0.0).abs() < f32::EPSILON);
    assert!((f(drained[49].x) - 0.49).abs() < f32::EPSILON);
}

#[test]
fn bulk_push_partial_when_full() {
    let (mut tx, mut rx) = sample_channel(4);
    let samples: Vec<BeamSample> = (0..10).map(|_| sample(0.5, 0.5, 1.0, 0.001)).collect();

    let pushed = tx.push_bulk(&samples);
    assert_eq!(pushed, 4); // only 4 slots available

    assert_eq!(rx.drain().len(), 4);
}

#[test]
fn drain_up_to_respects_cap() {
    let (mut tx, mut rx) = sample_channel(128);
    let samples: Vec<BeamSample> = (0..100)
        .map(|i| sample(i as f32 * 0.01, 0.5, 1.0, 0.001))
        .collect();

    tx.push_bulk(&samples);

    // Drain only 30 — 70 should remain
    let first = rx.drain_up_to(30);
    assert_eq!(first.len(), 30);

    // Drain the rest
    let second = rx.drain_up_to(1000);
    assert_eq!(second.len(), 70);

    // Nothing left
    let third = rx.drain_up_to(10);
    assert_eq!(third.len(), 0);
}

#[test]
fn overflow_keeps_the_first_two_of_three() {
    let (mut tx, mut rx) = sample_channel(2);
    let first = sample(0.1, 0.1, 1.0, 0.001);
    let second = sample(0.2, 0.2, 1.0, 0.001);
    let third = sample(0.3, 0.3, 1.0, 0.001);
    let accepted = [tx.push(first), tx.push(second), tx.push(third)];
    assert_eq!(accepted, [true, true, false]);
    assert_eq!(rx.drain(), vec![first, second]);
}

#[test]
fn push_bulk_on_full_returns_zero() {
    let (mut tx, _rx) = sample_channel(3);
    let samples: Vec<BeamSample> = (0..3).map(|i| sample(i as f32, 0.0, 1.0, 0.001)).collect();
    assert_eq!(tx.push_bulk(&samples), 3);
    assert_eq!(tx.push_bulk(&samples), 0);
    assert_eq!(tx.push_bulk(&[]), 0);
}

#[test]
fn drain_on_empty_returns_empty() {
    let (_tx, mut rx) = sample_channel(8);
    assert_eq!(rx.pending(), 0);
    assert!(rx.drain().is_empty());
    assert!(rx.drain_up_to(5).is_empty());
    assert!(rx.drain_up_to(0).is_empty());
}

#[test]
fn drain_up_to_leaves_the_rest_pending() {
    let (mut tx, mut rx) = sample_channel(16);
    let samples: Vec<BeamSample> = (0..10).map(|i| sample(i as f32, 0.0, 1.0, 0.001)).collect();
    assert_eq!(tx.push_bulk(&samples), 10);
    assert_eq!(rx.pending(), 10);
    let taken = rx.drain_up_to(4);
    assert_eq!(taken, samples[..4].to_vec());
    assert_eq!(rx.pending(), 6);
    assert_eq!(rx.drain(), samples[4..].to_vec());
    assert_eq!(rx.pending(), 0);
}

#[test]
fn samples_come_out_in_the_order_they_went_in() {
    let (mut tx, mut rx) = sample_channel(8);
    let mut sent = Vec::new();
    let mut received = Vec::new();
    let mut next = 0.0f32;
    // Pushes and drains interleaved so that the ring wraps several times.
    for round in 0..20 {
        let batch: Vec<BeamSample> = (0..(round % 5 + 1))
            .map(|_| {
                next += 1.0;
                sample(next, 0.0, 1.0, 0.001)
            })
            .collect();
        let pushed = tx.push_bulk(&batch);
        sent.extend_from_slice(&batch[..pushed]);
        assert!(rx.pending() <= 8);
        received.extend(rx.drain_up_to(round % 4 + 1));
    }
    received.extend(rx.drain());
    assert_eq!(received, sent);
}

#[test]
fn pushed_and_dropped_add_up_to_offered() {
    let (mut tx, mut rx) = sample_channel(4);
    let mut offered = 0;
    let mut pushed = 0;
    let mut dropped = 0;
    for round in 0..10usize {
        let batch: Vec<BeamSample> = (0..round).map(|i| sample(i as f32, 0.0, 1.0, 0.001)).collect();
        let n = tx.push_bulk(&batch);
        offered += batch.len();
        pushed += n;
        dropped += batch.len() - n;
        if round % 3 == 0 {
            rx.drain_up_to(2);
        }
        assert!(rx.pending() <= 4);
    }
    assert_eq!(pushed + dropped, offered);
}

#[test]
fn single_push_then_pending_counts_one() {
    let (mut tx, mut rx) = sample_channel(1);
    let s = sample(0.25, 0.75, 2.0, 0.5);
    assert!(tx.push(s));
    assert!(!tx.push(s));
    assert_eq!(rx.pending(), 1);
    assert_eq!(rx.drain(), vec![s]);
    assert!(tx.push(s));
}

#[test]
fn try_sample_channel_refuses_impossible_capacities() {
    assert!(try_sample_channel(0).is_none());
    assert!(try_sample_channel(usize::MAX).is_none());
    assert!(try_sample_channel(isize::MAX as usize / 16 + 1).is_none());
    let (mut tx, mut rx) = try_sample_channel(2).unwrap();
    assert!(tx.push(BeamSample::default()));
    assert_eq!(rx.drain().len(), 1);
}

#[test]
fn default_sample_is_all_zero() {
    let s = BeamSample::default();
    assert_eq!(s, sample(0.0, 0.0, 0.0, 0.0));
}

#[test]
fn halves_know_which_channel_they_belong_to() {
    let (mut tx_a, mut rx_a) = sample_channel(4);
    let (tx_b, rx_b) = sample_channel(4);
    assert!(same_channel(&tx_a, &rx_a));
    assert!(same_channel(&tx_b, &rx_b));
    assert!(!same_channel(&tx_a, &rx_b));
    assert!(!same_channel(&tx_b, &rx_a));

    // Use does not change where a half belongs.
    assert!(tx_a.push(sample(0.1, 0.2, 1.0, 0.001)));
    assert_eq!(rx_a.drain().len(), 1);
    assert!(same_channel(&tx_a, &rx_a));
    assert!(!same_channel(&tx_a, &rx_b));
}

#[test]
fn settling_tells_the_channel_and_loses_nothing() {
    let (mut tx, mut rx) = sample_channel(4);
    let (mut other_tx, mut other_rx) = sample_channel(4);
    assert!(settle(&mut tx, &mut rx));
    assert!(!settle(&mut tx, &mut other_rx));
    assert!(!settle(&mut other_tx, &mut rx));

    for i in 0..3 {
        assert!(tx.push(sample(i as f32, 0.0, 1.0, 0.001)));
    }
    assert!(settle(&mut tx, &mut rx));
    assert_eq!(rx.pending(), 3);
    assert_eq!(other_rx.pending(), 0);
    let out = rx.drain_up_to(2);
    assert_eq!(out.iter().map(|s| f(s.x)).collect::<Vec<_>>(), vec![0.0, 1.0]);
    assert!(settle(&mut tx, &mut rx));
    // One sample waits, so three slots are free.
    let more: Vec<BeamSample> = (10..20).map(|i| sample(i as f32, 0.0, 1.0, 0.001)).collect();
    assert_eq!(tx.push_bulk(&more), 3);
    assert!(settle(&mut tx, &mut rx));
    let rest = rx.drain();
    assert_eq!(rest.iter().map(|s| f(s.x)).collect::<Vec<_>>(), vec![2.0, 10.0, 11.0, 12.0]);
    assert!(!tx.push(sample(0.0, 0.0, 0.0, 0.0)) || rx.pending() == 1);
}

#[test]
fn a_full_channel_refuses_and_an_empty_one_gives_nothing() {
    let (mut tx, mut rx) = sample_channel(2);
    assert!(settle(&mut tx, &mut rx));
    assert!(rx.drain().is_empty());
    assert!(rx.drain_up_to(5).is_empty());
    assert_eq!(rx.pending(), 0);
    assert!(tx.push(sample(0.1, 0.0, 1.0, 0.001)));
    assert!(tx.push(sample(0.2, 0.0, 1.0, 0.001)));
    assert!(settle(&mut tx, &mut rx));
    assert!(!tx.push(sample(0.3, 0.0, 1.0, 0.001)));
    assert_eq!(tx.push_bulk(&[sample(0.4, 0.0, 1.0, 0.001)]), 0);
    assert_eq!(rx.pending(), 2);
    let out = rx.drain();
    assert_eq!(out.iter().map(|s| f(s.x)).collect::<Vec<_>>(), vec![0.1, 0.2]);
}
