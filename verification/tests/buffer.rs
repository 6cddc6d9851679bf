use phosphor::accumulation::LayerLayout;
use phosphor::binary32::Binary32;
use phosphor::buffer::{AccumulationBuffer, PixelDeposit};
use phosphor::decay::{classify_decay_terms, DecayTerm};
use phosphor::types::Resolution;

fn b(v: f32) -> Binary32 {
    Binary32::from_bits(v.to_bits())
}

fn f(v: Binary32) -> f32 {
    f32::from_bits(v.to_bits())
}

fn exp(amplitude: f32, tau: f32) -> DecayTerm {
    DecayTerm::Exponential {
        amplitude: b(amplitude),
        tau: b(tau),
    }
}

fn law() -> DecayTerm {
    DecayTerm::PowerLaw {
        amplitude: b(2.1e-4),
        alpha: b(5.5e-6),
        beta: b(1.1),
    }
}

fn layout(terms: &[DecayTerm]) -> LayerLayout {
    LayerLayout::for_classification(&classify_decay_terms(terms, b(1e-4)))
}

/// Two slow exponentials, a power law and an instantaneous term.
fn full_layout() -> LayerLayout {
    layout(&[exp(1.0, 0.004), exp(1.0, 0.016), law(), exp(90.0, 31.8e-9)])
}

fn add(state: Binary32, energy: Binary32) -> Binary32 {
    b(f(state) + f(energy))
}

fn deposit(slow: &[f32], peak: f32, instant: f32) -> PixelDeposit {
    PixelDeposit {
        slow: slow.iter().map(|v| b(*v)).collect(),
        peak: b(peak),
        instant: b(instant),
    }
}

fn slow(buffer: &AccumulationBuffer, x: u32, y: u32) -> Vec<f32> {
    buffer.pixel(x, y).slow.iter().map(|v| f(*v)).collect()
}

fn power_law(buffer: &AccumulationBuffer, x: u32, y: u32) -> Option<(f32, f32)> {
    buffer.pixel(x, y).power_law.map(|(p, e)| (f(p), f(e)))
}

fn instant(buffer: &AccumulationBuffer, x: u32, y: u32) -> Option<f32> {
    buffer.pixel(x, y).instant.map(f)
}

#[test]
fn new_buffer_is_dark() {
    let buffer = AccumulationBuffer::new(Resolution::new(4, 3), full_layout()).unwrap();
    let dims = buffer.dims();
    assert_eq!((dims.width, dims.height, dims.layers, dims.pad), (4, 3, 5, 0));
    assert_eq!(buffer.layout(), full_layout());
    for y in 0..3 {
        for x in 0..4 {
            assert_eq!(slow(&buffer, x, y), [0.0, 0.0]);
            assert_eq!(power_law(&buffer, x, y), Some((0.0, 0.0)));
            assert_eq!(instant(&buffer, x, y), Some(0.0));
        }
    }
}

#[test]
fn buffer_without_state_still_has_a_layer() {
    let buffer = AccumulationBuffer::new(Resolution::new(2, 2), layout(&[])).unwrap();
    assert_eq!(buffer.dims().layers, 1);
    let state = buffer.pixel(1, 1);
    assert!(state.slow.is_empty() && state.power_law.is_none() && state.instant.is_none());
}

#[test]
fn buffer_that_cannot_be_addressed_is_refused() {
    assert!(AccumulationBuffer::new(Resolution::new(u32::MAX, u32::MAX), full_layout()).is_none());
    assert!(AccumulationBuffer::new(Resolution::new(0, 0), full_layout()).is_some());
}

#[test]
fn deposit_adds_to_slow_and_instant_but_replaces_the_peak() {
    let mut buffer = AccumulationBuffer::new(Resolution::new(4, 3), full_layout()).unwrap();
    buffer.deposit(1, 2, &deposit(&[1.0, 2.0], 5.0, 0.25), add);
    assert_eq!(slow(&buffer, 1, 2), [1.0, 2.0]);
    assert_eq!(power_law(&buffer, 1, 2), Some((5.0, 0.0)));
    assert_eq!(instant(&buffer, 1, 2), Some(0.25));

    buffer.decay(b(1e-6), |s, _| s, |e| b(f(e) + 0.5));
    assert_eq!(power_law(&buffer, 1, 2), Some((5.0, 0.5)));

    // A second deposit sums where energy adds up, and starts the power law over.
    buffer.deposit(1, 2, &deposit(&[10.0, 20.0], 3.0, 0.5), add);
    assert_eq!(slow(&buffer, 1, 2), [11.0, 22.0]);
    assert_eq!(power_law(&buffer, 1, 2), Some((3.0, 0.0)));
    assert_eq!(instant(&buffer, 1, 2), Some(0.5));
}

#[test]
fn deposit_touches_one_pixel_only() {
    let mut buffer = AccumulationBuffer::new(Resolution::new(4, 3), full_layout()).unwrap();
    buffer.deposit(3, 0, &deposit(&[1.0, 2.0], 5.0, 0.25), add);
    buffer.deposit(0, 1, &deposit(&[4.0, 8.0], 6.0, 0.75), add);
    for y in 0..3 {
        for x in 0..4 {
            let expected = match (x, y) {
                (3, 0) => (vec![1.0, 2.0], Some((5.0, 0.0)), Some(0.25)),
                (0, 1) => (vec![4.0, 8.0], Some((6.0, 0.0)), Some(0.75)),
                _ => (vec![0.0, 0.0], Some((0.0, 0.0)), Some(0.0)),
            };
            assert_eq!(
                (slow(&buffer, x, y), power_law(&buffer, x, y), instant(&buffer, x, y)),
                expected,
                "pixel ({x}, {y})"
            );
        }
    }
}

#[test]
fn decay_scales_clamps_ticks_and_clears() {
    let mut buffer = AccumulationBuffer::new(Resolution::new(3, 2), full_layout()).unwrap();
    buffer.deposit(0, 0, &deposit(&[1.0, 1.0], 7.0, 2.0), add);
    buffer.deposit(2, 1, &deposit(&[4e-6, 1.0], 9.0, 3.0), add);
    let taus = [0.004f32, 0.016];
    let dt = 0.008f32;
    buffer.decay(
        b(1e-6),
        |s, term| b(f(s) * (-dt / taus[term]).exp()),
        |elapsed| b(f(elapsed) + dt),
    );
    let fast = (-dt / 0.004).exp();
    let slower = (-dt / 0.016).exp();
    assert_eq!(slow(&buffer, 0, 0), [fast, slower]);
    // 4e-6 times the fast factor falls under the threshold and is clamped.
    assert!(4e-6 * fast < 1e-6);
    assert_eq!(slow(&buffer, 2, 1), [0.0, slower]);
    assert_eq!(power_law(&buffer, 0, 0), Some((7.0, dt)));
    assert_eq!(power_law(&buffer, 2, 1), Some((9.0, dt)));
    assert_eq!(power_law(&buffer, 1, 1), Some((0.0, dt)));
    for y in 0..2 {
        for x in 0..3 {
            assert_eq!(instant(&buffer, x, y), Some(0.0));
        }
    }
    assert_eq!(slow(&buffer, 1, 0), [0.0, 0.0]);
}

#[test]
fn instant_energy_is_seen_once() {
    let mut buffer = AccumulationBuffer::new(Resolution::new(2, 2), layout(&[exp(90.0, 31.8e-9)])).unwrap();
    assert_eq!(buffer.dims().layers, 1);
    buffer.deposit(1, 0, &deposit(&[], 0.0, 0.5), add);
    // The resolve of this frame reads the deposit ...
    assert_eq!(instant(&buffer, 1, 0), Some(0.5));
    buffer.decay(b(1e-6), |s, _| s, |e| e);
    // ... and the next frame starts without it.
    assert_eq!(instant(&buffer, 1, 0), Some(0.0));
    buffer.deposit(1, 0, &deposit(&[], 0.0, 0.25), add);
    assert_eq!(instant(&buffer, 1, 0), Some(0.25));
}

#[test]
fn p1_decays_to_between_five_and_thirty_percent_in_eight_milliseconds() {
    // Amplitudes 6.72 and 1.0 with time constants 2.88 ms and 15.1 ms.
    let terms = [exp(6.72, 0.00288), exp(1.0, 0.0151)];
    let mut buffer = AccumulationBuffer::new(Resolution::new(1, 1), layout(&terms)).unwrap();
    assert_eq!(buffer.dims().layers, 2);
    let total = 6.72 + 1.0;
    buffer.deposit(0, 0, &deposit(&[6.72 / total, 1.0 / total], 0.0, 0.0), add);
    let taus = [0.00288f32, 0.0151];
    buffer.decay(b(1e-6), |s, term| b(f(s) * (-0.008 / taus[term]).exp()), |e| e);
    let left: f32 = slow(&buffer, 0, 0).iter().sum();
    assert!(left > 0.05 && left < 0.30, "after 8 ms: {left}");
}

#[test]
fn clear_darkens_every_slot() {
    let mut buffer = AccumulationBuffer::new(Resolution::new(3, 3), full_layout()).unwrap();
    for y in 0..3 {
        for x in 0..3 {
            buffer.deposit(x, y, &deposit(&[1.0, 2.0], 3.0, 4.0), add);
        }
    }
    buffer.clear();
    for y in 0..3 {
        for x in 0..3 {
            assert_eq!(slow(&buffer, x, y), [0.0, 0.0]);
            assert_eq!(power_law(&buffer, x, y), Some((0.0, 0.0)));
            assert_eq!(instant(&buffer, x, y), Some(0.0));
        }
    }
    assert_eq!(buffer.layout(), full_layout());
}
