use phosphor::beam::BeamSample;
use phosphor::binary32::Binary32;
use phosphor::resample::{arc_length_resample, passthrough, Advance, Emission, ResampleState};

fn b(v: f32) -> Binary32 {
    Binary32::from_bits(v.to_bits())
}

fn f(v: Binary32) -> f32 {
    f32::from_bits(v.to_bits())
}

fn sample(x: f32, y: f32, intensity: f32, dt: f32) -> BeamSample {
    BeamSample {
        x: b(x),
        y: b(y),
        intensity: b(intensity),
        dt: b(dt),
    }
}

/// The arithmetic of resampling in single precision.
fn advance(state: ResampleState, sample: BeamSample) -> Advance {
    let dx = f(sample.x) - f(state.prev_x);
    let dy = f(sample.y) - f(state.prev_y);
    Advance {
        dist: b(f(state.accum_dist) + (dx * dx + dy * dy).sqrt()),
        energy: b(f(state.accum_energy) + f(sample.intensity) * f(sample.dt)),
    }
}

fn resample(samples: &[BeamSample], threshold: f32) -> Vec<BeamSample> {
    arc_length_resample(samples, b(threshold), advance)
}

fn energy(samples: &[BeamSample]) -> f32 {
    samples.iter().map(|s| f(s.intensity) * f(s.dt)).sum()
}

#[test]
fn empty_input() {
    assert!(resample(&[], 0.1).is_empty());
}

#[test]
fn single_sample_unchanged() {
    let input = [sample(0.5, 0.5, 1.0, 0.001)];
    let output = resample(&input, 0.1);
    assert_eq!(output.len(), 1);
    assert_eq!(f(output[0].x), 0.5);
    assert_eq!(f(output[0].intensity), 1.0);
    assert_eq!(f(output[0].dt), 0.001);
}

#[test]
fn zero_threshold_passthrough() {
    let input = [sample(0.1, 0.5, 1.0, 0.001), sample(0.2, 0.5, 1.0, 0.001)];
    let output = resample(&input, 0.0);
    assert_eq!(output.len(), 2);
}

#[test]
fn close_samples_merged() {
    // 10 samples each 0.01 apart along X, threshold 0.05
    let input: Vec<_> = (0..10)
        .map(|i| sample(0.5 + i as f32 * 0.01, 0.5, 1.0, 0.001))
        .collect();
    let output = resample(&input, 0.05);
    // First sample emitted directly, then depositions ~every 5 samples,
    // plus possibly a flush. Should be significantly fewer than 10.
    assert!(output.len() < input.len());
    assert!(output.len() >= 2);
}

#[test]
fn energy_conserved() {
    let input: Vec<_> = (0..100)
        .map(|i| sample(0.5 + i as f32 * 0.001, 0.5, 2.0, 0.001))
        .collect();
    let total_input: f32 = input.iter().map(|s| f(s.intensity) * f(s.dt)).sum();
    let output = resample(&input, 0.01);
    let total_output: f32 = output.iter().map(|s| f(s.intensity) * f(s.dt)).sum();
    assert!(
        (total_input - total_output).abs() < 1e-5,
        "input={total_input}, output={total_output}"
    );
}

#[test]
fn blanks_break_runs() {
    let input = [
        sample(0.1, 0.5, 1.0, 0.001),
        sample(0.11, 0.5, 1.0, 0.001),
        sample(0.3, 0.5, 0.0, 0.001), // blank retrace
        sample(0.4, 0.5, 1.0, 0.001),
        sample(0.41, 0.5, 1.0, 0.001),
    ];
    let output = resample(&input, 0.5);
    // Blank must be preserved
    assert!(output.iter().any(|s| f(s.intensity) <= 0.0));
    // Should have at least: run1-start, run1-flush, blank, run2-start, run2-flush
    assert!(output.len() >= 3);
}

#[test]
fn far_apart_samples_not_merged() {
    // Samples spaced far apart (> threshold) — each emitted individually
    let input: Vec<_> = (0..5)
        .map(|i| sample(i as f32 * 0.2, 0.5, 1.0, 0.001))
        .collect();
    let output = resample(&input, 0.05);
    // First emitted directly, rest each exceed threshold immediately
    assert_eq!(output.len(), input.len());
}

#[test]
fn stationary_beam_flushed() {
    // All samples at the same position — distance never exceeds threshold
    let input: Vec<_> = (0..10).map(|_| sample(0.5, 0.5, 1.0, 0.001)).collect();
    let output = resample(&input, 0.01);
    // First sample emitted directly, rest accumulated and flushed as one
    assert_eq!(output.len(), 2);
    // Total energy should be conserved
    let total_input: f32 = input.iter().map(|s| f(s.intensity) * f(s.dt)).sum();
    let total_output: f32 = output.iter().map(|s| f(s.intensity) * f(s.dt)).sum();
    assert!(
        (total_input - total_output).abs() < 1e-6,
        "input={total_input}, output={total_output}"
    );
}

#[test]
fn blanks_give_each_run_its_own_start_and_flush() {
    let input = [
        sample(0.1, 0.5, 1.0, 0.001),
        sample(0.11, 0.5, 1.0, 0.001),
        sample(0.3, 0.5, 0.0, 0.002),
        sample(0.4, 0.5, 1.0, 0.001),
        sample(0.41, 0.5, 3.0, 0.001),
    ];
    let output = resample(&input, 0.5);
    assert_eq!(
        output,
        vec![
            input[0],
            sample(0.11, 0.5, 0.001, 1.0),
            input[2],
            input[3],
            sample(0.41, 0.5, 0.003, 1.0),
        ]
    );
}

#[test]
fn deposits_carry_energy_and_the_unit_duration() {
    let input = [
        sample(0.0, 0.0, 1.0, 0.5),
        sample(0.3, 0.4, 2.0, 0.25),
        sample(0.3, 0.4, 4.0, 0.125),
    ];
    let output = resample(&input, 0.5);
    // The second sample is 0.5 away: a deposit of 2.0 * 0.25 at its place.
    // The third adds 0.5 of energy that is flushed at the end.
    assert_eq!(
        output,
        vec![
            input[0],
            sample(0.3, 0.4, 0.5, 1.0),
            sample(0.3, 0.4, 0.5, 1.0),
        ]
    );
}

#[test]
fn negative_threshold_passes_through() {
    let input = [sample(0.1, 0.5, 1.0, 0.001), sample(0.1, 0.5, 1.0, 0.001)];
    assert_eq!(resample(&input, -1.0), input.to_vec());
    assert!(passthrough(2, b(-1.0)));
    assert!(passthrough(2, b(-0.0)));
    assert!(passthrough(0, b(1.0)));
    assert!(!passthrough(2, b(1.0)));
    assert!(!passthrough(2, b(f32::NAN)));
}

#[test]
fn resampling_twice_changes_little() {
    let input: Vec<_> = (0..200)
        .map(|i| sample(0.1 + i as f32 * 0.002, 0.5, 1.0, 0.001))
        .collect();
    let once = resample(&input, 0.01);
    let twice = resample(&once, 0.01);
    // Deposits already stand a threshold apart, so a second pass takes
    // every one of them as a step of its own.
    assert_eq!(twice.len(), once.len());
    for (a, c) in once.iter().zip(twice.iter()) {
        assert_eq!(a.x, c.x);
        assert_eq!(a.y, c.y);
    }
    assert!((energy(&once) - energy(&input)).abs() < 1e-5);
}

#[test]
fn step_by_step_matches_the_whole_batch() {
    let input = [
        sample(0.1, 0.5, 1.0, 0.001),
        sample(0.2, 0.5, 1.0, 0.001),
        sample(0.3, 0.5, 0.0, 0.001),
        sample(0.3, 0.6, -1.0, 0.001),
        sample(0.4, 0.5, 1.0, 0.001),
        sample(0.9, 0.5, 1.0, 0.001),
    ];
    let threshold = b(0.3);
    let mut state = ResampleState::new();
    let mut out = Vec::new();
    for &s in &input {
        let sums = advance(state, s);
        match state.step(s, sums, threshold) {
            Emission::Nothing => {}
            Emission::One(a) => out.push(a),
            Emission::Two(a, c) => {
                out.push(a);
                out.push(c);
            }
        }
    }
    out.extend(state.finish());
    assert_eq!(out, resample(&input, 0.3));
}

#[test]
fn second_pass_over_a_straight_path_changes_nothing() {
    // Steps of 1/1024 along a line, with a blank in between: every sum is
    // exact, so deposits a threshold apart along the path are a threshold
    // apart from each other.
    let step = 1.0 / 1024.0;
    let mut input: Vec<_> = (0..20).map(|i| sample(i as f32 * step, 0.5, 1.0, 0.5)).collect();
    input.push(sample(0.5, 0.5, 0.0, 0.25));
    input.extend((0..6).map(|i| sample(0.5, i as f32 * step, 2.0, 0.5)));
    let once = resample(&input, 4.0 * step);
    let positions: Vec<f32> = once.iter().map(|s| f(s.x) * 1024.0 + f(s.y) * 1024.0 - 512.0).collect();
    assert_eq!(positions, vec![0.0, 4.0, 8.0, 12.0, 16.0, 19.0, 512.0, 0.0, 4.0, 5.0]);
    let energies: Vec<f32> = once.iter().map(|s| f(s.intensity) * f(s.dt)).collect();
    assert_eq!(energies, vec![0.5, 2.0, 2.0, 2.0, 2.0, 1.5, 0.0, 1.0, 4.0, 1.0]);
    let twice = resample(&once, 4.0 * step);
    assert_eq!(twice, once);
}

#[test]
fn second_pass_merges_deposits_of_a_path_that_turns_back() {
    // Out and back along one line: the deposits lie a threshold apart along
    // the path and on top of each other on the screen.
    let step = 1.0 / 1024.0;
    let mut input: Vec<_> = (0..=4).map(|i| sample(i as f32 * step, 0.5, 1.0, 0.5)).collect();
    input.extend((0..4).rev().map(|i| sample(i as f32 * step, 0.5, 1.0, 0.5)));
    let once = resample(&input, 3.0 * step);
    let twice = resample(&once, 3.0 * step);
    assert_ne!(twice, once);
    assert!(twice.len() < once.len());
    assert_eq!(energy(&twice), energy(&once));
}
